//! Where the marketplace keeps its packages, reviews and users' plugins:
//! the in-memory store, the layout of the file store, and the choice of
//! store from the configuration. Reading and writing files is done by the
//! caller along the paths given here.

use vstd::prelude::*;
use crate::keyed::KeyedList;
use crate::marketplace::registry::RegistryEntry;
use crate::marketplace::types::{Pagination, PluginPackage, PluginReview, StorageConfig, StorageType};
use crate::text::{clone_strings, concat, owned, str_eq, string_views};
use crate::wasm_error::{WasmError, WasmResult};

verus! {

/// The key of a package: the plugin, a colon, the version.
pub open spec fn spec_package_key(plugin_id: Seq<char>, version: Seq<char>) -> Seq<char> {
    plugin_id + ":"@ + version
}

/// The key of a package.
pub fn package_key(plugin_id: &str, version: &str) -> (k: String)
    ensures
        k@ == spec_package_key(plugin_id@, version@),
{
    let a = concat(plugin_id, ":");
    concat(a.as_str(), version)
}

/// A review's fields, as character sequences.
pub open spec fn review_fields(r: PluginReview) -> (Seq<char>, Seq<char>, Seq<char>, u8, Seq<char>, i64, bool) {
    (r.id@, r.user_id@, r.username@, r.rating, r.comment@, r.created_at, r.verified_purchase)
}

/// A copy of a review.
pub fn copy_review(r: &PluginReview) -> (c: PluginReview)
    ensures
        review_fields(c) == review_fields(*r),
{
    PluginReview {
        id: owned(r.id.as_str()),
        user_id: owned(r.user_id.as_str()),
        username: owned(r.username.as_str()),
        rating: r.rating,
        comment: owned(r.comment.as_str()),
        created_at: r.created_at,
        verified_purchase: r.verified_purchase,
    }
}

/// The reviews of a list, as field tuples.
pub open spec fn reviews_fields(rs: Seq<PluginReview>) -> Seq<(Seq<char>, Seq<char>, Seq<char>, u8, Seq<char>, i64, bool)> {
    rs.map_values(|r: PluginReview| review_fields(r))
}

/// The page of `n` items that starts at `page * page_size`: empty when that
/// start is past the end.
pub open spec fn page_range(n: int, page: int, page_size: int) -> (int, int) {
    let start = page * page_size;
    let end = if start + page_size < n { start + page_size } else { n };
    if start < n { (start, end) } else { (0, 0) }
}

/// The marketplace's data held in memory.
pub struct MemoryStorage {
    plugins: KeyedList<RegistryEntry>,
    packages: KeyedList<PluginPackage>,
    reviews: KeyedList<Vec<PluginReview>>,
    user_plugins: KeyedList<Vec<String>>,
}

impl MemoryStorage {
    pub closed spec fn wf(self) -> bool {
        self.plugins.wf() && self.packages.wf() && self.reviews.wf() && self.user_plugins.wf()
    }

    /// The registry entries by plugin identifier.
    pub closed spec fn plugins(self) -> Map<Seq<char>, RegistryEntry> {
        self.plugins.map()
    }

    /// The stored plugin identifiers, each once.
    pub closed spec fn plugin_ids(self) -> Seq<Seq<char>> {
        self.plugins.key_order()
    }

    /// The stored plugin identifiers are those of the entries, each once.
    pub proof fn lemma_plugin_ids(self)
        requires
            self.wf(),
        ensures
            self.plugin_ids().no_duplicates(),
            self.plugin_ids().to_set() == self.plugins().dom(),
    {
        self.plugins.lemma_model();
    }

    /// The packages by package key.
    pub closed spec fn packages(self) -> Map<Seq<char>, PluginPackage> {
        self.packages.map()
    }

    /// The reviews of each plugin, in the order they were saved.
    pub closed spec fn reviews(self) -> Map<Seq<char>, Seq<(Seq<char>, Seq<char>, Seq<char>, u8, Seq<char>, i64, bool)>> {
        self.reviews.map().map_values(|v: Vec<PluginReview>| reviews_fields(v@))
    }

    /// The plugins of each user, in the order they were saved.
    pub closed spec fn user_plugins(self) -> Map<Seq<char>, Seq<Seq<char>>> {
        self.user_plugins.map().map_values(|v: Vec<String>| string_views(v@))
    }

    /// An empty store.
    pub fn new() -> (s: Self)
        ensures
            s.wf(),
            s.plugins() == Map::<Seq<char>, RegistryEntry>::empty(),
            s.packages() == Map::<Seq<char>, PluginPackage>::empty(),
            s.reviews() == Map::<Seq<char>, Seq<(Seq<char>, Seq<char>, Seq<char>, u8, Seq<char>, i64, bool)>>::empty(),
            s.user_plugins() == Map::<Seq<char>, Seq<Seq<char>>>::empty(),
    {
        let s = MemoryStorage {
            plugins: KeyedList::new(),
            packages: KeyedList::new(),
            reviews: KeyedList::new(),
            user_plugins: KeyedList::new(),
        };
        assert(s.reviews() =~= Map::<Seq<char>, Seq<(Seq<char>, Seq<char>, Seq<char>, u8, Seq<char>, i64, bool)>>::empty());
        assert(s.user_plugins() =~= Map::<Seq<char>, Seq<Seq<char>>>::empty());
        s
    }

    /// Keeps `plugin` under its identifier, replacing an earlier entry.
    pub fn save_plugin(&mut self, plugin: RegistryEntry) -> (r: WasmResult<()>)
        requires
            old(self).wf(),
        ensures
            final(self).wf(),
            r is Ok,
            final(self).plugins() == old(self).plugins().insert(plugin.metadata.id@, plugin),
            final(self).packages() == old(self).packages(),
            final(self).reviews() == old(self).reviews(),
            final(self).user_plugins() == old(self).user_plugins(),
    {
        let id = owned(plugin.metadata.id.as_str());
        self.plugins.insert(id, plugin);
        Ok(())
    }

    /// The entry of `plugin_id`, if stored.
    pub fn get_plugin(&self, plugin_id: &str) -> (r: Option<&RegistryEntry>)
        requires
            self.wf(),
        ensures
            match r {
                Some(e) => self.plugins().contains_key(plugin_id@) && *e == self.plugins()[plugin_id@],
                None => !self.plugins().contains_key(plugin_id@),
            },
    {
        self.plugins.get(plugin_id)
    }

    /// Forgets the entry of `plugin_id`.
    pub fn delete_plugin(&mut self, plugin_id: &str) -> (r: WasmResult<()>)
        requires
            old(self).wf(),
        ensures
            final(self).wf(),
            r is Ok,
            final(self).plugins() == old(self).plugins().remove(plugin_id@),
            final(self).packages() == old(self).packages(),
            final(self).reviews() == old(self).reviews(),
            final(self).user_plugins() == old(self).user_plugins(),
    {
        self.plugins.remove(plugin_id);
        Ok(())
    }

    /// Every stored entry, once each.
    pub fn list_all_plugins(&self) -> (r: Vec<&RegistryEntry>)
        requires
            self.wf(),
        ensures
            r@.len() == self.plugin_ids().len(),
            forall|i: int| 0 <= i < r@.len() ==> #[trigger] *r@[i] == self.plugins()[self.plugin_ids()[i]],
    {
        proof {
            self.plugins.lemma_model();
        }
        let n = self.plugins.entry_count();
        let mut out: Vec<&RegistryEntry> = Vec::new();
        let mut i: usize = 0;
        while i < n
            invariant
                self.plugins.wf(),
                n == self.plugins.entries().len(),
                n == self.plugins.key_order().len(),
                self.plugins.key_order() == crate::keyed::entry_keys(self.plugins.entries()),
                forall|j: int| 0 <= j < n ==> #[trigger] self.plugins.map()[self.plugins.entries()[j].0@]
                    == self.plugins.entries()[j].1,
                i <= n,
                out@.len() == i,
                forall|j: int| 0 <= j < i ==> #[trigger] *out@[j] == self.plugins.map()[self.plugins.key_order()[j]],
            decreases n - i,
        {
            let (_id, entry) = self.plugins.entry_at(i);
            assert(self.plugins.key_order()[i as int] == self.plugins.entries()[i as int].0@);
            assert(self.plugins.map()[self.plugins.entries()[i as int].0@] == self.plugins.entries()[i as int].1);
            out.push(entry);
            i = i + 1;
        }
        out
    }

    /// Counts a download of `plugin_id`, when it is stored.
    pub fn increment_download_count(&mut self, plugin_id: &str) -> (r: WasmResult<()>)
        requires
            old(self).wf(),
            old(self).plugins().contains_key(plugin_id@) ==> old(self).plugins()[plugin_id@].download_count
                < u64::MAX,
        ensures
            final(self).wf(),
            r is Ok,
            !old(self).plugins().contains_key(plugin_id@) ==> final(self).plugins() == old(self).plugins(),
            old(self).plugins().contains_key(plugin_id@) ==> final(self).plugins() == old(self).plugins().insert(
                plugin_id@,
                RegistryEntry {
                    download_count: (old(self).plugins()[plugin_id@].download_count + 1) as u64,
                    ..old(self).plugins()[plugin_id@]
                },
            ),
            final(self).packages() == old(self).packages(),
            final(self).reviews() == old(self).reviews(),
            final(self).user_plugins() == old(self).user_plugins(),
    {
        match self.plugins.remove(plugin_id) {
            Some(entry) => {
                let mut e = entry;
                e.download_count = e.download_count + 1;
                self.plugins.insert(owned(plugin_id), e);
                assert(self.plugins.map() =~= old(self).plugins().insert(plugin_id@, e));
            },
            None => {},
        }
        Ok(())
    }

    /// Forgets the reviews whose identifier is `review_id`, whichever plugin
    /// they were saved for.
    pub fn delete_review(&mut self, review_id: &str) -> (r: WasmResult<()>)
        requires
            old(self).wf(),
        ensures
            final(self).wf(),
            r is Ok,
            final(self).reviews().dom() == old(self).reviews().dom(),
            forall|p: Seq<char>| #[trigger] final(self).reviews().contains_key(p) ==> final(self).reviews()[p] == old(self).reviews()[p].filter(|f: (Seq<char>, Seq<char>, Seq<char>, u8, Seq<char>, i64, bool)| f.0 != review_id@),
            final(self).plugins() == old(self).plugins(),
            final(self).packages() == old(self).packages(),
            final(self).user_plugins() == old(self).user_plugins(),
    {
        let ghost keep = |f: (Seq<char>, Seq<char>, Seq<char>, u8, Seq<char>, i64, bool)| f.0 != review_id@;
        let ghost start = self.reviews();
        let n = self.reviews.entry_count();
        proof {
            self.reviews.lemma_model();
        }
        let mut i: usize = 0;
        while i < n
            invariant
                self.reviews.wf(),
                n == self.reviews.entries().len(),
                i <= n,
                self.reviews.key_order() == crate::keyed::entry_keys(self.reviews.entries()),
                self.reviews.key_order().no_duplicates(),
                forall|j: int| 0 <= j < n ==> #[trigger] self.reviews.map()[self.reviews.entries()[j].0@]
                    == self.reviews.entries()[j].1 && self.reviews.map().contains_key(self.reviews.entries()[j].0@),
                self.reviews().dom() == start.dom(),
                forall|f: (Seq<char>, Seq<char>, Seq<char>, u8, Seq<char>, i64, bool)| #[trigger] keep(f) == (f.0
                    != review_id@),
                forall|p: Seq<char>| #[trigger] self.reviews().contains_key(p) ==> self.reviews()[p] == (if self.reviews.key_order().subrange(0, i as int).contains(p) {
                    start[p].filter(keep)
                } else {
                    start[p]
                }),
                self.plugins == old(self).plugins,
                self.packages == old(self).packages,
                self.user_plugins == old(self).user_plugins,
            decreases n - i,
        {
            let (key, list) = self.reviews.entry_at(i);
            let ghost k = key@;
            let ghost before_map = self.reviews();
            let ghost src = reviews_fields(list@);
            assert(self.reviews.key_order()[i as int] == k);
            assert(self.reviews.map()[k] == *list);
            let mut kept: Vec<PluginReview> = Vec::new();
            let mut j: usize = 0;
            while j < list.len()
                invariant
                    j <= list@.len(),
                    src == reviews_fields(list@),
                    forall|f: (Seq<char>, Seq<char>, Seq<char>, u8, Seq<char>, i64, bool)| #[trigger] keep(f) == (f.0
                        != review_id@),
                    reviews_fields(kept@) == src.subrange(0, j as int).filter(keep),
                decreases list.len() - j,
            {
                proof {
                    assert(src.subrange(0, j + 1) =~= src.subrange(0, j as int).push(src[j as int]));
                    crate::seqs::lemma_filter_push(src.subrange(0, j as int), keep, src[j as int]);
                }
                assert(src[j as int] == review_fields(list@[j as int]));
                if !str_eq(list[j].id.as_str(), review_id) {
                    let ghost before = kept@;
                    let c = copy_review(&list[j]);
                    kept.push(c);
                    assert(reviews_fields(kept@) =~= reviews_fields(before).push(review_fields(c)));
                }
                j = j + 1;
            }
            assert(src.subrange(0, list@.len() as int) =~= src);
            let ghost old_map = self.reviews.map();
            let ghost kept_fields = reviews_fields(kept@);
            assert(before_map[k] == src);
            self.reviews.set_value_at(i, kept);
            proof {
                assert(self.reviews.map() == old_map.insert(k, kept));
                assert(self.reviews()[k] == kept_fields);
                let seen = self.reviews.key_order().subrange(0, i as int);
                assert(self.reviews.key_order().subrange(0, i + 1) =~= seen.push(k));
                assert(!seen.contains(k)) by {
                    if seen.contains(k) {
                        let q = choose|q: int| 0 <= q < seen.len() && seen[q] == k;
                        assert(self.reviews.key_order()[q] == self.reviews.key_order()[i as int]);
                    }
                }
                assert forall|p: Seq<char>| #[trigger] self.reviews().contains_key(p) implies self.reviews()[p] == (if self.reviews.key_order().subrange(0, i + 1).contains(p) {
                    start[p].filter(keep)
                } else {
                    start[p]
                }) by {
                    if p != k {
                        assert(seen.push(k).contains(p) <==> seen.contains(p)) by {
                            if seen.push(k).contains(p) {
                                let q = choose|q: int| 0 <= q < seen.push(k).len() && seen.push(k)[q] == p;
                                assert(seen[q] == p);
                            }
                            if seen.contains(p) {
                                let q = choose|q: int| 0 <= q < seen.len() && seen[q] == p;
                                assert(seen.push(k)[q] == p);
                            }
                        }
                        assert(old_map.contains_key(p));
                        assert(before_map.contains_key(p));
                        assert(self.reviews()[p] == before_map[p]);
                    } else {
                        assert(seen.push(k)[seen.len() as int] == k);
                        assert(before_map.contains_key(k));
                        assert(before_map[k] == start[k]);
                        assert(kept_fields == start[k].filter(keep));
                    }
                }
                assert(self.reviews().dom() =~= start.dom());
                assert forall|j2: int| 0 <= j2 < n implies #[trigger] self.reviews.map()[self.reviews.entries()[j2].0@]
                    == self.reviews.entries()[j2].1 && self.reviews.map().contains_key(self.reviews.entries()[j2].0@) by {
                    self.reviews.lemma_model();
                }
            }
            i = i + 1;
        }
        proof {
            assert forall|p: Seq<char>| #[trigger] self.reviews().contains_key(p) implies self.reviews()[p] == start[p].filter(keep) by {
                assert(self.reviews.key_order().subrange(0, n as int) =~= self.reviews.key_order());
                self.reviews.lemma_model();
                assert(self.reviews.map().dom().contains(p));
            }
        }
        Ok(())
    }

    /// Keeps `package` as `version` of `plugin_id`, replacing an earlier one.
    pub fn save_plugin_package(&mut self, plugin_id: &str, version: &str, package: PluginPackage) -> (r: WasmResult<()>)
        requires
            old(self).wf(),
        ensures
            final(self).wf(),
            r is Ok,
            final(self).plugins() == old(self).plugins(),
            final(self).packages() == old(self).packages().insert(spec_package_key(plugin_id@, version@), package),
            final(self).reviews() == old(self).reviews(),
            final(self).user_plugins() == old(self).user_plugins(),
    {
        let key = package_key(plugin_id, version);
        self.packages.insert(key, package);
        Ok(())
    }

    /// The package kept as `version` of `plugin_id`, if any.
    pub fn get_plugin_package(&self, plugin_id: &str, version: &str) -> (r: Option<&PluginPackage>)
        requires
            self.wf(),
        ensures
            match r {
                Some(p) => self.packages().contains_key(spec_package_key(plugin_id@, version@))
                    && *p == self.packages()[spec_package_key(plugin_id@, version@)],
                None => !self.packages().contains_key(spec_package_key(plugin_id@, version@)),
            },
    {
        let key = package_key(plugin_id, version);
        self.packages.get(key.as_str())
    }

    /// Forgets `version` of `plugin_id`.
    pub fn delete_plugin_package(&mut self, plugin_id: &str, version: &str) -> (r: WasmResult<()>)
        requires
            old(self).wf(),
        ensures
            final(self).wf(),
            r is Ok,
            final(self).plugins() == old(self).plugins(),
            final(self).packages() == old(self).packages().remove(spec_package_key(plugin_id@, version@)),
            final(self).reviews() == old(self).reviews(),
            final(self).user_plugins() == old(self).user_plugins(),
    {
        let key = package_key(plugin_id, version);
        self.packages.remove(key.as_str());
        Ok(())
    }

    /// Adds `review` after the earlier reviews of `plugin_id`.
    pub fn save_review(&mut self, plugin_id: &str, review: &PluginReview) -> (r: WasmResult<()>)
        requires
            old(self).wf(),
        ensures
            final(self).wf(),
            r is Ok,
            final(self).plugins() == old(self).plugins(),
            final(self).reviews() == old(self).reviews().insert(
                plugin_id@,
                (if old(self).reviews().contains_key(plugin_id@) {
                    old(self).reviews()[plugin_id@]
                } else {
                    Seq::empty()
                }).push(review_fields(*review)),
            ),
            final(self).packages() == old(self).packages(),
            final(self).user_plugins() == old(self).user_plugins(),
    {
        let ghost prior = if old(self).reviews().contains_key(plugin_id@) {
            old(self).reviews()[plugin_id@]
        } else {
            Seq::empty()
        };
        let mut list: Vec<PluginReview> = Vec::new();
        match self.reviews.get(plugin_id) {
            Some(v) => {
                let mut i: usize = 0;
                while i < v.len()
                    invariant
                        i <= v@.len(),
                        reviews_fields(list@) == reviews_fields(v@).subrange(0, i as int),
                    decreases v.len() - i,
                {
                    let ghost before = list@;
                    let c = copy_review(&v[i]);
                    list.push(c);
                    assert(reviews_fields(list@) =~= reviews_fields(before).push(review_fields(c)));
                    assert(reviews_fields(v@)[i as int] == review_fields(v@[i as int]));
                    assert(reviews_fields(list@) =~= reviews_fields(v@).subrange(0, i + 1));
                    i = i + 1;
                }
                assert(reviews_fields(v@).subrange(0, v@.len() as int) =~= reviews_fields(v@));
            },
            None => {
                assert(reviews_fields(list@) =~= Seq::<(Seq<char>, Seq<char>, Seq<char>, u8, Seq<char>, i64, bool)>::empty());
            },
        }
        assert(reviews_fields(list@) == prior);
        let ghost before = list@;
        list.push(copy_review(review));
        assert(reviews_fields(list@) =~= prior.push(review_fields(*review)));
        self.reviews.insert(owned(plugin_id), list);
        assert(self.reviews() =~= old(self).reviews().insert(plugin_id@, prior.push(review_fields(*review))));
        Ok(())
    }

    /// The page of the reviews of `plugin_id` asked for, in the order they
    /// were saved.
    pub fn get_reviews(&self, plugin_id: &str, pagination: &Pagination) -> (r: WasmResult<Vec<PluginReview>>)
        requires
            self.wf(),
            pagination.page * pagination.page_size <= u32::MAX,
        ensures
            r matches Ok(items) && reviews_fields(items@) == (if self.reviews().contains_key(plugin_id@) {
                let all = self.reviews()[plugin_id@];
                let (s, e) = page_range(all.len() as int, pagination.page as int, pagination.page_size as int);
                all.subrange(s, e)
            } else {
                Seq::empty()
            }),
    {
        let mut out: Vec<PluginReview> = Vec::new();
        match self.reviews.get(plugin_id) {
            None => {
                assert(reviews_fields(out@) =~= Seq::<(Seq<char>, Seq<char>, Seq<char>, u8, Seq<char>, i64, bool)>::empty());
                Ok(out)
            },
            Some(v) => {
                let ghost all = reviews_fields(v@);
                let start_u32: u32 = pagination.page * pagination.page_size;
                let start: usize = start_u32 as usize;
                if start >= v.len() {
                    assert(reviews_fields(out@) =~= all.subrange(0, 0));
                    return Ok(out);
                }
                let end: usize = if v.len() - start > pagination.page_size as usize {
                    start + pagination.page_size as usize
                } else {
                    v.len()
                };
                let mut i: usize = start;
                while i < end
                    invariant
                        start <= i <= end <= v@.len(),
                        all == reviews_fields(v@),
                        reviews_fields(out@) == all.subrange(start as int, i as int),
                    decreases end - i,
                {
                    let ghost before = out@;
                    let c = copy_review(&v[i]);
                    out.push(c);
                    assert(reviews_fields(out@) =~= reviews_fields(before).push(review_fields(c)));
                    assert(all[i as int] == review_fields(v@[i as int]));
                    assert(reviews_fields(out@) =~= all.subrange(start as int, i + 1));
                    i = i + 1;
                }
                Ok(out)
            },
        }
    }

    /// The plugins saved for `user_id`, in order; none for an unknown user.
    pub fn get_user_plugins(&self, user_id: &str) -> (r: WasmResult<Vec<String>>)
        requires
            self.wf(),
        ensures
            r matches Ok(ids) && string_views(ids@) == (if self.user_plugins().contains_key(user_id@) {
                self.user_plugins()[user_id@]
            } else {
                Seq::empty()
            }),
    {
        match self.user_plugins.get(user_id) {
            Some(v) => Ok(clone_strings(v)),
            None => {
                let out: Vec<String> = Vec::new();
                assert(string_views(out@) =~= Seq::<Seq<char>>::empty());
                Ok(out)
            },
        }
    }

    /// Adds `plugin_id` after the earlier plugins of `user_id`.
    pub fn save_user_plugin(&mut self, user_id: &str, plugin_id: &str) -> (r: WasmResult<()>)
        requires
            old(self).wf(),
        ensures
            final(self).wf(),
            r is Ok,
            final(self).plugins() == old(self).plugins(),
            final(self).user_plugins() == old(self).user_plugins().insert(
                user_id@,
                (if old(self).user_plugins().contains_key(user_id@) {
                    old(self).user_plugins()[user_id@]
                } else {
                    Seq::empty()
                }).push(plugin_id@),
            ),
            final(self).packages() == old(self).packages(),
            final(self).reviews() == old(self).reviews(),
    {
        let mut list: Vec<String> = match self.user_plugins.get(user_id) {
            Some(v) => clone_strings(v),
            None => Vec::new(),
        };
        let ghost prior = string_views(list@);
        assert(prior =~= (if old(self).user_plugins().contains_key(user_id@) {
            old(self).user_plugins()[user_id@]
        } else {
            Seq::empty()
        }));
        list.push(owned(plugin_id));
        assert(string_views(list@) =~= prior.push(plugin_id@));
        self.user_plugins.insert(owned(user_id), list);
        assert(self.user_plugins() =~= old(self).user_plugins().insert(user_id@, prior.push(plugin_id@)));
        Ok(())
    }
}

/// The marketplace's data in files under a directory.
#[derive(Debug, Clone)]
pub struct FileStorage {
    storage_dir: String,
}

impl FileStorage {
    /// The directory the files are under.
    pub closed spec fn dir(self) -> Seq<char> {
        self.storage_dir@
    }

    /// A store under `storage_dir`.
    pub fn new(storage_dir: String) -> (s: Self)
        ensures
            s.dir() == storage_dir@,
    {
        FileStorage { storage_dir }
    }

    /// The directories the store needs: its own and, under it, `plugins`,
    /// `packages`, `reviews` and `users`, in that order.
    pub fn directories(&self) -> (r: Vec<String>)
        ensures
            string_views(r@) == seq![
                self.dir(),
                self.dir() + "/plugins"@,
                self.dir() + "/packages"@,
                self.dir() + "/reviews"@,
                self.dir() + "/users"@,
            ],
    {
        let d = self.storage_dir.as_str();
        let r = vec![
            owned(d),
            concat(d, "/plugins"),
            concat(d, "/packages"),
            concat(d, "/reviews"),
            concat(d, "/users"),
        ];
        assert(string_views(r@) =~= seq![
            self.dir(),
            self.dir() + "/plugins"@,
            self.dir() + "/packages"@,
            self.dir() + "/reviews"@,
            self.dir() + "/users"@,
        ]);
        r
    }

    /// The file of a plugin's registry entry: `<dir>/plugins/<id>.json`.
    pub fn plugin_path(&self, plugin_id: &str) -> (p: String)
        ensures
            p@ == self.dir() + "/plugins/"@ + plugin_id@ + ".json"@,
    {
        let a = concat(self.storage_dir.as_str(), "/plugins/");
        let b = concat(a.as_str(), plugin_id);
        concat(b.as_str(), ".json")
    }

    /// The file of a package: `<dir>/packages/<id>_<version>.json`.
    pub fn package_path(&self, plugin_id: &str, version: &str) -> (p: String)
        ensures
            p@ == self.dir() + "/packages/"@ + plugin_id@ + "_"@ + version@ + ".json"@,
    {
        let a = concat(self.storage_dir.as_str(), "/packages/");
        let b = concat(a.as_str(), plugin_id);
        let c = concat(b.as_str(), "_");
        let d = concat(c.as_str(), version);
        concat(d.as_str(), ".json")
    }
}

/// Which store a configuration asks for.
#[derive(Debug, Clone)]
pub enum StorageChoice {
    Memory,
    File(FileStorage),
}

/// The store a configuration asks for: in memory, or files under the
/// connection string; a database store does not exist yet.
pub fn choose_storage(config: &StorageConfig) -> (r: WasmResult<StorageChoice>)
    ensures
        config.storage_type == StorageType::Memory ==> r matches Ok(StorageChoice::Memory),
        config.storage_type == StorageType::File ==> (r matches Ok(StorageChoice::File(f)) && f.dir()
            == config.connection_string@),
        config.storage_type == StorageType::Database ==> (r matches Err(WasmError::Runtime(m)) && m@
            == "数据库存储尚未实现"@),
{
    match config.storage_type {
        StorageType::Memory => Ok(StorageChoice::Memory),
        StorageType::File => Ok(StorageChoice::File(FileStorage::new(owned(config.connection_string.as_str())))),
        StorageType::Database => Err(WasmError::runtime(String::from_str("数据库存储尚未实现"))),
    }
}

/// Two packages whose plugin ids hold no colon have the same key only when
/// they are the same plugin and version: saving one leaves the others as
/// they were.
pub proof fn lemma_package_keys_distinct(p1: Seq<char>, v1: Seq<char>, p2: Seq<char>, v2: Seq<char>)
    requires
        !p1.contains(':'),
        !p2.contains(':'),
        spec_package_key(p1, v1) == spec_package_key(p2, v2),
    ensures
        p1 == p2,
        v1 == v2,
{
    let k1 = spec_package_key(p1, v1);
    let k2 = spec_package_key(p2, v2);
    assert(k1 == p1 + seq![':'] + v1) by {
        reveal_strlit(":");
        assert(":"@ =~= seq![':']);
    }
    assert(k2 == p2 + seq![':'] + v2) by {
        reveal_strlit(":");
        assert(":"@ =~= seq![':']);
    }
    if p1.len() < p2.len() {
        assert(k1[p1.len() as int] == ':');
        assert(k2[p1.len() as int] == p2[p1.len() as int]);
        assert(p2.contains(p2[p1.len() as int]));
    } else if p2.len() < p1.len() {
        assert(k2[p2.len() as int] == ':');
        assert(k1[p2.len() as int] == p1[p2.len() as int]);
        assert(p1.contains(p1[p2.len() as int]));
    } else {
        assert forall|i: int| 0 <= i < p1.len() implies p1[i] == p2[i] by {
            assert(k1[i] == p1[i] && k2[i] == p2[i]);
        }
        assert(p1 =~= p2);
        assert(k1.len() == p1.len() + 1 + v1.len());
        assert(k2.len() == p2.len() + 1 + v2.len());
        assert(v1.len() == v2.len());
        assert forall|i: int| 0 <= i < v1.len() implies v1[i] == v2[i] by {
            assert(k1[p1.len() + 1 + i] == v1[i]);
            assert(k2[p2.len() + 1 + i] == v2[i]);
        }
        assert(v1 =~= v2);
    }
}

} // verus!
