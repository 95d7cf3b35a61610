//! Plugin search: splitting text into terms, matching terms with an edit
//! distance, and the inverted indices from terms to plugin identifiers.

use vstd::prelude::*;
use vstd::string::StringSliceAdditionalSpecFns;
use crate::keyed::KeyedList;
use crate::marketplace::package_manager::{seq_less, str_less};
use crate::marketplace::registry::{summarize, summarizes, PluginSummary, RegistryEntry};
use crate::marketplace::review::page_bounds;
use crate::marketplace::types::{PluginMetadata, SearchConfig, SearchQuery, SortBy};
use crate::seqs::ordered_by;
use crate::text::{
    char_is_alphanumeric, char_is_whitespace, has_one_of, holds_one_of, lowercase, owned, seq_contains, seq_without, str_chars, str_eq,
    str_contains, string_views, to_lowercase, unicode_alphanumeric, unicode_whitespace, without_str,
};
use crate::wasm_error::WasmResult;

verus! {

/// The length of the run of non-white-space characters that `x` starts with.
pub open spec fn word_len(x: Seq<char>) -> nat
    decreases x.len(),
{
    if x.len() == 0 || unicode_whitespace(x[0]) {
        0
    } else {
        1 + word_len(x.drop_first())
    }
}

/// The number of characters that are not alphanumeric at the start of `x`.
pub open spec fn leading_junk(x: Seq<char>) -> nat
    decreases x.len(),
{
    if x.len() == 0 || unicode_alphanumeric(x[0]) {
        0
    } else {
        1 + leading_junk(x.drop_first())
    }
}

/// The number of characters that are not alphanumeric at the end of `x`.
pub open spec fn trailing_junk(x: Seq<char>) -> nat
    decreases x.len(),
{
    if x.len() == 0 || unicode_alphanumeric(x.last()) {
        0
    } else {
        1 + trailing_junk(x.drop_last())
    }
}

/// `x` without the characters that are not alphanumeric at either end.
pub open spec fn trim_word(x: Seq<char>) -> Seq<char> {
    if leading_junk(x) == x.len() {
        Seq::empty()
    } else {
        x.subrange(leading_junk(x) as int, x.len() - trailing_junk(x))
    }
}

/// The search terms of `x`: its white-space separated words, each trimmed of
/// characters that are not alphanumeric at its ends, those left empty dropped.
pub open spec fn spec_tokens(x: Seq<char>) -> Seq<Seq<char>>
    decreases x.len(),
{
    if x.len() == 0 {
        Seq::empty()
    } else if unicode_whitespace(x[0]) {
        spec_tokens(x.drop_first())
    } else {
        let k = word_len(x);
        proof {
            lemma_word_len_bounded(x);
        }
        let t = trim_word(x.subrange(0, k as int));
        let rest = spec_tokens(x.subrange(k as int, x.len() as int));
        if t.len() > 0 {
            seq![t] + rest
        } else {
            rest
        }
    }
}

/// A word is no longer than the text, and one that does not start with
/// white space is not empty.
pub proof fn lemma_word_len_bounded(x: Seq<char>)
    ensures
        word_len(x) <= x.len(),
        x.len() > 0 && !unicode_whitespace(x[0]) ==> word_len(x) >= 1,
    decreases x.len(),
{
    if x.len() > 0 && !unicode_whitespace(x[0]) {
        lemma_word_len_bounded(x.drop_first());
    }
}

/// Relates `word_len` of a suffix to the next suffix.
proof fn lemma_word_len_step(x: Seq<char>, i: int)
    requires
        0 <= i < x.len(),
        !unicode_whitespace(x[i]),
    ensures
        word_len(x.subrange(i, x.len() as int)) == 1 + word_len(x.subrange(i + 1, x.len() as int)),
{
    assert(x.subrange(i, x.len() as int).drop_first() =~= x.subrange(i + 1, x.len() as int));
}

/// Relates `leading_junk` of a suffix to the next suffix.
proof fn lemma_leading_step(x: Seq<char>, i: int)
    requires
        0 <= i < x.len(),
        !unicode_alphanumeric(x[i]),
    ensures
        leading_junk(x.subrange(i, x.len() as int)) == 1 + leading_junk(x.subrange(i + 1, x.len() as int)),
{
    assert(x.subrange(i, x.len() as int).drop_first() =~= x.subrange(i + 1, x.len() as int));
}

/// Relates `trailing_junk` of a prefix to the shorter prefix.
proof fn lemma_trailing_step(x: Seq<char>, j: int)
    requires
        0 < j <= x.len(),
        !unicode_alphanumeric(x[j - 1]),
    ensures
        trailing_junk(x.subrange(0, j)) == 1 + trailing_junk(x.subrange(0, j - 1)),
{
    assert(x.subrange(0, j).drop_last() =~= x.subrange(0, j - 1));
}

/// A word that starts with non-junk has no leading junk, and the junk count
/// of a word never exceeds its length.
proof fn lemma_leading_bounded(x: Seq<char>)
    ensures
        leading_junk(x) <= x.len(),
        leading_junk(x) < x.len() ==> unicode_alphanumeric(x[leading_junk(x) as int]),
        forall|k: int| 0 <= k < leading_junk(x) ==> !unicode_alphanumeric(#[trigger] x[k]),
    decreases x.len(),
{
    if x.len() > 0 && !unicode_alphanumeric(x[0]) {
        lemma_leading_bounded(x.drop_first());
        assert forall|k: int| 0 <= k < leading_junk(x) implies !unicode_alphanumeric(#[trigger] x[k]) by {
            if k > 0 {
                assert(x[k] == x.drop_first()[k - 1]);
            }
        }
    }
}

/// The trimmed part of a word, found by scanning its characters from
/// `start` (inclusive) to `end` (exclusive).
fn trim_range(chars: &Vec<char>, start: usize, end: usize) -> (r: (usize, usize))
    requires
        start <= end <= chars@.len(),
    ensures
        start <= r.0 <= r.1 <= end,
        chars@.subrange(r.0 as int, r.1 as int) == trim_word(chars@.subrange(start as int, end as int)),
{
    let ghost w = chars@.subrange(start as int, end as int);
    let mut a: usize = start;
    while a < end && !char_is_alphanumeric(chars[a])
        invariant
            start <= a <= end <= chars@.len(),
            w == chars@.subrange(start as int, end as int),
            leading_junk(w) == (a - start) + leading_junk(chars@.subrange(a as int, end as int)),
        decreases end - a,
    {
        proof {
            let y = chars@.subrange(0, end as int);
            lemma_leading_step(y, a as int);
            assert(y.subrange(a as int, end as int) =~= chars@.subrange(a as int, end as int));
            assert(y.subrange(a + 1, end as int) =~= chars@.subrange(a + 1, end as int));
        }
        a = a + 1;
    }
    proof {
        let rest = chars@.subrange(a as int, end as int);
        if a < end {
            assert(rest.len() > 0 && unicode_alphanumeric(rest[0]));
        }
        assert(leading_junk(rest) == 0);
    }
    if a == end {
        assert(leading_junk(w) == w.len());
        return (end, end);
    }
    let mut b: usize = end;
    while b > a && !char_is_alphanumeric(chars[b - 1])
        invariant
            start <= a < end,
            a < b <= end <= chars@.len(),
            w == chars@.subrange(start as int, end as int),
            unicode_alphanumeric(chars@[a as int]),
            trailing_junk(w) == (end - b) + trailing_junk(chars@.subrange(start as int, b as int)),
        decreases b - a,
    {
        proof {
            lemma_trailing_step(w, (b - start) as int);
            assert(w.subrange(0, (b - start) as int) =~= chars@.subrange(start as int, b as int));
            assert(w.subrange(0, (b - 1 - start) as int) =~= chars@.subrange(start as int, b - 1));
        }
        b = b - 1;
    }
    proof {
        let p = chars@.subrange(start as int, b as int);
        assert(p.last() == chars@[b - 1]);
        assert(trailing_junk(p) == 0);
        assert(w.subrange(leading_junk(w) as int, w.len() - trailing_junk(w)) =~= chars@.subrange(a as int, b as int));
    }
    (a, b)
}

/// The search engine and its indices from terms to plugin identifiers.
#[derive(Debug, Clone)]
pub struct SearchIndex {
    pub name_index: KeyedList<Vec<String>>,
    pub description_index: KeyedList<Vec<String>>,
    pub keyword_index: KeyedList<Vec<String>>,
    pub category_index: KeyedList<Vec<String>>,
    pub author_index: KeyedList<Vec<String>>,
}

/// An index read as a map from terms to the identifiers filed under them.
pub open spec fn postings(index: KeyedList<Vec<String>>) -> Map<Seq<char>, Seq<Seq<char>>> {
    index.map().map_values(|ids: Vec<String>| string_views(ids@))
}

/// `m` with `id` filed under each of `terms`, in order.
pub open spec fn file_under(m: Map<Seq<char>, Seq<Seq<char>>>, terms: Seq<Seq<char>>, id: Seq<char>) -> Map<Seq<char>, Seq<Seq<char>>>
    decreases terms.len(),
{
    if terms.len() == 0 {
        m
    } else {
        let before = file_under(m, terms.drop_last(), id);
        let t = terms.last();
        before.insert(t, if before.contains_key(t) { before[t].push(id) } else { seq![id] })
    }
}

/// `m` with `id` taken out of every list, and the lists left empty dropped.
pub open spec fn unfiled(m: Map<Seq<char>, Seq<Seq<char>>>, id: Seq<char>) -> Map<Seq<char>, Seq<Seq<char>>> {
    Map::new(
        |t: Seq<char>| m.contains_key(t) && seq_without(m[t], id).len() > 0,
        |t: Seq<char>| seq_without(m[t], id),
    )
}

/// The search terms of each text of `texts`, in order.
pub open spec fn tokens_of_all(texts: Seq<Seq<char>>) -> Seq<Seq<char>>
    decreases texts.len(),
{
    if texts.len() == 0 {
        Seq::empty()
    } else {
        tokens_of_all(texts.drop_last()) + spec_tokens(lowercase(texts.last()))
    }
}

impl SearchIndex {
    /// Indices with no term.
    pub fn new() -> (s: Self)
        ensures
            s.wf(),
            postings(s.name_index) == Map::<Seq<char>, Seq<Seq<char>>>::empty(),
            postings(s.description_index) == Map::<Seq<char>, Seq<Seq<char>>>::empty(),
            postings(s.keyword_index) == Map::<Seq<char>, Seq<Seq<char>>>::empty(),
            postings(s.category_index) == Map::<Seq<char>, Seq<Seq<char>>>::empty(),
            postings(s.author_index) == Map::<Seq<char>, Seq<Seq<char>>>::empty(),
    {
        let s = SearchIndex {
            name_index: KeyedList::new(),
            description_index: KeyedList::new(),
            keyword_index: KeyedList::new(),
            category_index: KeyedList::new(),
            author_index: KeyedList::new(),
        };
        assert(postings(s.name_index) =~= Map::<Seq<char>, Seq<Seq<char>>>::empty());
        assert(postings(s.description_index) =~= Map::<Seq<char>, Seq<Seq<char>>>::empty());
        assert(postings(s.keyword_index) =~= Map::<Seq<char>, Seq<Seq<char>>>::empty());
        assert(postings(s.category_index) =~= Map::<Seq<char>, Seq<Seq<char>>>::empty());
        assert(postings(s.author_index) =~= Map::<Seq<char>, Seq<Seq<char>>>::empty());
        s
    }

    /// Each index keeps its terms distinct.
    pub open spec fn wf(self) -> bool {
        &&& self.name_index.wf()
        &&& self.description_index.wf()
        &&& self.keyword_index.wf()
        &&& self.category_index.wf()
        &&& self.author_index.wf()
    }
}

/// Files `id` under each of `terms` in `index`.
fn file_terms(index: &mut KeyedList<Vec<String>>, terms: &Vec<String>, id: &str)
    requires
        old(index).wf(),
    ensures
        final(index).wf(),
        postings(*final(index)) == file_under(postings(*old(index)), string_views(terms@), id@),
{
    let mut i: usize = 0;
    while i < terms.len()
        invariant
            index.wf(),
            i <= terms@.len(),
            postings(*index) == file_under(postings(*old(index)), string_views(terms@).subrange(0, i as int), id@),
        decreases terms.len() - i,
    {
        let ghost before = postings(*index);
        let term = &terms[i];
        let removed = index.remove(term.as_str());
        let ghost mid = postings(*index);
        assert(mid =~= before.remove(term@));
        let mut ids: Vec<String> = match removed {
            Some(v) => {
                assert(before.contains_key(term@) && before[term@] == string_views(v@));
                v
            },
            None => {
                assert(!before.contains_key(term@));
                Vec::new()
            },
        };
        let ghost old_ids = string_views(ids@);
        assert(old_ids =~= if before.contains_key(term@) { before[term@] } else { Seq::<Seq<char>>::empty() });
        ids.push(owned(id));
        assert(string_views(ids@) =~= old_ids.push(id@));
        index.insert(term.clone(), ids);
        proof {
            let ts = string_views(terms@).subrange(0, i + 1);
            assert(ts.drop_last() =~= string_views(terms@).subrange(0, i as int));
            assert(ts.last() == term@);
            assert(Seq::<Seq<char>>::empty().push(id@) =~= seq![id@]);
            assert(postings(*index) =~= before.insert(
                term@,
                if before.contains_key(term@) { before[term@].push(id@) } else { seq![id@] },
            ));
        }
        i = i + 1;
    }
    assert(string_views(terms@).subrange(0, i as int) =~= string_views(terms@));
}

/// Takes `id` out of every list of `index`, dropping the lists it empties.
fn unfile_id(index: &KeyedList<Vec<String>>, id: &str) -> (r: KeyedList<Vec<String>>)
    requires
        index.wf(),
    ensures
        r.wf(),
        postings(r) == unfiled(postings(*index), id@),
{
    let mut r: KeyedList<Vec<String>> = KeyedList::new();
    let n = index.entry_count();
    let mut i: usize = 0;
    proof {
        index.lemma_model();
    }
    while i < n
        invariant
            index.wf(),
            r.wf(),
            n == index.entries().len(),
            i <= n,
            postings(r) == unfiled(postings(*index), id@).restrict(
                index.key_order().subrange(0, i as int).to_set(),
            ),
        decreases n - i,
    {
        proof {
            index.lemma_model();
            r.lemma_model();
        }
        let (term, ids) = index.entry_at(i);
        let kept = without_str(ids, id);
        assert((|x: Seq<char>| x != id@) =~= crate::text::differs_from(id@));
        assert(string_views(kept@) == seq_without(string_views(ids@), id@));
        let ghost before = postings(r);
        proof {
            assert(index.map()[index.entries()[i as int].0@] == index.entries()[i as int].1);
            assert(index.key_order()[i as int] == term@);
            assert(!index.key_order().subrange(0, i as int).contains(term@));
            if r.map().contains_key(term@) {
                assert(postings(r).contains_key(term@));
                assert(index.key_order().subrange(0, i as int).to_set().contains(term@));
            }
        }
        if kept.len() > 0 {
            r.insert(term.clone(), kept);
        }
        proof {
            let ks = index.key_order().subrange(0, i + 1);
            assert(ks =~= index.key_order().subrange(0, i as int).push(term@));
            crate::seqs::lemma_push_to_set(index.key_order().subrange(0, i as int), term@);
            let pm = postings(*index);
            let u = unfiled(pm, id@);
            let sset = index.key_order().subrange(0, i as int).to_set();
            assert(pm.contains_key(term@));
            assert(pm[term@] == string_views(ids@));
            if kept@.len() > 0 {
                assert(u.contains_key(term@));
                assert(u[term@] == string_views(kept@));
                assert(postings(r) =~= before.insert(term@, string_views(kept@)));
                assert(u.restrict(sset.insert(term@)) =~= u.restrict(sset).insert(term@, u[term@]));
            } else {
                assert(!u.contains_key(term@));
                assert(u.restrict(sset.insert(term@)) =~= u.restrict(sset));
            }
            assert(postings(r) =~= unfiled(postings(*index), id@).restrict(ks.to_set()));
        }
        i = i + 1;
    }
    proof {
        index.lemma_model();
        assert(index.key_order().subrange(0, i as int) =~= index.key_order());
        assert(postings(r) =~= unfiled(postings(*index), id@));
    }
    r
}

/// The edit distance between two character sequences: the fewest
/// insertions, deletions and substitutions that turn one into the other.
pub open spec fn edit_distance(a: Seq<char>, b: Seq<char>) -> nat
    decreases a.len() + b.len(),
{
    if a.len() == 0 {
        b.len()
    } else if b.len() == 0 {
        a.len()
    } else {
        let del = edit_distance(a.drop_last(), b) + 1;
        let ins = edit_distance(a, b.drop_last()) + 1;
        let sub = edit_distance(a.drop_last(), b.drop_last()) + if a.last() == b.last() { 0nat } else { 1nat };
        let m = if del < ins { del } else { ins };
        if sub < m { sub } else { m }
    }
}

/// The edit distance is at most the longer length.
pub proof fn lemma_edit_distance_bounded(a: Seq<char>, b: Seq<char>)
    ensures
        edit_distance(a, b) <= if a.len() > b.len() { a.len() } else { b.len() },
    decreases a.len() + b.len(),
{
    if a.len() > 0 && b.len() > 0 {
        lemma_edit_distance_bounded(a.drop_last(), b.drop_last());
    }
}

/// The number of terms a query has in common with an index entry, and the
/// edit distances below this bound count as a fuzzy match.
pub open spec fn fuzzy_match(a: Seq<char>, b: Seq<char>) -> bool {
    seq_contains(a, b) || seq_contains(b, a) || edit_distance(a, b) <= 2
}

/// The last of `plugins` whose identifier is `id`, if any: the one a table
/// keyed by identifier, filled from the list in order, ends up holding.
pub open spec fn entry_for(plugins: Seq<RegistryEntry>, id: Seq<char>) -> Option<RegistryEntry>
    decreases plugins.len(),
{
    if plugins.len() == 0 {
        None
    } else if plugins.last().metadata.id@ == id {
        Some(plugins.last())
    } else {
        entry_for(plugins.drop_last(), id)
    }
}

/// Whether `e` passes the filters an engine search applies: one of the
/// categories asked for, one of the tags asked for among its keywords, the
/// author, the lowest rating and the licence asked for.
pub open spec fn engine_passes(e: RegistryEntry, q: SearchQuery) -> bool {
    &&& (q.categories@.len() > 0 ==> holds_one_of(e.metadata.categories@, q.categories@))
    &&& (q.tags@.len() > 0 ==> holds_one_of(e.metadata.keywords@, q.tags@))
    &&& (q.author matches Some(a) ==> e.metadata.author@ == a@)
    &&& (q.min_rating matches Some(m) ==> e.rating >= m)
    &&& (q.license matches Some(l) ==> e.license.license_type@ == l@)
}

/// Whether the result for plugin `id` stays after the filters of `q`: the
/// plugin is among `plugins` and passes them.
pub open spec fn engine_keeps(plugins: Seq<RegistryEntry>, id: Seq<char>, q: SearchQuery) -> bool {
    match entry_for(plugins, id) {
        Some(e) => engine_passes(e, q),
        None => false,
    }
}

/// What the orders of an engine search look at of a plugin.
pub struct OrderKey {
    pub downloads: u64,
    pub rating: u32,
    pub updated_at: i64,
    pub created_at: i64,
    pub name: Seq<char>,
}

/// The order key of plugin `id` of `plugins`: its downloads, rating,
/// update and creation instants and name; for an unknown plugin, zeros and
/// its identifier as the name.
pub open spec fn order_key(plugins: Seq<RegistryEntry>, id: Seq<char>) -> OrderKey {
    match entry_for(plugins, id) {
        Some(e) => OrderKey {
            downloads: e.download_count,
            rating: e.rating,
            updated_at: e.metadata.updated_at,
            created_at: e.metadata.created_at,
            name: e.metadata.name@,
        },
        None => OrderKey { downloads: 0, rating: 0, updated_at: 0, created_at: 0, name: id },
    }
}

/// Whether key `a` goes strictly ahead of key `b` in the order `by`; the
/// relevance order leaves results where they are.
pub open spec fn key_ahead(by: SortBy, a: OrderKey, b: OrderKey) -> bool {
    match by {
        SortBy::Relevance => false,
        SortBy::Downloads => a.downloads > b.downloads,
        SortBy::Rating => a.rating > b.rating,
        SortBy::Updated => a.updated_at > b.updated_at,
        SortBy::Created => a.created_at > b.created_at,
        SortBy::Name => seq_less(a.name, b.name),
    }
}

/// The order of the scored results of an engine search by `by`.
pub open spec fn result_order<S>(by: SortBy, plugins: Seq<RegistryEntry>) -> spec_fn((String, S), (String, S)) -> bool {
    |a: (String, S), b: (String, S)| key_ahead(by, order_key(plugins, a.0@), order_key(plugins, b.0@))
}

/// Each order of an engine search is an order: no two results go ahead of
/// each other, and not going ahead chains.
pub proof fn lemma_result_order_orders<S>(by: SortBy, plugins: Seq<RegistryEntry>)
    ensures
        crate::seqs::orders(result_order::<S>(by, plugins)),
{
    let f = result_order::<S>(by, plugins);
    assert forall|a: (String, S), b: (String, S)| #[trigger] f(a, b) implies !f(b, a) by {
        if by == SortBy::Name {
            crate::marketplace::package_manager::lemma_seq_less_asymmetric(
                order_key(plugins, a.0@).name,
                order_key(plugins, b.0@).name,
            );
        }
    }
    assert forall|a: (String, S), b: (String, S), c: (String, S)| !#[trigger] f(a, b) && !#[trigger] f(b, c) implies !f(a, c) by {
        if by == SortBy::Name {
            let (na, nb, nc) = (order_key(plugins, a.0@).name, order_key(plugins, b.0@).name, order_key(plugins, c.0@).name);
            if seq_less(na, nc) {
                crate::marketplace::package_manager::lemma_seq_less_total(na, nb);
                crate::marketplace::package_manager::lemma_seq_less_total(nb, nc);
                if na != nb {
                    if nb == nc {
                        crate::marketplace::package_manager::lemma_seq_less_asymmetric(na, nc);
                    } else {
                        crate::marketplace::package_manager::lemma_seq_less_transitive(nc, nb, na);
                        crate::marketplace::package_manager::lemma_seq_less_asymmetric(na, nc);
                    }
                }
            }
        }
    }
}

/// Ordering by a relation under which nothing goes ahead of anything
/// leaves a list as it is.
proof fn lemma_ordered_by_still<T>(s: Seq<T>, ahead: spec_fn(T, T) -> bool)
    requires
        forall|a: T, b: T| !#[trigger] ahead(a, b),
    ensures
        ordered_by(s, ahead) == s,
    decreases s.len(),
{
    if s.len() > 0 {
        lemma_ordered_by_still(s.drop_last(), ahead);
        let t = ordered_by(s.drop_last(), ahead);
        if t.len() > 0 {
            assert(!ahead(s.last(), t.last()));
        }
        assert(s.drop_last().push(s.last()) =~= s);
    }
}

/// How an engine search orders the results it is given, read on the
/// plugins the results name: by relevance they stay as they come; by
/// downloads, rating, update or creation, of two results for registered
/// plugins the earlier has at least as many downloads, as high a rating, as
/// late an update or as late a creation; by name, the earlier's name comes
/// no later in lexicographic order.
pub proof fn lemma_sorted_results_by_fields<S>(results: Seq<(String, S)>, by: SortBy, plugins: Seq<RegistryEntry>)
    ensures
        by == SortBy::Relevance ==> ordered_by(results, result_order::<S>(by, plugins)) == results,
        forall|i: int, j: int|
            0 <= i < j < ordered_by(results, result_order::<S>(by, plugins)).len()
            && #[trigger] entry_for(plugins, ordered_by(results, result_order::<S>(by, plugins))[i].0@) is Some
            && #[trigger] entry_for(plugins, ordered_by(results, result_order::<S>(by, plugins))[j].0@) is Some ==> {
                let a = entry_for(plugins, ordered_by(results, result_order::<S>(by, plugins))[i].0@)->0;
                let b = entry_for(plugins, ordered_by(results, result_order::<S>(by, plugins))[j].0@)->0;
                match by {
                    SortBy::Relevance => true,
                    SortBy::Downloads => a.download_count >= b.download_count,
                    SortBy::Rating => a.rating >= b.rating,
                    SortBy::Updated => a.metadata.updated_at >= b.metadata.updated_at,
                    SortBy::Created => a.metadata.created_at >= b.metadata.created_at,
                    SortBy::Name => !seq_less(b.metadata.name@, a.metadata.name@),
                }
            },
{
    let f = result_order::<S>(by, plugins);
    let r = ordered_by(results, f);
    lemma_result_order_orders::<S>(by, plugins);
    crate::seqs::lemma_ordered_by_in_order(results, f);
    if by == SortBy::Relevance {
        lemma_ordered_by_still(results, f);
    }
    assert forall|i: int, j: int|
        0 <= i < j < r.len() && #[trigger] entry_for(plugins, r[i].0@) is Some && #[trigger] entry_for(plugins, r[j].0@) is Some implies {
            let a = entry_for(plugins, r[i].0@)->0;
            let b = entry_for(plugins, r[j].0@)->0;
            match by {
                SortBy::Relevance => true,
                SortBy::Downloads => a.download_count >= b.download_count,
                SortBy::Rating => a.rating >= b.rating,
                SortBy::Updated => a.metadata.updated_at >= b.metadata.updated_at,
                SortBy::Created => a.metadata.created_at >= b.metadata.created_at,
                SortBy::Name => !seq_less(b.metadata.name@, a.metadata.name@),
            }
        } by {
        assert(!f(r[j], r[i]));
    }
}

/// Whether `s` is the listing of the plugin a result names.
pub open spec fn lists_result<S>(s: PluginSummary, plugins: Seq<RegistryEntry>, p: (String, S)) -> bool {
    entry_for(plugins, p.0@) matches Some(e) && summarizes(s, e)
}

/// Whether a result names one of `plugins`.
pub open spec fn known_result<S>(plugins: Seq<RegistryEntry>) -> spec_fn((String, S)) -> bool {
    |p: (String, S)| entry_for(plugins, p.0@) is Some
}

/// A page of search results: the listings shown, how many results there
/// are in all, the page shown, how many pages there are and how long the
/// search took.
#[derive(Debug, Clone)]
pub struct SearchResult {
    pub plugins: Vec<PluginSummary>,
    pub total_count: u64,
    pub current_page: u32,
    pub total_pages: u32,
    pub search_time_ms: u64,
}

/// The scored results of an engine search with `q` over `plugins`: those
/// that pass its filters, in its order.
pub open spec fn engine_results<S>(scored: Seq<(String, S)>, q: SearchQuery, plugins: Seq<RegistryEntry>) -> Seq<(String, S)> {
    ordered_by(scored.filter(|p: (String, S)| engine_keeps(plugins, p.0@, q)), result_order::<S>(q.sort_by, plugins))
}

/// The page of `results` that `q` asks for.
pub open spec fn results_page<S>(results: Seq<(String, S)>, q: SearchQuery) -> Seq<(String, S)> {
    let b = page_bounds(results.len() as int, q.pagination.page as int, q.pagination.page_size as int);
    results.subrange(b.0, b.1)
}

/// Where in `plugins` the entry for `id` is.
fn find_entry(plugins: &[RegistryEntry], id: &str) -> (r: Option<usize>)
    ensures
        match r {
            Some(i) => i < plugins@.len() && entry_for(plugins@, id@) == Some(plugins@[i as int]),
            None => entry_for(plugins@, id@) is None,
        },
{
    let mut j: usize = plugins.len();
    assert(plugins@.subrange(0, j as int) =~= plugins@);
    while j > 0
        invariant
            j <= plugins@.len(),
            entry_for(plugins@, id@) == entry_for(plugins@.subrange(0, j as int), id@),
        decreases j,
    {
        let ghost pre = plugins@.subrange(0, j as int);
        assert(pre.last() == plugins@[j - 1]);
        assert(pre.drop_last() =~= plugins@.subrange(0, j - 1));
        if str_eq(plugins[j - 1].metadata.id.as_str(), id) {
            return Some(j - 1);
        }
        j = j - 1;
    }
    None
}

/// Whether `e` passes the filters an engine search applies.
fn passes_engine_filters(e: &RegistryEntry, q: &SearchQuery) -> (b: bool)
    ensures
        b == engine_passes(*e, *q),
{
    if q.categories.len() > 0 && !has_one_of(&e.metadata.categories, &q.categories) {
        return false;
    }
    if q.tags.len() > 0 && !has_one_of(&e.metadata.keywords, &q.tags) {
        return false;
    }
    match &q.author {
        Some(a) => {
            if !str_eq(e.metadata.author.as_str(), a.as_str()) {
                return false;
            }
        },
        None => {},
    }
    match q.min_rating {
        Some(m) => {
            if e.rating < m {
                return false;
            }
        },
        None => {},
    }
    match &q.license {
        Some(l) => str_eq(e.license.license_type.as_str(), l.as_str()),
        None => true,
    }
}

/// The order key of plugin `id`, its name as text.
fn order_key_of(plugins: &[RegistryEntry], id: &str) -> (k: (u64, u32, i64, i64, String))
    ensures
        k.0 == order_key(plugins@, id@).downloads,
        k.1 == order_key(plugins@, id@).rating,
        k.2 == order_key(plugins@, id@).updated_at,
        k.3 == order_key(plugins@, id@).created_at,
        k.4@ == order_key(plugins@, id@).name,
{
    match find_entry(plugins, id) {
        Some(i) => {
            let e = &plugins[i];
            (e.download_count, e.rating, e.metadata.updated_at, e.metadata.created_at, e.metadata.name.clone())
        },
        None => (0, 0, 0, 0, owned(id)),
    }
}

/// Whether the result for plugin `a` goes strictly ahead of the one for `b`
/// in the order `by`.
fn result_goes_ahead(by: SortBy, plugins: &[RegistryEntry], a: &str, b: &str) -> (r: bool)
    ensures
        r == key_ahead(by, order_key(plugins@, a@), order_key(plugins@, b@)),
{
    if by == SortBy::Relevance {
        return false;
    }
    let ka = order_key_of(plugins, a);
    let kb = order_key_of(plugins, b);
    match by {
        SortBy::Relevance => false,
        SortBy::Downloads => ka.0 > kb.0,
        SortBy::Rating => ka.1 > kb.1,
        SortBy::Updated => ka.2 > kb.2,
        SortBy::Created => ka.3 > kb.3,
        SortBy::Name => str_less(ka.4.as_str(), kb.4.as_str()),
    }
}

/// Searches plugins by the terms of their names, descriptions, keywords,
/// categories and authors.
#[derive(Debug, Clone)]
pub struct PluginSearchEngine {
    config: SearchConfig,
    index: SearchIndex,
}

impl PluginSearchEngine {
    /// The configuration.
    pub closed spec fn config(self) -> SearchConfig {
        self.config
    }

    /// The indices.
    pub closed spec fn indices(self) -> SearchIndex {
        self.index
    }

    /// Each index keeps its terms distinct.
    pub open spec fn wf(self) -> bool {
        self.indices().wf()
    }

    /// An engine with `config` and empty indices.
    pub fn new(config: SearchConfig) -> (r: WasmResult<Self>)
        ensures
            r matches Ok(e) && e.wf() && e.config() == config
                && postings(e.indices().name_index) == Map::<Seq<char>, Seq<Seq<char>>>::empty()
                && postings(e.indices().description_index) == Map::<Seq<char>, Seq<Seq<char>>>::empty()
                && postings(e.indices().keyword_index) == Map::<Seq<char>, Seq<Seq<char>>>::empty()
                && postings(e.indices().category_index) == Map::<Seq<char>, Seq<Seq<char>>>::empty()
                && postings(e.indices().author_index) == Map::<Seq<char>, Seq<Seq<char>>>::empty(),
    {
        Ok(PluginSearchEngine { config, index: SearchIndex::new() })
    }

    /// The configuration.
    pub fn search_config(&self) -> (c: &SearchConfig)
        ensures
            *c == self.config(),
    {
        &self.config
    }

    /// The indices.
    pub fn index(&self) -> (i: &SearchIndex)
        ensures
            *i == self.indices(),
    {
        &self.index
    }

    /// The search terms of `text`: lowercased, split at white space, each
    /// word trimmed of characters that are not alphanumeric at its ends,
    /// empty words dropped.
    pub fn tokenize(&self, text: &str) -> (terms: Vec<String>)
        ensures
            string_views(terms@) == spec_tokens(lowercase(text@)),
    {
        let lower = to_lowercase(text);
        let ls = lower.as_str();
        let chars = str_chars(ls);
        let n = chars.len();
        let ghost x = chars@;
        let mut terms: Vec<String> = Vec::new();
        let mut i: usize = 0;
        assert(x.subrange(0, n as int) =~= x);
        assert(string_views(terms@) =~= Seq::<Seq<char>>::empty());
        assert(Seq::<Seq<char>>::empty() + spec_tokens(x) =~= spec_tokens(x));
        while i < n
            invariant
                chars@ == x,
                x == ls@,
                n == x.len(),
                i <= n,
                string_views(terms@) + spec_tokens(x.subrange(i as int, n as int)) == spec_tokens(x),
            decreases n - i,
        {
            let ghost rest = x.subrange(i as int, n as int);
            if char_is_whitespace(chars[i]) {
                assert(rest.drop_first() =~= x.subrange(i + 1, n as int));
                i = i + 1;
            } else {
                let mut j: usize = i;
                while j < n && !char_is_whitespace(chars[j])
                    invariant
                        chars@ == x,
                        n == x.len(),
                        i <= j <= n,
                        word_len(x.subrange(i as int, n as int)) == (j - i) + word_len(x.subrange(j as int, n as int)),
                    decreases n - j,
                {
                    proof {
                        lemma_word_len_step(x, j as int);
                    }
                    j = j + 1;
                }
                proof {
                    let after = x.subrange(j as int, n as int);
                    if j < n {
                        assert(unicode_whitespace(after[0]));
                    }
                    assert(word_len(after) == 0);
                    assert(rest.subrange(0, (j - i) as int) =~= x.subrange(i as int, j as int));
                    assert(rest.subrange((j - i) as int, rest.len() as int) =~= x.subrange(j as int, n as int));
                }
                let (a, b) = trim_range(&chars, i, j);
                if a < b {
                    let t = owned(ls.substring_char(a, b));
                    let ghost before = terms@;
                    terms.push(t);
                    assert(string_views(terms@) =~= string_views(before).push(t@));
                    assert(string_views(terms@) + spec_tokens(x.subrange(j as int, n as int)) =~= string_views(before)
                        + (seq![t@] + spec_tokens(x.subrange(j as int, n as int))));
                }
                i = j;
            }
        }
        assert(x.subrange(n as int, n as int) =~= Seq::<char>::empty());
        assert(string_views(terms@) + Seq::<Seq<char>>::empty() =~= string_views(terms@));
        terms
    }

    /// The edit distance between two texts, counted in characters: the
    /// fewest insertions, deletions and substitutions of single characters
    /// that turn one into the other.
    pub fn levenshtein_distance(&self, s1: &str, s2: &str) -> (d: usize)
        requires
            s1@.len() + s2@.len() < usize::MAX,
        ensures
            d == edit_distance(s1@, s2@),
    {
        if s1.unicode_len() == 0 {
            return s2.unicode_len();
        }
        if s2.unicode_len() == 0 {
            return s1.unicode_len();
        }
        let a = str_chars(s1);
        let b = str_chars(s2);
        let n = a.len();
        let m = b.len();
        let mut prev: Vec<usize> = Vec::new();
        let mut j: usize = 0;
        while j <= m
            invariant
                m == b@.len(),
                j <= m + 1,
                prev@.len() == j,
                forall|k: int| 0 <= k < j ==> #[trigger] prev@[k] == k,
                m < usize::MAX,
            decreases m + 1 - j,
        {
            prev.push(j);
            j = j + 1;
        }
        proof {
            assert forall|k: int| 0 <= k <= m implies #[trigger] prev@[k] == edit_distance(
                a@.subrange(0, 0),
                b@.subrange(0, k),
            ) by {}
        }
        let mut i: usize = 1;
        while i <= n
            invariant
                n == a@.len(),
                m == b@.len(),
                1 <= i <= n + 1,
                n + m < usize::MAX,
                prev@.len() == m + 1,
                forall|k: int| 0 <= k <= m ==> #[trigger] prev@[k] == edit_distance(
                    a@.subrange(0, i - 1),
                    b@.subrange(0, k),
                ),
            decreases n + 1 - i,
        {
            let mut cur: Vec<usize> = Vec::new();
            cur.push(i);
            proof {
                assert(edit_distance(a@.subrange(0, i as int), b@.subrange(0, 0)) == i);
            }
            let mut k: usize = 1;
            while k <= m
                invariant
                    n == a@.len(),
                    m == b@.len(),
                    1 <= i <= n,
                    1 <= k <= m + 1,
                    n + m < usize::MAX,
                    prev@.len() == m + 1,
                    cur@.len() == k,
                    forall|q: int| 0 <= q <= m ==> #[trigger] prev@[q] == edit_distance(
                        a@.subrange(0, i - 1),
                        b@.subrange(0, q),
                    ),
                    forall|q: int| 0 <= q < k ==> #[trigger] cur@[q] == edit_distance(
                        a@.subrange(0, i as int),
                        b@.subrange(0, q),
                    ),
                decreases m + 1 - k,
            {
                let ghost ai = a@.subrange(0, i as int);
                let ghost bk = b@.subrange(0, k as int);
                proof {
                    assert(ai.drop_last() =~= a@.subrange(0, i - 1));
                    assert(bk.drop_last() =~= b@.subrange(0, k - 1));
                    lemma_edit_distance_bounded(a@.subrange(0, i - 1), b@.subrange(0, k as int));
                    lemma_edit_distance_bounded(ai, b@.subrange(0, k - 1));
                    lemma_edit_distance_bounded(a@.subrange(0, i - 1), b@.subrange(0, k - 1));
                }
                let cost: usize = if a[i - 1] == b[k - 1] { 0 } else { 1 };
                let del = prev[k] + 1;
                let ins = cur[k - 1] + 1;
                let sub = prev[k - 1] + cost;
                let best0 = if del < ins { del } else { ins };
                let best = if sub < best0 { sub } else { best0 };
                cur.push(best);
                k = k + 1;
            }
            prev = cur;
            i = i + 1;
        }
        proof {
            assert(a@.subrange(0, n as int) =~= a@);
            assert(b@.subrange(0, m as int) =~= b@);
        }
        prev[m]
    }

    /// Whether an indexed term matches a query term: the indexed term
    /// contains it, or, with fuzzy search on, either contains the other or
    /// they are at most two edits apart.
    pub fn term_matches(&self, indexed_term: &str, query_term: &str) -> (b: bool)
        requires
            self.config().enable_fuzzy_search ==> (seq_contains(indexed_term@, query_term@) || seq_contains(
                query_term@,
                indexed_term@,
            ) || indexed_term@.len() + query_term@.len() < usize::MAX),
        ensures
            !self.config().enable_fuzzy_search ==> b == seq_contains(indexed_term@, query_term@),
            self.config().enable_fuzzy_search ==> b
                == fuzzy_match(indexed_term@, query_term@),
    {
        if self.config.enable_fuzzy_search {
            str_contains(indexed_term, query_term) || str_contains(query_term, indexed_term)
                || self.levenshtein_distance(indexed_term, query_term) <= 2
        } else {
            str_contains(indexed_term, query_term)
        }
    }

    /// Files `plugin`'s identifier under the terms of its name, description,
    /// keywords, categories and author, each in its own index.
    pub fn index_plugin(&mut self, plugin: &PluginMetadata) -> (r: WasmResult<()>)
        requires
            old(self).wf(),
        ensures
            r is Ok,
            final(self).wf(),
            final(self).config() == old(self).config(),
            postings(final(self).indices().name_index) == file_under(
                postings(old(self).indices().name_index),
                spec_tokens(lowercase(plugin.name@)),
                plugin.id@,
            ),
            postings(final(self).indices().description_index) == file_under(
                postings(old(self).indices().description_index),
                spec_tokens(lowercase(plugin.description@)),
                plugin.id@,
            ),
            postings(final(self).indices().keyword_index) == file_under(
                postings(old(self).indices().keyword_index),
                tokens_of_all(string_views(plugin.keywords@)),
                plugin.id@,
            ),
            postings(final(self).indices().category_index) == file_under(
                postings(old(self).indices().category_index),
                tokens_of_all(string_views(plugin.categories@)),
                plugin.id@,
            ),
            postings(final(self).indices().author_index) == file_under(
                postings(old(self).indices().author_index),
                spec_tokens(lowercase(plugin.author@)),
                plugin.id@,
            ),
    {
        let id = plugin.id.as_str();
        let name_terms = self.tokenize(plugin.name.as_str());
        file_terms(&mut self.index.name_index, &name_terms, id);
        let desc_terms = self.tokenize(plugin.description.as_str());
        file_terms(&mut self.index.description_index, &desc_terms, id);
        let keyword_terms = self.tokens_of_list(&plugin.keywords);
        file_terms(&mut self.index.keyword_index, &keyword_terms, id);
        let category_terms = self.tokens_of_list(&plugin.categories);
        file_terms(&mut self.index.category_index, &category_terms, id);
        let author_terms = self.tokenize(plugin.author.as_str());
        file_terms(&mut self.index.author_index, &author_terms, id);
        Ok(())
    }

    /// The search terms of each text of `texts`, one after the other.
    fn tokens_of_list(&self, texts: &Vec<String>) -> (terms: Vec<String>)
        ensures
            string_views(terms@) == tokens_of_all(string_views(texts@)),
    {
        let mut terms: Vec<String> = Vec::new();
        let mut i: usize = 0;
        while i < texts.len()
            invariant
                i <= texts@.len(),
                string_views(terms@) == tokens_of_all(string_views(texts@).subrange(0, i as int)),
            decreases texts.len() - i,
        {
            let more = self.tokenize(texts[i].as_str());
            let ghost before = terms@;
            let mut k: usize = 0;
            while k < more.len()
                invariant
                    k <= more@.len(),
                    string_views(terms@) == string_views(before) + string_views(more@).subrange(0, k as int),
                decreases more.len() - k,
            {
                let ghost t = terms@;
                terms.push(more[k].clone());
                assert(string_views(terms@) =~= string_views(t).push(more@[k as int]@));
                assert(string_views(more@).subrange(0, k + 1) =~= string_views(more@).subrange(0, k as int).push(
                    more@[k as int]@,
                ));
                k = k + 1;
            }
            proof {
                let ts = string_views(texts@).subrange(0, i + 1);
                assert(ts.drop_last() =~= string_views(texts@).subrange(0, i as int));
                assert(string_views(more@).subrange(0, k as int) =~= string_views(more@));
            }
            i = i + 1;
        }
        assert(string_views(texts@).subrange(0, i as int) =~= string_views(texts@));
        terms
    }

    /// Rebuilds the indices from `plugins`, in order.
    pub fn build_index(&mut self, plugins: &[PluginMetadata]) -> (r: WasmResult<()>)
        ensures
            r is Ok,
            final(self).wf(),
            final(self).config() == old(self).config(),
    {
        self.index = SearchIndex::new();
        let mut i: usize = 0;
        while i < plugins.len()
            invariant
                self.wf(),
                self.config() == old(self).config(),
                i <= plugins@.len(),
            decreases plugins.len() - i,
        {
            let _ = self.index_plugin(&plugins[i]);
            i = i + 1;
        }
        Ok(())
    }

    /// Takes `plugin_id` out of every index.
    pub fn remove_plugin_from_index(&mut self, plugin_id: &str) -> (r: WasmResult<()>)
        requires
            old(self).wf(),
        ensures
            r is Ok,
            final(self).wf(),
            final(self).config() == old(self).config(),
            postings(final(self).indices().name_index) == unfiled(postings(old(self).indices().name_index), plugin_id@),
            postings(final(self).indices().description_index) == unfiled(
                postings(old(self).indices().description_index),
                plugin_id@,
            ),
            postings(final(self).indices().keyword_index) == unfiled(
                postings(old(self).indices().keyword_index),
                plugin_id@,
            ),
            postings(final(self).indices().category_index) == unfiled(
                postings(old(self).indices().category_index),
                plugin_id@,
            ),
            postings(final(self).indices().author_index) == unfiled(postings(old(self).indices().author_index), plugin_id@),
    {
        self.remove_from_all_indices(plugin_id);
        Ok(())
    }

    /// The scored results of `results` whose plugins are among `plugins`
    /// and pass the filters of `query`, in their order.
    pub fn apply_filters<S: Copy>(&self, results: &[(String, S)], query: &SearchQuery, plugins: &[RegistryEntry]) -> (r: WasmResult<Vec<(String, S)>>)
        ensures
            r matches Ok(v) && v@ == results@.filter(|p: (String, S)| engine_keeps(plugins@, p.0@, *query)),
    {
        let ghost pred = |p: (String, S)| engine_keeps(plugins@, p.0@, *query);
        let mut kept: Vec<(String, S)> = Vec::new();
        let mut i: usize = 0;
        while i < results.len()
            invariant
                i <= results@.len(),
                pred == (|p: (String, S)| engine_keeps(plugins@, p.0@, *query)),
                kept@ == results@.subrange(0, i as int).filter(pred),
            decreases results.len() - i,
        {
            let ghost before = results@.subrange(0, i as int);
            assert(results@.subrange(0, i + 1) =~= before.push(results@[i as int]));
            proof {
                crate::seqs::lemma_filter_push(before, pred, results@[i as int]);
            }
            let keep = match find_entry(plugins, results[i].0.as_str()) {
                Some(k) => passes_engine_filters(&plugins[k], query),
                None => false,
            };
            if keep {
                kept.push((results[i].0.clone(), results[i].1));
            }
            i = i + 1;
        }
        assert(results@.subrange(0, results@.len() as int) =~= results@);
        Ok(kept)
    }

    /// The scored results in the order of `query`, those that tie keeping
    /// their order; by relevance, as they come.
    pub fn sort_results<S: Copy>(&self, results: Vec<(String, S)>, query: &SearchQuery, plugins: &[RegistryEntry]) -> (r: WasmResult<Vec<(String, S)>>)
        ensures
            r matches Ok(v) && v@ == ordered_by(results@, result_order::<S>(query.sort_by, plugins@)),
    {
        let ghost order = result_order::<S>(query.sort_by, plugins@);
        let mut out: Vec<(String, S)> = Vec::new();
        let mut k: usize = 0;
        while k < results.len()
            invariant
                k <= results@.len(),
                order == result_order::<S>(query.sort_by, plugins@),
                out@ == ordered_by(results@.subrange(0, k as int), order),
            decreases results.len() - k,
        {
            let x = (results[k].0.clone(), results[k].1);
            let mut pos: usize = out.len();
            while pos > 0 && result_goes_ahead(query.sort_by, plugins, x.0.as_str(), out[pos - 1].0.as_str())
                invariant
                    pos <= out@.len(),
                    order == result_order::<S>(query.sort_by, plugins@),
                    x == results@[k as int],
                    forall|j: int| pos <= j < out@.len() ==> order(x, #[trigger] out@[j]),
                decreases pos,
            {
                pos = pos - 1;
            }
            proof {
                crate::seqs::lemma_place_by_at(out@, x, order, pos as int);
                assert(results@.subrange(0, k + 1).drop_last() =~= results@.subrange(0, k as int));
            }
            out.insert(pos, x);
            k = k + 1;
        }
        assert(results@.subrange(0, results@.len() as int) =~= results@);
        Ok(out)
    }

    /// The listings of the plugins the results name, in their order; a
    /// result naming no plugin of `plugins` is left out.
    pub fn convert_to_summaries<S: Copy>(&self, results: &[(String, S)], plugins: &[RegistryEntry]) -> (r: WasmResult<Vec<PluginSummary>>)
        ensures
            r matches Ok(v) && v@.len() == results@.filter(known_result::<S>(plugins@)).len() && forall|k: int|
                0 <= k < v@.len() ==> lists_result(#[trigger] v@[k], plugins@, results@.filter(known_result::<S>(plugins@))[k]),
    {
        let ghost pred = known_result::<S>(plugins@);
        let mut out: Vec<PluginSummary> = Vec::new();
        let mut i: usize = 0;
        while i < results.len()
            invariant
                i <= results@.len(),
                pred == known_result::<S>(plugins@),
                out@.len() == results@.subrange(0, i as int).filter(pred).len(),
                forall|k: int| 0 <= k < out@.len() ==> lists_result(#[trigger] out@[k], plugins@, results@.subrange(0, i as int).filter(pred)[k]),
            decreases results.len() - i,
        {
            let ghost before = results@.subrange(0, i as int);
            assert(results@.subrange(0, i + 1) =~= before.push(results@[i as int]));
            proof {
                crate::seqs::lemma_filter_push(before, pred, results@[i as int]);
            }
            match find_entry(plugins, results[i].0.as_str()) {
                Some(k) => {
                    out.push(summarize(&plugins[k]));
                },
                None => {},
            }
            i = i + 1;
        }
        assert(results@.subrange(0, results@.len() as int) =~= results@);
        Ok(out)
    }

    /// The rest of a search once its results are scored: the filters of
    /// `query`, its order and its page, with the listings of the plugins on
    /// the page, how many results and pages there are, and `search_time_ms`,
    /// the time the search took.
    pub fn search_scored<S: Copy>(&self, scored: Vec<(String, S)>, query: &SearchQuery, plugins: &[RegistryEntry], search_time_ms: u64) -> (r: WasmResult<SearchResult>)
        requires
            query.pagination.page_size > 0,
            query.pagination.page * query.pagination.page_size <= u32::MAX,
            scored@.len() + query.pagination.page_size <= u64::MAX,
        ensures
            r matches Ok(res) && {
                let all = engine_results(scored@, *query, plugins@);
                let page = results_page(all, *query);
                &&& res.total_count == all.len()
                &&& res.current_page == query.pagination.page
                &&& res.total_pages == ((all.len() + query.pagination.page_size - 1) / (query.pagination.page_size as int)) as u32
                &&& res.search_time_ms == search_time_ms
                &&& res.plugins@.len() == page.filter(known_result::<S>(plugins@)).len()
                &&& forall|k: int| 0 <= k < res.plugins@.len() ==> lists_result(
                    #[trigger] res.plugins@[k],
                    plugins@,
                    page.filter(known_result::<S>(plugins@))[k],
                )
            },
    {
        let kept = match self.apply_filters(scored.as_slice(), query, plugins) {
            Ok(v) => v,
            Err(e) => return Err(e),
        };
        let ghost pred = |p: (String, S)| engine_keeps(plugins@, p.0@, *query);
        proof {
            scored@.lemma_filter_len(pred);
            crate::seqs::lemma_ordered_by_len(kept@, result_order::<S>(query.sort_by, plugins@));
        }
        let sorted = match self.sort_results(kept, query, plugins) {
            Ok(v) => v,
            Err(e) => return Err(e),
        };
        let page_size = query.pagination.page_size;
        let total = sorted.len() as u64;
        let ps = page_size as u64;
        let total_pages = ((total + ps - 1) / ps) as u32;
        let start: usize = (query.pagination.page * page_size) as usize;
        let mut page: Vec<(String, S)> = Vec::new();
        if start < sorted.len() {
            let end: usize = if (start as u64) + ps < (sorted.len() as u64) {
                start + page_size as usize
            } else {
                sorted.len()
            };
            let mut j: usize = start;
            while j < end
                invariant
                    start <= j <= end <= sorted@.len(),
                    page@ == sorted@.subrange(start as int, j as int),
                decreases end - j,
            {
                page.push((sorted[j].0.clone(), sorted[j].1));
                assert(page@ =~= sorted@.subrange(start as int, j + 1));
                j = j + 1;
            }
        } else {
            assert(page@ =~= sorted@.subrange(0, 0));
        }
        let listings = match self.convert_to_summaries(page.as_slice(), plugins) {
            Ok(v) => v,
            Err(e) => return Err(e),
        };
        Ok(SearchResult {
            plugins: listings,
            total_count: total,
            current_page: query.pagination.page,
            total_pages,
            search_time_ms,
        })
    }

    /// Takes `plugin_id` out of every list of every index, dropping the
    /// terms left with no plugin.
    pub fn remove_from_all_indices(&mut self, plugin_id: &str)
        requires
            old(self).wf(),
        ensures
            final(self).wf(),
            final(self).config() == old(self).config(),
            postings(final(self).indices().name_index) == unfiled(postings(old(self).indices().name_index), plugin_id@),
            postings(final(self).indices().description_index) == unfiled(
                postings(old(self).indices().description_index),
                plugin_id@,
            ),
            postings(final(self).indices().keyword_index) == unfiled(
                postings(old(self).indices().keyword_index),
                plugin_id@,
            ),
            postings(final(self).indices().category_index) == unfiled(
                postings(old(self).indices().category_index),
                plugin_id@,
            ),
            postings(final(self).indices().author_index) == unfiled(postings(old(self).indices().author_index), plugin_id@),
    {
        self.index.name_index = unfile_id(&self.index.name_index, plugin_id);
        self.index.description_index = unfile_id(&self.index.description_index, plugin_id);
        self.index.keyword_index = unfile_id(&self.index.keyword_index, plugin_id);
        self.index.category_index = unfile_id(&self.index.category_index, plugin_id);
        self.index.author_index = unfile_id(&self.index.author_index, plugin_id);
    }
}

/// After a plugin is taken out of the indices, no list holds it and no term
/// is left without a plugin.
pub proof fn lemma_unfiled_forgets(m: Map<Seq<char>, Seq<Seq<char>>>, id: Seq<char>, t: Seq<char>)
    requires
        unfiled(m, id).contains_key(t),
    ensures
        !unfiled(m, id)[t].contains(id),
        unfiled(m, id)[t].len() > 0,
{
    let pred = crate::text::differs_from(id);
    crate::seqs::lemma_filter_subset(m[t], pred);
    if unfiled(m, id)[t].contains(id) {
        assert(pred(id));
    }
}

} // verus!
