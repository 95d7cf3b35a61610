//! Installed plugins and their dependency trees: the set of everything a
//! plugin depends on, in order; version checks; and the decisions of
//! installing, updating, removing, rolling back and repairing plugins. The
//! download of a package is done by the caller, which hands its outcome in.

use vstd::prelude::*;
use crate::keyed::{entry_keys, KeyedList};
use crate::marketplace::types::{PluginPackage, StorageConfig};
use crate::text::{clone_strings, concat, contains_str, owned, str_chars, str_eq, string_views};
use crate::wasm_error::WasmError;

verus! {

// ---------------------------------------------------------------------
// Lexicographic order of strings
// ---------------------------------------------------------------------

/// `a` comes strictly before `b` in lexicographic order of characters
/// (the order of `str`'s comparison operators).
pub open spec fn seq_less(a: Seq<char>, b: Seq<char>) -> bool
    decreases a.len(),
{
    if a.len() == 0 {
        b.len() > 0
    } else if b.len() == 0 {
        false
    } else if a[0] != b[0] {
        a[0] < b[0]
    } else {
        seq_less(a.drop_first(), b.drop_first())
    }
}

/// No string comes before itself.
pub proof fn lemma_seq_less_irreflexive(a: Seq<char>)
    ensures
        !seq_less(a, a),
    decreases a.len(),
{
    if a.len() > 0 {
        lemma_seq_less_irreflexive(a.drop_first());
    }
}

/// Of two different strings, one comes before the other.
pub proof fn lemma_seq_less_total(a: Seq<char>, b: Seq<char>)
    ensures
        a != b ==> seq_less(a, b) || seq_less(b, a),
    decreases a.len(),
{
    if a.len() > 0 && b.len() > 0 && a[0] == b[0] {
        lemma_seq_less_total(a.drop_first(), b.drop_first());
        if a.drop_first() == b.drop_first() {
            assert(a =~= b) by {
                assert forall|i: int| 0 <= i < a.len() implies a[i] == b[i] by {
                    if i > 0 {
                        assert(a[i] == a.drop_first()[i - 1]);
                        assert(b[i] == b.drop_first()[i - 1]);
                    }
                }
            }
        }
    } else if a.len() == 0 && b.len() == 0 {
        assert(a =~= b);
    }
}

/// The order is transitive.
pub proof fn lemma_seq_less_transitive(a: Seq<char>, b: Seq<char>, c: Seq<char>)
    requires
        seq_less(a, b),
        seq_less(b, c),
    ensures
        seq_less(a, c),
    decreases a.len(),
{
    if a.len() > 0 && b.len() > 0 && c.len() > 0 && a[0] == b[0] && b[0] == c[0] {
        lemma_seq_less_transitive(a.drop_first(), b.drop_first(), c.drop_first());
    }
}

/// The order is asymmetric.
pub proof fn lemma_seq_less_asymmetric(a: Seq<char>, b: Seq<char>)
    requires
        seq_less(a, b),
    ensures
        !seq_less(b, a),
{
    if seq_less(b, a) {
        lemma_seq_less_transitive(a, b, a);
        lemma_seq_less_irreflexive(a);
    }
}

/// Whether `a` comes strictly before `b`.
pub fn str_less(a: &str, b: &str) -> (r: bool)
    ensures
        r == seq_less(a@, b@),
{
    let ac = str_chars(a);
    let bc = str_chars(b);
    let mut i: usize = 0;
    assert(a@.subrange(0, a@.len() as int) =~= a@);
    assert(b@.subrange(0, b@.len() as int) =~= b@);
    while i < ac.len() && i < bc.len()
        invariant
            ac@ == a@,
            bc@ == b@,
            i <= ac@.len(),
            i <= bc@.len(),
            seq_less(a@, b@) == seq_less(a@.subrange(i as int, a@.len() as int), b@.subrange(i as int, b@.len() as int)),
        decreases ac.len() - i,
    {
        let ghost sa = a@.subrange(i as int, a@.len() as int);
        let ghost sb = b@.subrange(i as int, b@.len() as int);
        assert(sa[0] == ac@[i as int] && sb[0] == bc@[i as int]);
        if ac[i] != bc[i] {
            return ac[i] < bc[i];
        }
        assert(sa.drop_first() =~= a@.subrange(i + 1, a@.len() as int));
        assert(sb.drop_first() =~= b@.subrange(i + 1, b@.len() as int));
        i = i + 1;
    }
    i == ac.len() && i < bc.len()
}

/// Every pair of a sequence is in strict lexicographic order.
pub open spec fn strictly_sorted(s: Seq<Seq<char>>) -> bool {
    forall|a: int, b: int| 0 <= a < b < s.len() ==> seq_less(#[trigger] s[a], #[trigger] s[b])
}

proof fn lemma_insert_to_set<A>(s: Seq<A>, j: int, x: A)
    requires
        0 <= j <= s.len(),
    ensures
        s.insert(j, x).to_set() == s.to_set().insert(x),
{
    let t = s.insert(j, x);
    assert forall|e: A| t.to_set().contains(e) <==> s.to_set().insert(x).contains(e) by {
        if t.contains(e) {
            let k = choose|k: int| 0 <= k < t.len() && t[k] == e;
            if k < j {
                assert(s[k] == e);
            } else if k > j {
                assert(s[k - 1] == e);
            }
        }
        if s.contains(e) {
            let k = choose|k: int| 0 <= k < s.len() && s[k] == e;
            if k < j {
                assert(t[k] == e);
            } else {
                assert(t[k + 1] == e);
            }
        }
        if e == x {
            assert(t[j] == x);
        }
    }
    assert(t.to_set() =~= s.to_set().insert(x));
}

/// The strings of `v`, which are distinct, in strict lexicographic order.
pub fn sort_strings(v: Vec<String>) -> (r: Vec<String>)
    requires
        string_views(v@).no_duplicates(),
    ensures
        string_views(r@).to_set() == string_views(v@).to_set(),
        strictly_sorted(string_views(r@)),
        r@.len() == v@.len(),
{
    let ghost src = string_views(v@);
    let n = v.len();
    let mut rest = v;
    let mut out: Vec<String> = Vec::new();
    let mut i: usize = 0;
    while i < n
        invariant
            n == src.len(),
            i <= n,
            src.no_duplicates(),
            string_views(rest@) == src.subrange(i as int, n as int),
            rest@.len() == n - i,
            string_views(out@).to_set() == src.subrange(0, i as int).to_set(),
            out@.len() == i,
            strictly_sorted(string_views(out@)),
        decreases n - i,
    {
        let ghost rv = string_views(rest@);
        let x = rest.remove(0);
        assert(string_views(rest@) =~= rv.subrange(1, rv.len() as int));
        assert(string_views(rest@) =~= src.subrange(i + 1, n as int));
        assert(rv[0] == x@);
        assert(x@ == src[i as int]);
        let ghost so = string_views(out@);
        assert(!so.contains(x@)) by {
            if so.contains(x@) {
                assert(so.to_set().contains(x@));
                assert(src.subrange(0, i as int).to_set().contains(x@));
                let k = choose|k: int| 0 <= k < i && src.subrange(0, i as int)[k] == x@;
                assert(src[k] == src[i as int]);
            }
        }
        let mut j: usize = 0;
        while j < out.len() && !str_less(x.as_str(), out[j].as_str())
            invariant
                j <= out@.len(),
                so == string_views(out@),
                !so.contains(x@),
                forall|k: int| 0 <= k < j ==> seq_less(#[trigger] so[k], x@),
            decreases out.len() - j,
        {
            proof {
                assert(so[j as int] == out@[j as int]@);
                lemma_seq_less_total(x@, so[j as int]);
            }
            j = j + 1;
        }
        let ghost old_out = out@;
        out.insert(j, x);
        proof {
            let so2 = string_views(out@);
            assert(so2 =~= so.insert(j as int, x@));
            lemma_insert_to_set(so, j as int, x@);
            assert(src.subrange(0, i + 1) =~= src.subrange(0, i as int).push(x@));
            assert(src.subrange(0, i as int).push(x@) =~= src.subrange(0, i as int).insert(i as int, x@));
            lemma_insert_to_set(src.subrange(0, i as int), i as int, x@);
            assert forall|a: int, b: int| 0 <= a < b < so2.len() implies seq_less(#[trigger] so2[a], #[trigger] so2[b]) by {
                if b < j {
                } else if b == j {
                    assert(so2[a] == so[a]);
                } else if a == j {
                    assert(so2[b] == so[b - 1]);
                    assert(seq_less(x@, so[j as int]));
                    if b - 1 > j {
                        lemma_seq_less_transitive(x@, so[j as int], so[b - 1]);
                    }
                } else if a < j {
                    assert(so2[b] == so[b - 1]);
                    assert(so2[a] == so[a]);
                } else {
                    assert(so2[b] == so[b - 1]);
                    assert(so2[a] == so[a - 1]);
                }
            }
        }
        i = i + 1;
    }
    assert(src.subrange(0, n as int) =~= src);
    out
}

// ---------------------------------------------------------------------
// Dependency trees
// ---------------------------------------------------------------------

/// The direct dependencies of `x` in an adjacency map.
pub open spec fn children(adj: Map<Seq<char>, Seq<Seq<char>>>, x: Seq<char>) -> Seq<Seq<char>> {
    if adj.contains_key(x) {
        adj[x]
    } else {
        Seq::empty()
    }
}

/// A chain of at least two plugins, each a direct dependency of the one
/// before.
pub open spec fn is_dep_path(adj: Map<Seq<char>, Seq<Seq<char>>>, p: Seq<Seq<char>>) -> bool {
    &&& p.len() >= 2
    &&& forall|k: int| #![trigger children(adj, p[k])] 0 <= k < p.len() - 1 ==> children(adj, p[k]).contains(p[k + 1])
}

/// `x` is reached from `root` by following one or more dependencies.
pub open spec fn depends_on(adj: Map<Seq<char>, Seq<Seq<char>>>, root: Seq<char>, x: Seq<char>) -> bool {
    exists|p: Seq<Seq<char>>| #[trigger] is_dep_path(adj, p) && p[0] == root && p.last() == x
}

/// A direct dependency of the root is a dependency.
proof fn lemma_depends_direct(adj: Map<Seq<char>, Seq<Seq<char>>>, root: Seq<char>, c: Seq<char>)
    requires
        children(adj, root).contains(c),
    ensures
        depends_on(adj, root, c),
{
    let p = seq![root, c];
    assert(children(adj, p[0]).contains(p[1]));
    assert(is_dep_path(adj, p));
}

/// A direct dependency of a dependency is a dependency.
proof fn lemma_depends_extend(adj: Map<Seq<char>, Seq<Seq<char>>>, root: Seq<char>, y: Seq<char>, c: Seq<char>)
    requires
        depends_on(adj, root, y),
        children(adj, y).contains(c),
    ensures
        depends_on(adj, root, c),
{
    let p = choose|p: Seq<Seq<char>>| #[trigger] is_dep_path(adj, p) && p[0] == root && p.last() == y;
    let q = p.push(c);
    assert forall|k: int| #![trigger children(adj, q[k])] 0 <= k < q.len() - 1 implies children(adj, q[k]).contains(q[k + 1]) by {
        if k < p.len() - 1 {
            assert(q[k] == p[k] && q[k + 1] == p[k + 1]);
            assert(children(adj, p[k]).contains(p[k + 1]));
        } else {
            assert(q[k] == y);
        }
    }
    assert(is_dep_path(adj, q));
}

/// In a set that holds the root's direct dependencies and is closed under
/// taking direct dependencies, every plugin past the root on a chain from
/// the root is present.
proof fn lemma_path_in_closed(adj: Map<Seq<char>, Seq<Seq<char>>>, root: Seq<char>, s: Seq<Seq<char>>, p: Seq<Seq<char>>, k: int)
    requires
        is_dep_path(adj, p),
        p[0] == root,
        1 <= k < p.len(),
        forall|c: Seq<char>| #[trigger] children(adj, root).contains(c) ==> s.contains(c),
        forall|y: Seq<char>, c: Seq<char>| s.contains(y) && #[trigger] children(adj, y).contains(c) ==> s.contains(c),
    ensures
        s.contains(p[k]),
    decreases k,
{
    assert(children(adj, p[k - 1]).contains(p[k]));
    if k > 1 {
        lemma_path_in_closed(adj, root, s, p, k - 1);
    }
}

/// All the plugins named as dependencies in a list of entries, in order.
pub open spec fn flat_children(es: Seq<(String, Vec<String>)>) -> Seq<Seq<char>>
    decreases es.len(),
{
    if es.len() == 0 {
        Seq::empty()
    } else {
        flat_children(es.drop_last()) + string_views(es.last().1@)
    }
}

proof fn lemma_flat_contains(es: Seq<(String, Vec<String>)>, j: int, c: Seq<char>)
    requires
        0 <= j < es.len(),
        string_views(es[j].1@).contains(c),
    ensures
        flat_children(es).contains(c),
    decreases es.len(),
{
    let init = flat_children(es.drop_last());
    let tail = string_views(es.last().1@);
    assert(flat_children(es) == init + tail);
    if j == es.len() - 1 {
        let m = choose|m: int| 0 <= m < tail.len() && tail[m] == c;
        assert((init + tail)[init.len() + m] == c);
    } else {
        assert(es.drop_last()[j] == es[j]);
        lemma_flat_contains(es.drop_last(), j, c);
        let m = choose|m: int| 0 <= m < init.len() && init[m] == c;
        assert((init + tail)[m] == c);
    }
}

/// A list of distinct plugins drawn from `flat` is no longer than it.
proof fn lemma_distinct_bound(s: Seq<Seq<char>>, flat: Seq<Seq<char>>)
    requires
        s.no_duplicates(),
        forall|k: int| 0 <= k < s.len() ==> flat.contains(#[trigger] s[k]),
    ensures
        s.len() <= flat.len(),
{
    s.unique_seq_to_set();
    flat.lemma_cardinality_of_set();
    vstd::seq_lib::seq_to_set_is_finite(flat);
    assert(s.to_set().subset_of(flat.to_set())) by {
        assert forall|e: Seq<char>| s.to_set().contains(e) implies flat.to_set().contains(e) by {
            let k = choose|k: int| 0 <= k < s.len() && s[k] == e;
            assert(flat.contains(s[k]));
        }
    }
    vstd::set_lib::lemma_len_subset(s.to_set(), flat.to_set());
}

/// A plugin's dependency tree: for each plugin, the plugins it depends on
/// directly.
#[derive(Debug, Clone)]
pub struct DependencyTree {
    pub root: String,
    pub dependencies: KeyedList<Vec<String>>,
}

impl DependencyTree {
    /// The direct dependencies of each plugin, as character sequences.
    pub open spec fn adjacency(self) -> Map<Seq<char>, Seq<Seq<char>>> {
        self.dependencies.map().map_values(|v: Vec<String>| string_views(v@))
    }

    /// A tree of `root` with no dependency yet.
    pub fn new(root: String) -> (t: Self)
        ensures
            t.root == root,
            t.dependencies.wf(),
            t.adjacency() == Map::<Seq<char>, Seq<Seq<char>>>::empty(),
    {
        let t = DependencyTree { root, dependencies: KeyedList::new() };
        assert(t.adjacency() =~= Map::<Seq<char>, Seq<Seq<char>>>::empty());
        t
    }

    /// Records that `parent` depends directly on `child`, after the
    /// dependencies recorded for it before.
    pub fn add_dependency(&mut self, parent: &str, child: &str)
        requires
            old(self).dependencies.wf(),
        ensures
            final(self).dependencies.wf(),
            final(self).root == old(self).root,
            final(self).adjacency() == old(self).adjacency().insert(
                parent@,
                children(old(self).adjacency(), parent@).push(child@),
            ),
    {
        let mut list: Vec<String> = match self.dependencies.get(parent) {
            Some(v) => clone_strings(v),
            None => Vec::new(),
        };
        let ghost before = string_views(list@);
        assert(before =~= children(old(self).adjacency(), parent@));
        list.push(owned(child));
        assert(string_views(list@) =~= before.push(child@));
        self.dependencies.insert(owned(parent), list);
        assert(self.adjacency() =~= old(self).adjacency().insert(
            parent@,
            children(old(self).adjacency(), parent@).push(child@),
        ));
    }

    /// Every direct dependency named in the tree occurs in the flat list of
    /// its entries.
    proof fn lemma_children_in_flat(self, x: Seq<char>, c: Seq<char>)
        requires
            self.dependencies.wf(),
            children(self.adjacency(), x).contains(c),
        ensures
            flat_children(self.dependencies.entries()).contains(c),
    {
        let d = self.dependencies;
        d.lemma_model();
        assert(d.map().contains_key(x));
        assert(d.key_order().to_set().contains(x));
        let j = choose|j: int| 0 <= j < d.key_order().len() && d.key_order()[j] == x;
        assert(d.key_order() == entry_keys(d.entries()));
        assert(d.entries()[j].0@ == x);
        assert(d.map()[d.entries()[j].0@] == d.entries()[j].1);
        lemma_flat_contains(d.entries(), j, c);
    }

    /// Appends to `collected` each direct dependency of `node` not in it yet,
    /// in order.
    fn push_new_children(&self, node: &str, collected: &mut Vec<String>)
        requires
            self.dependencies.wf(),
            string_views(old(collected)@).no_duplicates(),
        ensures
            string_views(final(collected)@).no_duplicates(),
            old(collected)@.len() <= final(collected)@.len(),
            string_views(final(collected)@).subrange(0, old(collected)@.len() as int) == string_views(old(collected)@),
            forall|c: Seq<char>| #[trigger] children(self.adjacency(), node@).contains(c) ==> string_views(
                final(collected)@,
            ).contains(c),
            forall|k: int| old(collected)@.len() <= k < final(collected)@.len() ==> children(self.adjacency(), node@).contains(
                #[trigger] string_views(final(collected)@)[k],
            ),
    {
        let ghost adj = self.adjacency();
        let ghost start = string_views(collected@);
        let list = match self.dependencies.get(node) {
            Some(l) => l,
            None => {
                assert(children(adj, node@) =~= Seq::<Seq<char>>::empty());
                assert(string_views(collected@).subrange(0, collected@.len() as int) =~= start);
                return;
            },
        };
        let ghost ch = string_views(list@);
        assert(children(adj, node@) == ch);
        let mut m: usize = 0;
        while m < list.len()
            invariant
                ch == string_views(list@),
                children(adj, node@) == ch,
                m <= list@.len(),
                string_views(collected@).no_duplicates(),
                start.len() <= collected@.len(),
                string_views(collected@).subrange(0, start.len() as int) == start,
                forall|q: int| 0 <= q < m ==> string_views(collected@).contains(#[trigger] ch[q]),
                forall|k: int| start.len() <= k < collected@.len() ==> ch.contains(#[trigger] string_views(collected@)[k]),
            decreases list.len() - m,
        {
            let c = &list[m];
            let ghost before = string_views(collected@);
            if !contains_str(collected, c.as_str()) {
                collected.push(owned(c.as_str()));
                proof {
                    let after = string_views(collected@);
                    assert(after =~= before.push(c@));
                    assert(after.subrange(0, start.len() as int) =~= before.subrange(0, start.len() as int));
                    crate::seqs::lemma_push_no_duplicates(before, c@);
                    assert(ch[m as int] == c@);
                    assert forall|q: int| 0 <= q <= m implies after.contains(#[trigger] ch[q]) by {
                        if q < m {
                            let w = choose|w: int| 0 <= w < before.len() && before[w] == ch[q];
                            assert(after[w] == ch[q]);
                        } else {
                            assert(after[before.len() as int] == c@);
                        }
                    }
                    assert forall|k: int| start.len() <= k < after.len() implies ch.contains(#[trigger] after[k]) by {
                        if k < before.len() {
                            assert(after[k] == before[k]);
                        } else {
                            assert(after[k] == ch[m as int]);
                        }
                    }
                }
            } else {
                assert(ch[m as int] == c@);
            }
            m = m + 1;
        }
        proof {
            assert forall|c: Seq<char>| #[trigger] children(adj, node@).contains(c) implies string_views(collected@).contains(c) by {
                let q = choose|q: int| 0 <= q < ch.len() && ch[q] == c;
            }
        }
    }

    /// Every plugin the root depends on, directly or not, each once.
    fn collect_dependencies(&self) -> (r: Vec<String>)
        requires
            self.dependencies.wf(),
        ensures
            string_views(r@).no_duplicates(),
            forall|x: Seq<char>| string_views(r@).contains(x) <==> depends_on(self.adjacency(), self.root@, x),
    {
        let ghost adj = self.adjacency();
        let ghost root = self.root@;
        let ghost flat = flat_children(self.dependencies.entries());
        let mut collected: Vec<String> = Vec::new();
        assert(string_views(collected@) =~= Seq::<Seq<char>>::empty());
        self.push_new_children(self.root.as_str(), &mut collected);
        proof {
            let s = string_views(collected@);
            assert forall|k: int| 0 <= k < s.len() implies depends_on(adj, root, #[trigger] s[k])
                && flat.contains(s[k]) by {
                assert(children(adj, root).contains(s[k]));
                lemma_depends_direct(adj, root, s[k]);
                self.lemma_children_in_flat(root, s[k]);
            }
            lemma_distinct_bound(s, flat);
        }
        let mut i: usize = 0;
        while i < collected.len()
            invariant
                self.dependencies.wf(),
                adj == self.adjacency(),
                root == self.root@,
                flat == flat_children(self.dependencies.entries()),
                i <= collected@.len(),
                collected@.len() <= flat.len(),
                string_views(collected@).no_duplicates(),
                forall|k: int| 0 <= k < collected@.len() ==> depends_on(adj, root, #[trigger] string_views(collected@)[k])
                    && flat.contains(string_views(collected@)[k]),
                forall|c: Seq<char>| #[trigger] children(adj, root).contains(c) ==> string_views(collected@).contains(c),
                forall|j: int, c: Seq<char>| 0 <= j < i && #[trigger] children(adj, string_views(collected@)[j]).contains(c)
                    ==> string_views(collected@).contains(c),
            decreases flat.len() - i,
        {
            let y = owned(collected[i].as_str());
            let ghost before = string_views(collected@);
            assert(y@ == before[i as int]);
            self.push_new_children(y.as_str(), &mut collected);
            proof {
                let after = string_views(collected@);
                assert forall|e: Seq<char>| before.contains(e) implies after.contains(e) by {
                    let w = choose|w: int| 0 <= w < before.len() && before[w] == e;
                    assert(after.subrange(0, before.len() as int)[w] == e);
                }
                assert forall|k: int| 0 <= k < after.len() implies depends_on(adj, root, #[trigger] after[k])
                    && flat.contains(after[k]) by {
                    if k < before.len() {
                        assert(after.subrange(0, before.len() as int)[k] == before[k]);
                    } else {
                        assert(children(adj, y@).contains(after[k]));
                        lemma_depends_extend(adj, root, y@, after[k]);
                        self.lemma_children_in_flat(y@, after[k]);
                    }
                }
                assert forall|j: int, c: Seq<char>| 0 <= j < i + 1 && #[trigger] children(adj, after[j]).contains(c)
                    implies after.contains(c) by {
                    assert(after.subrange(0, before.len() as int)[j] == before[j]);
                    if j < i {
                        assert(before.contains(c));
                    }
                }
                lemma_distinct_bound(after, flat);
            }
            i = i + 1;
        }
        proof {
            let s = string_views(collected@);
            assert forall|y: Seq<char>, c: Seq<char>| s.contains(y) && #[trigger] children(adj, y).contains(c)
                implies s.contains(c) by {
                let j = choose|j: int| 0 <= j < s.len() && s[j] == y;
            }
            assert forall|x: Seq<char>| depends_on(adj, root, x) implies s.contains(x) by {
                let p = choose|p: Seq<Seq<char>>| #[trigger] is_dep_path(adj, p) && p[0] == root && p.last() == x;
                lemma_path_in_closed(adj, root, s, p, p.len() - 1);
            }
            assert forall|x: Seq<char>| s.contains(x) implies depends_on(adj, root, x) by {
                let k = choose|k: int| 0 <= k < s.len() && s[k] == x;
            }
        }
        collected
    }

    /// Every plugin the root depends on, directly or not, each once, in
    /// lexicographic order.
    pub fn get_all_dependencies(&self) -> (r: Vec<String>)
        requires
            self.dependencies.wf(),
        ensures
            forall|x: Seq<char>| string_views(r@).contains(x) <==> depends_on(self.adjacency(), self.root@, x),
            strictly_sorted(string_views(r@)),
    {
        let collected = self.collect_dependencies();
        let ghost cv = string_views(collected@);
        let r = sort_strings(collected);
        proof {
            assert forall|x: Seq<char>| string_views(r@).contains(x) <==> depends_on(self.adjacency(), self.root@, x) by {
                assert(string_views(r@).to_set().contains(x) == string_views(r@).contains(x));
                assert(cv.to_set().contains(x) == cv.contains(x));
                assert(cv.contains(x) <==> depends_on(self.adjacency(), self.root@, x));
            }
        }
        r
    }
}

// ---------------------------------------------------------------------
// The package manager
// ---------------------------------------------------------------------

/// A plugin and the version wanted of it.
#[derive(Debug, Clone)]
pub struct PluginSpec {
    pub plugin_id: String,
    pub version_requirement: String,
}

impl PluginSpec {
    /// The spec of `version` of `plugin_id`.
    pub fn new(plugin_id: &str, version: &str) -> (s: Self)
        ensures
            s.plugin_id@ == plugin_id@,
            s.version_requirement@ == version@,
    {
        PluginSpec { plugin_id: owned(plugin_id), version_requirement: owned(version) }
    }
}

/// A dependency of a package on another plugin.
#[derive(Debug, Clone)]
pub struct PluginDependency {
    pub name: String,
    pub version_requirement: String,
    pub optional: bool,
}

/// Why a package operation failed.
#[derive(Debug, Clone, PartialEq, Eq)]
pub enum PackageError {
    PluginNotInstalled(String),
    PluginAlreadyExists(String),
    VersionConflict(String),
    HasDependents { plugin: String, dependents: Vec<String> },
    DownloadFailed(String),
    InstallFailed(String),
    VersionNotFound(String),
    CircularDependency(String),
}

/// The result of a package operation.
pub type PackageResult<T> = Result<T, PackageError>;

/// A plugin installed locally.
#[derive(Debug, Clone)]
pub struct InstalledPlugin {
    pub id: String,
    pub version: String,
    pub install_path: String,
    /// Milliseconds since the Unix epoch (UTC).
    pub installed_at: i64,
    pub enabled: bool,
}

/// An installed plugin with its texts as character sequences.
pub struct InstalledView {
    pub id: Seq<char>,
    pub version: Seq<char>,
    pub install_path: Seq<char>,
    pub installed_at: i64,
    pub enabled: bool,
}

impl InstalledPlugin {
    pub open spec fn view(self) -> InstalledView {
        InstalledView {
            id: self.id@,
            version: self.version@,
            install_path: self.install_path@,
            installed_at: self.installed_at,
            enabled: self.enabled,
        }
    }

    /// A copy of the record.
    pub fn duplicate(&self) -> (r: Self)
        ensures
            r.view() == self.view(),
    {
        InstalledPlugin {
            id: owned(self.id.as_str()),
            version: owned(self.version.as_str()),
            install_path: owned(self.install_path.as_str()),
            installed_at: self.installed_at,
            enabled: self.enabled,
        }
    }
}

/// A newer version available for an installed plugin.
#[derive(Debug, Clone)]
pub struct PluginUpdate {
    pub plugin_id: String,
    pub current_version: String,
    pub latest_version: String,
    pub changelog: String,
}

/// The newest version offered for any plugin.
pub open spec fn latest_offered() -> Seq<char> {
    "1.0.0"@
}

/// The versions offered for any plugin, for rollbacks.
pub open spec fn offered_versions() -> Seq<Seq<char>> {
    seq!["1.0.0"@, "1.1.0"@, "2.0.0"@]
}

/// Where a plugin is installed.
pub open spec fn install_path_of(plugin_id: Seq<char>) -> Seq<char> {
    "plugins/"@ + plugin_id
}

/// The basic check of a downloaded package: a non-empty binary, then a
/// non-empty name.
pub open spec fn spec_package_check(p: PluginPackage) -> Option<Seq<char>> {
    if p.wasm_binary@.len() == 0 {
        Some("WASM二进制文件为空"@)
    } else if p.metadata.name@.len() == 0 {
        Some("插件名称为空"@)
    } else {
        None
    }
}

/// Installs plugins into a local cache of installed plugins.
pub struct PluginPackageManager {
    cache: KeyedList<InstalledPlugin>,
    config: StorageConfig,
}

impl PluginPackageManager {
    pub closed spec fn wf(self) -> bool {
        &&& self.cache.wf()
        &&& forall|k: Seq<char>| #[trigger] self.cache.map().contains_key(k) ==> self.cache.map()[k].id@ == k
    }

    /// The installed plugins by id.
    pub closed spec fn installed(self) -> Map<Seq<char>, InstalledView> {
        self.cache.map().map_values(|p: InstalledPlugin| p.view())
    }

    /// The installed plugin ids, in the order they were first installed.
    pub closed spec fn install_order(self) -> Seq<Seq<char>> {
        self.cache.key_order()
    }

    /// A manager with nothing installed.
    pub fn new(config: StorageConfig) -> (m: Self)
        ensures
            m.wf(),
            m.installed() == Map::<Seq<char>, InstalledView>::empty(),
    {
        let m = PluginPackageManager { cache: KeyedList::new(), config };
        assert(m.installed() =~= Map::<Seq<char>, InstalledView>::empty());
        m
    }

    /// Whether the installed version satisfies a requirement: only the same
    /// version does.
    pub fn version_matches(&self, installed_version: &str, requirement: &str) -> (b: bool)
        ensures
            b == (installed_version@ == requirement@),
    {
        str_eq(installed_version, requirement)
    }

    /// Whether `new_version` is newer than `current_version`: it comes after
    /// it in lexicographic order.
    pub fn is_newer_version(&self, new_version: &str, current_version: &str) -> (b: bool)
        ensures
            b == seq_less(current_version@, new_version@),
    {
        str_less(current_version, new_version)
    }

    /// The installed record of `plugin_id`, if any.
    fn find(&self, plugin_id: &str) -> (r: Option<&InstalledPlugin>)
        requires
            self.wf(),
        ensures
            match r {
                Some(p) => self.installed().contains_key(plugin_id@) && p.view() == self.installed()[plugin_id@],
                None => !self.installed().contains_key(plugin_id@),
            },
    {
        self.cache.get(plugin_id)
    }

    /// Whether installing `spec` has work to do: not when the plugin is
    /// installed at exactly the version asked for.
    pub fn needs_install(&self, spec: &PluginSpec) -> (b: bool)
        requires
            self.wf(),
        ensures
            b == !(self.installed().contains_key(spec.plugin_id@)
                && self.installed()[spec.plugin_id@].version == spec.version_requirement@),
    {
        match self.find(spec.plugin_id.as_str()) {
            Some(p) => !self.version_matches(p.version.as_str(), spec.version_requirement.as_str()),
            None => true,
        }
    }

    /// Checks a downloaded package before installing it.
    pub fn validate_plugin_package(&self, package: &PluginPackage) -> (r: PackageResult<()>)
        ensures
            match spec_package_check(*package) {
                None => r is Ok,
                Some(m) => r matches Err(PackageError::InstallFailed(s)) && s@ == m,
            },
    {
        if package.wasm_binary.len() == 0 {
            return Err(PackageError::InstallFailed(String::from_str("WASM二进制文件为空")));
        }
        if package.metadata.name.as_str().unicode_len() == 0 {
            return Err(PackageError::InstallFailed(String::from_str("插件名称为空")));
        }
        Ok(())
    }

    /// Installs `spec` at `now` from the outcome of its download: a missing
    /// package or a failed download is a download error, a package that
    /// fails its check an install error; otherwise the plugin is recorded as
    /// installed, enabled, at `plugins/<id>`, replacing any earlier record.
    pub fn install_downloaded(
        &mut self,
        spec: &PluginSpec,
        download: Result<Option<PluginPackage>, WasmError>,
        now: i64,
    ) -> (r: PackageResult<()>)
        requires
            old(self).wf(),
        ensures
            final(self).wf(),
            match download {
                Err(e) => r matches Err(PackageError::DownloadFailed(s)) && s@ == "下载失败: "@ + e.spec_message()
                    && final(self).installed() == old(self).installed(),
                Ok(None) => r matches Err(PackageError::DownloadFailed(s)) && s@ == "插件包不存在: "@
                    + spec.plugin_id@ + ":"@ + spec.version_requirement@ && final(self).installed() == old(self).installed(),
                Ok(Some(p)) => match spec_package_check(p) {
                    Some(m) => r matches Err(PackageError::InstallFailed(s)) && s@ == m
                        && final(self).installed() == old(self).installed(),
                    None => r is Ok && final(self).installed() == old(self).installed().insert(
                        spec.plugin_id@,
                        InstalledView {
                            id: spec.plugin_id@,
                            version: spec.version_requirement@,
                            install_path: install_path_of(spec.plugin_id@),
                            installed_at: now,
                            enabled: true,
                        },
                    ),
                },
            },
    {
        let package = match download {
            Err(e) => {
                let m = e.message();
                return Err(PackageError::DownloadFailed(concat("下载失败: ", m.as_str())));
            },
            Ok(None) => {
                let a = concat("插件包不存在: ", spec.plugin_id.as_str());
                let b = concat(a.as_str(), ":");
                return Err(PackageError::DownloadFailed(concat(b.as_str(), spec.version_requirement.as_str())));
            },
            Ok(Some(p)) => p,
        };
        match self.validate_plugin_package(&package) {
            Err(e) => return Err(e),
            Ok(_) => {},
        }
        let record = InstalledPlugin {
            id: owned(spec.plugin_id.as_str()),
            version: owned(spec.version_requirement.as_str()),
            install_path: concat("plugins/", spec.plugin_id.as_str()),
            installed_at: now,
            enabled: true,
        };
        self.cache.insert(owned(spec.plugin_id.as_str()), record);
        assert(self.installed() =~= old(self).installed().insert(spec.plugin_id@, record.view()));
        Ok(())
    }

    /// The update to make of an installed plugin: an error when it is not
    /// installed; the spec of the newest version when that is newer than
    /// the installed one; nothing when it is up to date.
    pub fn update_plan(&self, plugin_id: &str) -> (r: PackageResult<Option<PluginSpec>>)
        requires
            self.wf(),
        ensures
            !self.installed().contains_key(plugin_id@) ==> (r matches Err(PackageError::PluginNotInstalled(s)) && s@ == plugin_id@),
            self.installed().contains_key(plugin_id@) ==> (if seq_less(self.installed()[plugin_id@].version, latest_offered()) {
                r matches Ok(Some(sp)) && sp.plugin_id@ == plugin_id@ && sp.version_requirement@ == latest_offered()
            } else {
                r matches Ok(None)
            }),
    {
        let current = match self.find(plugin_id) {
            Some(p) => p,
            None => return Err(PackageError::PluginNotInstalled(owned(plugin_id))),
        };
        let latest = match self.get_latest_version(plugin_id) {
            Ok(v) => v,
            Err(e) => return Err(e),
        };
        if self.is_newer_version(latest.as_str(), current.version.as_str()) {
            Ok(Some(PluginSpec::new(plugin_id, latest.as_str())))
        } else {
            Ok(None)
        }
    }

    /// The newest version offered of `plugin_id`: 1.0.0 for every plugin.
    pub fn get_latest_version(&self, plugin_id: &str) -> (r: PackageResult<String>)
        ensures
            r matches Ok(v) && v@ == latest_offered(),
    {
        Ok(String::from_str("1.0.0"))
    }

    /// The versions offered of `plugin_id`: the same three for every plugin.
    pub fn get_available_versions(&self, plugin_id: &str) -> (r: PackageResult<Vec<String>>)
        ensures
            r matches Ok(vs) && string_views(vs@) == offered_versions(),
    {
        let available = vec![String::from_str("1.0.0"), String::from_str("1.1.0"), String::from_str("2.0.0")];
        assert(string_views(available@) =~= offered_versions());
        Ok(available)
    }

    /// The installed plugins that depend on `plugin_id`: none is recorded.
    pub fn get_plugin_dependents(&self, plugin_id: &str) -> (r: Vec<String>)
        ensures
            r@.len() == 0,
    {
        Vec::new()
    }

    /// The dependencies of `plugin_id`: none is recorded.
    pub fn get_plugin_dependencies(&self, plugin_id: &str) -> (r: PackageResult<Vec<PluginDependency>>)
        ensures
            r matches Ok(ds) && ds@.len() == 0,
    {
        Ok(Vec::new())
    }

    /// The dependencies to install with `version` of `plugin_id`: none is
    /// recorded.
    pub fn resolve_dependencies(&self, plugin_id: &str, version: &str) -> (r: PackageResult<Vec<PluginDependency>>)
        ensures
            r matches Ok(ds) && ds@.len() == 0,
    {
        Ok(Vec::new())
    }

    /// Adds to `tree` what `plugin_id` depends on, and what those depend on,
    /// `depth` levels below the root: refused as circular beyond ten levels.
    fn build_dependency_tree(&self, tree: &mut DependencyTree, plugin_id: &str, depth: usize) -> (r: PackageResult<()>)
        requires
            old(tree).dependencies.wf(),
            depth <= 11,
        ensures
            final(tree).dependencies.wf(),
            final(tree).root == old(tree).root,
            depth > 10 ==> (r matches Err(PackageError::CircularDependency(s)) && s@ == plugin_id@),
            depth <= 10 ==> r is Ok && final(tree).adjacency() == old(tree).adjacency(),
        decreases 11 - depth,
    {
        if depth > 10 {
            return Err(PackageError::CircularDependency(owned(plugin_id)));
        }
        let dependencies = match self.get_plugin_dependencies(plugin_id) {
            Ok(d) => d,
            Err(e) => return Err(e),
        };
        let ghost start = *tree;
        let mut i: usize = 0;
        while i < dependencies.len()
            invariant
                dependencies@.len() == 0,
                i <= dependencies@.len(),
                tree.dependencies.wf(),
                tree.root == start.root,
                tree.adjacency() == start.adjacency(),
                start.root == old(tree).root,
                start.adjacency() == old(tree).adjacency(),
                depth <= 10,
            decreases dependencies.len() - i,
        {
            tree.add_dependency(plugin_id, dependencies[i].name.as_str());
            match self.build_dependency_tree(tree, dependencies[i].name.as_str(), depth + 1) {
                Ok(_) => {},
                Err(e) => return Err(e),
            }
            i = i + 1;
        }
        Ok(())
    }

    /// Uninstalls a plugin: refused while other plugins depend on it, and
    /// none is recorded to, so its record is removed.
    pub fn uninstall_plugin(&mut self, plugin_id: &str) -> (r: PackageResult<()>)
        requires
            old(self).wf(),
        ensures
            final(self).wf(),
            r is Ok,
            final(self).installed() == old(self).installed().remove(plugin_id@),
    {
        let dependents = self.get_plugin_dependents(plugin_id);
        if dependents.len() > 0 {
            return Err(PackageError::HasDependents { plugin: owned(plugin_id), dependents });
        }
        self.cache.remove(plugin_id);
        assert(self.installed() =~= old(self).installed().remove(plugin_id@));
        Ok(())
    }

    /// The installed plugins, in the order they were first installed.
    pub fn list_installed_plugins(&self) -> (r: Vec<InstalledPlugin>)
        requires
            self.wf(),
        ensures
            r@.len() == self.install_order().len(),
            forall|i: int| 0 <= i < r@.len() ==> #[trigger] r@[i].view() == self.installed()[self.install_order()[i]],
    {
        let n = self.cache.entry_count();
        let mut out: Vec<InstalledPlugin> = Vec::new();
        let mut i: usize = 0;
        proof { self.cache.lemma_model(); }
        while i < n
            invariant
                self.wf(),
                n == self.cache.entries().len(),
                n == self.install_order().len(),
                i <= n,
                out@.len() == i,
                forall|k: int| 0 <= k < i ==> #[trigger] out@[k].view() == self.installed()[self.install_order()[k]],
                forall|k: int| 0 <= k < n ==> #[trigger] self.cache.map()[self.cache.entries()[k].0@]
                    == self.cache.entries()[k].1 && self.cache.map().contains_key(self.cache.entries()[k].0@),
                self.install_order() == entry_keys(self.cache.entries()),
            decreases n - i,
        {
            let (_k, p) = self.cache.entry_at(i);
            out.push(p.duplicate());
            assert(self.install_order()[i as int] == self.cache.entries()[i as int].0@);
            assert(self.cache.map()[self.cache.entries()[i as int].0@] == self.cache.entries()[i as int].1);
            i = i + 1;
        }
        out
    }

    /// The updates available: each installed plugin, in order, whose version
    /// comes before the newest one offered.
    pub fn check_updates(&self) -> (r: PackageResult<Vec<PluginUpdate>>)
        requires
            self.wf(),
        ensures
            r matches Ok(ups) && ups@.map_values(|u: PluginUpdate| (u.plugin_id@, u.current_version@, u.latest_version@, u.changelog@))
                == self.install_order().filter(|k: Seq<char>| seq_less(self.installed()[k].version, latest_offered())).map_values(
                |k: Seq<char>| (k, self.installed()[k].version, latest_offered(), "更新日志"@),
            ),
    {
        let n = self.cache.entry_count();
        let mut ups: Vec<PluginUpdate> = Vec::new();
        let mut i: usize = 0;
        let ghost pred = |k: Seq<char>| seq_less(self.installed()[k].version, latest_offered());
        let ghost f = |k: Seq<char>| (k, self.installed()[k].version, latest_offered(), "更新日志"@);
        let ghost g = |u: PluginUpdate| (u.plugin_id@, u.current_version@, u.latest_version@, u.changelog@);
        proof { self.cache.lemma_model(); }
        while i < n
            invariant
                self.wf(),
                n == self.cache.entries().len(),
                n == self.install_order().len(),
                i <= n,
                self.install_order() == entry_keys(self.cache.entries()),
                forall|k: int| 0 <= k < n ==> #[trigger] self.cache.map()[self.cache.entries()[k].0@]
                    == self.cache.entries()[k].1 && self.cache.map().contains_key(self.cache.entries()[k].0@),
                pred == (|k: Seq<char>| seq_less(self.installed()[k].version, latest_offered())),
                f == (|k: Seq<char>| (k, self.installed()[k].version, latest_offered(), "更新日志"@)),
                g == (|u: PluginUpdate| (u.plugin_id@, u.current_version@, u.latest_version@, u.changelog@)),
                ups@.map_values(g) == self.install_order().subrange(0, i as int).filter(pred).map_values(f),
            decreases n - i,
        {
            let (key, p) = self.cache.entry_at(i);
            let ghost k = self.install_order()[i as int];
            assert(k == key@);
            assert(self.cache.map()[key@] == *p);
            assert(self.installed()[k] == p.view());
            proof {
                crate::seqs::lemma_filter_push(self.install_order().subrange(0, i as int), pred, k);
                assert(self.install_order().subrange(0, i as int).push(k) =~= self.install_order().subrange(0, i + 1));
            }
            let ghost before = ups@;
            let latest = match self.get_latest_version(p.id.as_str()) {
                Ok(v) => v,
                Err(e) => return Err(e),
            };
            if self.is_newer_version(latest.as_str(), p.version.as_str()) {
                let u = PluginUpdate {
                    plugin_id: owned(p.id.as_str()),
                    current_version: owned(p.version.as_str()),
                    latest_version: latest,
                    changelog: String::from_str("更新日志"),
                };
                ups.push(u);
                assert(self.installed().contains_key(k));
                assert(p.id@ == k);
                assert(ups@.map_values(g) =~= before.map_values(g).push(g(u)));
                assert(self.install_order().subrange(0, i as int).filter(pred).push(k).map_values(f)
                    =~= self.install_order().subrange(0, i as int).filter(pred).map_values(f).push(f(k)));
            }
            i = i + 1;
        }
        assert(self.install_order().subrange(0, n as int) =~= self.install_order());
        Ok(ups)
    }

    /// The spec of a rollback of `plugin_id` to `target_version`: an error
    /// when that version is not offered.
    pub fn rollback_plan(&self, plugin_id: &str, target_version: &str) -> (r: PackageResult<PluginSpec>)
        ensures
            offered_versions().contains(target_version@) ==> (r matches Ok(sp) && sp.plugin_id@ == plugin_id@
                && sp.version_requirement@ == target_version@),
            !offered_versions().contains(target_version@) ==> (r matches Err(PackageError::VersionNotFound(s))
                && s@ == target_version@),
    {
        let available = match self.get_available_versions(plugin_id) {
            Ok(v) => v,
            Err(e) => return Err(e),
        };
        if !contains_str(&available, target_version) {
            return Err(PackageError::VersionNotFound(owned(target_version)));
        }
        Ok(PluginSpec::new(plugin_id, target_version))
    }

    /// Whether an installed plugin's files are on disk: an error when it is
    /// not installed. Whether they are depends on the file system.
    pub fn verify_plugin_integrity(&self, plugin_id: &str) -> (r: PackageResult<bool>)
        requires
            self.wf(),
        ensures
            !self.installed().contains_key(plugin_id@) ==> (r matches Err(PackageError::PluginNotInstalled(s)) && s@ == plugin_id@),
            self.installed().contains_key(plugin_id@) ==> r is Ok,
    {
        let installed = match self.find(plugin_id) {
            Some(p) => p,
            None => return Err(PackageError::PluginNotInstalled(owned(plugin_id))),
        };
        Ok(crate::dev_tools::path_exists(installed.install_path.as_str()))
    }

    /// The spec of a repair: the installed version again; an error when the
    /// plugin is not installed.
    pub fn repair_plan(&self, plugin_id: &str) -> (r: PackageResult<PluginSpec>)
        requires
            self.wf(),
        ensures
            !self.installed().contains_key(plugin_id@) ==> (r matches Err(PackageError::PluginNotInstalled(s)) && s@ == plugin_id@),
            self.installed().contains_key(plugin_id@) ==> (r matches Ok(sp) && sp.plugin_id@ == plugin_id@
                && sp.version_requirement@ == self.installed()[plugin_id@].version),
    {
        let installed = match self.find(plugin_id) {
            Some(p) => p,
            None => return Err(PackageError::PluginNotInstalled(owned(plugin_id))),
        };
        Ok(PluginSpec::new(plugin_id, installed.version.as_str()))
    }

    /// Cleans the manager's cache of downloads: there is nothing to remove.
    pub fn clean_cache(&mut self) -> (r: PackageResult<()>)
        ensures
            r is Ok,
            final(self).installed() == old(self).installed(),
            final(self).wf() == old(self).wf(),
    {
        Ok(())
    }

    /// The dependency tree of `plugin_id`: no plugin declares dependencies,
    /// so it has none.
    pub fn get_dependency_tree(&self, plugin_id: &str) -> (r: PackageResult<DependencyTree>)
        ensures
            r matches Ok(t) && t.root@ == plugin_id@ && t.dependencies.wf()
                && t.adjacency() == Map::<Seq<char>, Seq<Seq<char>>>::empty(),
    {
        let mut tree = DependencyTree::new(owned(plugin_id));
        match self.build_dependency_tree(&mut tree, plugin_id, 0) {
            Ok(_) => {},
            Err(e) => return Err(e),
        }
        Ok(tree)
    }
}

/// Depending on is transitive: what a dependency depends on, the plugin
/// depends on too.
pub proof fn lemma_depends_transitive(adj: Map<Seq<char>, Seq<Seq<char>>>, a: Seq<char>, b: Seq<char>, c: Seq<char>)
    requires
        depends_on(adj, a, b),
        depends_on(adj, b, c),
    ensures
        depends_on(adj, a, c),
{
    let p = choose|p: Seq<Seq<char>>| #[trigger] is_dep_path(adj, p) && p[0] == a && p.last() == b;
    let q = choose|q: Seq<Seq<char>>| #[trigger] is_dep_path(adj, q) && q[0] == b && q.last() == c;
    let r = p + q.drop_first();
    assert forall|k: int| #![trigger children(adj, r[k])] 0 <= k < r.len() - 1 implies children(adj, r[k]).contains(r[k + 1]) by {
        if k < p.len() - 1 {
            assert(r[k] == p[k] && r[k + 1] == p[k + 1]);
            assert(children(adj, p[k]).contains(p[k + 1]));
        } else if k == p.len() - 1 {
            assert(r[k] == b && q[0] == b);
            assert(r[k + 1] == q[1]);
            assert(children(adj, q[0]).contains(q[1]));
        } else {
            let j = k - p.len() + 1;
            assert(r[k] == q[j] && r[k + 1] == q[j + 1]);
            assert(children(adj, q[j]).contains(q[j + 1]));
        }
    }
    assert(r.last() == q.last());
    assert(is_dep_path(adj, r));
}

/// A plugin just installed at a version is installed at that version: the
/// same spec then needs no install.
pub proof fn lemma_install_satisfies(
    installed: Map<Seq<char>, InstalledView>,
    plugin_id: Seq<char>,
    version: Seq<char>,
    now: i64,
)
    ensures
        ({
            let after = installed.insert(
                plugin_id,
                InstalledView {
                    id: plugin_id,
                    version,
                    install_path: install_path_of(plugin_id),
                    installed_at: now,
                    enabled: true,
                },
            );
            after.contains_key(plugin_id) && after[plugin_id].version == version
        }),
{
}

/// A plugin just uninstalled is not installed, and the others stay as they
/// were.
pub proof fn lemma_uninstall_forgets(installed: Map<Seq<char>, InstalledView>, plugin_id: Seq<char>, other: Seq<char>)
    requires
        other != plugin_id,
    ensures
        !installed.remove(plugin_id).contains_key(plugin_id),
        installed.remove(plugin_id).contains_key(other) == installed.contains_key(other),
        installed.contains_key(other) ==> installed.remove(plugin_id)[other] == installed[other],
{
}

} // verus!
