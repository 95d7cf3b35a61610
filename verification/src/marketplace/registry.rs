//! The registry of published plugins: which plugins exist, the checks their
//! metadata must pass, and the figures drawn from them (downloads, new
//! plugins, the most used categories). Saving entries to the store is done
//! by the caller.

use vstd::prelude::*;
use crate::keyed::KeyedList;
use crate::marketplace::package_manager::{
    lemma_seq_less_asymmetric, lemma_seq_less_total, seq_less, str_less,
};
use crate::marketplace::review::page_bounds;
use crate::marketplace::types::{
    copy_dependency, copy_license, copy_metadata, copy_versions, same_metadata, same_versions, LicenseInfo, PluginDependency,
    PluginMetadata, PluginVersion, PublishStatus, SearchQuery, SecurityRating, SortBy,
};
use crate::seqs::{in_order_by, lemma_filter_push, lemma_ordered_by_in_order, lemma_place_by_at, ordered_by, orders};
use crate::text::{
    char_is_alphanumeric, clone_strings, concat, has_one_of, holds_one_of, lowercase, opt_chars, owned, seq_contains, str_chars, str_contains,
    string_views, to_lowercase, unicode_alphanumeric,
};
use crate::wasm_error::{WasmError, WasmResult};

verus! {

/// A registered plugin: its metadata and versions, its usage counts, its
/// security rating, licence, dependencies and publication state.
#[derive(Debug, Clone)]
pub struct RegistryEntry {
    pub metadata: PluginMetadata,
    pub versions: Vec<PluginVersion>,
    pub download_count: u64,
    pub active_installs: u64,
    pub review_count: u64,
    /// The average review rating, in hundredths of a star.
    pub rating: u32,
    pub security_rating: SecurityRating,
    pub license: LicenseInfo,
    pub dependencies: Vec<PluginDependency>,
    pub status: PublishStatus,
}

/// Whether `a` and `b` hold the same registration.
pub open spec fn same_entry(a: RegistryEntry, b: RegistryEntry) -> bool {
    &&& same_metadata(a.metadata, b.metadata)
    &&& same_versions(a.versions@, b.versions@)
    &&& a.download_count == b.download_count
    &&& a.active_installs == b.active_installs
    &&& a.review_count == b.review_count
    &&& a.rating == b.rating
    &&& a.security_rating == b.security_rating
    &&& a.license == b.license
    &&& a.dependencies@ == b.dependencies@
    &&& a.status == b.status
}

/// A copy of a registration.
pub fn copy_entry(e: &RegistryEntry) -> (r: RegistryEntry)
    ensures
        same_entry(r, *e),
{
    let mut deps: Vec<PluginDependency> = Vec::new();
    let mut i: usize = 0;
    while i < e.dependencies.len()
        invariant
            i <= e.dependencies@.len(),
            deps@ == e.dependencies@.subrange(0, i as int),
        decreases e.dependencies.len() - i,
    {
        deps.push(copy_dependency(&e.dependencies[i]));
        i = i + 1;
        assert(deps@ =~= e.dependencies@.subrange(0, i as int));
    }
    assert(deps@ =~= e.dependencies@);
    RegistryEntry {
        metadata: copy_metadata(&e.metadata),
        versions: copy_versions(&e.versions),
        download_count: e.download_count,
        active_installs: e.active_installs,
        review_count: e.review_count,
        rating: e.rating,
        security_rating: e.security_rating,
        license: copy_license(&e.license),
        dependencies: deps,
        status: e.status,
    }
}

/// A character allowed in a plugin identifier.
pub open spec fn id_char(c: char) -> bool {
    unicode_alphanumeric(c) || c == '-' || c == '_'
}

/// The first problem of a plugin's metadata: an empty name, description or
/// author, or an identifier with a character other than letters, digits,
/// hyphens and underscores.
pub open spec fn metadata_problem(m: PluginMetadata) -> Option<Seq<char>> {
    if m.name@.len() == 0 {
        Some("插件名称不能为空"@)
    } else if m.description@.len() == 0 {
        Some("插件描述不能为空"@)
    } else if m.author@.len() == 0 {
        Some("插件作者不能为空"@)
    } else if !(forall|i: int| 0 <= i < m.id@.len() ==> id_char(#[trigger] m.id@[i])) {
        Some("插件ID只能包含字母、数字、连字符和下划线"@)
    } else {
        None
    }
}

/// Checks a plugin's metadata.
pub fn validate_plugin_metadata(metadata: &PluginMetadata) -> (r: WasmResult<()>)
    ensures
        match metadata_problem(*metadata) {
            None => r is Ok,
            Some(m) => r matches Err(WasmError::PluginExecution(s)) && s@ == m,
        },
{
    if metadata.name.as_str().unicode_len() == 0 {
        return Err(WasmError::PluginExecution(String::from_str("插件名称不能为空")));
    }
    if metadata.description.as_str().unicode_len() == 0 {
        return Err(WasmError::PluginExecution(String::from_str("插件描述不能为空")));
    }
    if metadata.author.as_str().unicode_len() == 0 {
        return Err(WasmError::PluginExecution(String::from_str("插件作者不能为空")));
    }
    let chars = str_chars(metadata.id.as_str());
    let mut i: usize = 0;
    while i < chars.len()
        invariant
            chars@ == metadata.id@,
            metadata.name@.len() > 0,
            metadata.description@.len() > 0,
            metadata.author@.len() > 0,
            i <= chars@.len(),
            forall|k: int| 0 <= k < i ==> id_char(#[trigger] chars@[k]),
        decreases chars.len() - i,
    {
        let c = chars[i];
        if !(char_is_alphanumeric(c) || c == '-' || c == '_') {
            assert(!id_char(metadata.id@[i as int]));
            return Err(WasmError::PluginExecution(String::from_str("插件ID只能包含字母、数字、连字符和下划线")));
        }
        i = i + 1;
    }
    Ok(())
}

/// How often `c` occurs in `cats`.
pub open spec fn occurrences(cats: Seq<String>, c: Seq<char>) -> nat
    decreases cats.len(),
{
    if cats.len() == 0 {
        0
    } else {
        occurrences(cats.drop_last(), c) + if cats.last()@ == c { 1nat } else { 0nat }
    }
}

/// How many times `c` is named as a category over `es`.
pub open spec fn category_count(es: Seq<RegistryEntry>, c: Seq<char>) -> nat
    decreases es.len(),
{
    if es.len() == 0 {
        0
    } else {
        category_count(es.drop_last(), c) + occurrences(es.last().metadata.categories@, c)
    }
}

/// How many categories are named over `es`, counting repeats.
pub open spec fn category_total(es: Seq<RegistryEntry>) -> nat
    decreases es.len(),
{
    if es.len() == 0 {
        0
    } else {
        category_total(es.drop_last()) + es.last().metadata.categories@.len()
    }
}

/// The downloads over `es`.
pub open spec fn download_total(es: Seq<RegistryEntry>) -> nat
    decreases es.len(),
{
    if es.len() == 0 {
        0
    } else {
        download_total(es.drop_last()) + es.last().download_count as nat
    }
}

/// How many of `es` were created at or after `since`.
pub open spec fn created_since(es: Seq<RegistryEntry>, since: i64) -> nat
    decreases es.len(),
{
    if es.len() == 0 {
        0
    } else {
        created_since(es.drop_last(), since) + if es.last().metadata.created_at >= since { 1nat } else { 0nat }
    }
}

proof fn lemma_occurrences_bounded(cats: Seq<String>, c: Seq<char>)
    ensures
        occurrences(cats, c) <= cats.len(),
    decreases cats.len(),
{
    if cats.len() > 0 {
        lemma_occurrences_bounded(cats.drop_last(), c);
    }
}

proof fn lemma_category_count_bounded(es: Seq<RegistryEntry>, c: Seq<char>)
    ensures
        category_count(es, c) <= category_total(es),
    decreases es.len(),
{
    if es.len() > 0 {
        lemma_category_count_bounded(es.drop_last(), c);
        lemma_occurrences_bounded(es.last().metadata.categories@, c);
    }
}

proof fn lemma_category_total_prefix(es: Seq<RegistryEntry>, k: int)
    requires
        0 <= k <= es.len(),
    ensures
        category_total(es.subrange(0, k)) + if k < es.len() { es[k].metadata.categories@.len() as int } else { 0int }
            <= category_total(es),
    decreases es.len() - k,
{
    if k < es.len() {
        lemma_category_total_prefix(es, k + 1);
        assert(es.subrange(0, k + 1).drop_last() =~= es.subrange(0, k));
    } else {
        assert(es.subrange(0, k) =~= es);
    }
}

proof fn lemma_download_total_prefix(es: Seq<RegistryEntry>, k: int)
    requires
        0 <= k <= es.len(),
    ensures
        download_total(es.subrange(0, k)) <= download_total(es),
    decreases es.len() - k,
{
    if k < es.len() {
        lemma_download_total_prefix(es, k + 1);
        assert(es.subrange(0, k + 1).drop_last() =~= es.subrange(0, k));
    } else {
        assert(es.subrange(0, k) =~= es);
    }
}

/// Counts sorted from the most to the least.
pub open spec fn sorted_by_count(s: Seq<(Seq<char>, u64)>) -> bool {
    forall|a: int, b: int| 0 <= a <= b < s.len() ==> (#[trigger] s[a]).1 >= (#[trigger] s[b]).1
}

/// The pairs of a list, with their names as character sequences.
pub open spec fn pair_views(v: Seq<(String, u64)>) -> Seq<(Seq<char>, u64)> {
    v.map_values(|p: (String, u64)| (p.0@, p.1))
}

/// `pairs` from the most to the least count.
pub fn sort_by_count_desc(pairs: Vec<(String, u64)>) -> (r: Vec<(String, u64)>)
    ensures
        sorted_by_count(pair_views(r@)),
        pair_views(r@).to_multiset() == pair_views(pairs@).to_multiset(),
        r@.len() == pairs@.len(),
{
    broadcast use vstd::seq_lib::group_to_multiset_ensures;
    let ghost src = pair_views(pairs@);
    let n = pairs.len();
    let mut rest = pairs;
    let mut out: Vec<(String, u64)> = Vec::new();
    let mut i: usize = 0;
    while i < n
        invariant
            n == src.len(),
            i <= n,
            pair_views(rest@) == src.subrange(i as int, n as int),
            rest@.len() == n - i,
            out@.len() == i,
            sorted_by_count(pair_views(out@)),
            pair_views(out@).to_multiset() == src.subrange(0, i as int).to_multiset(),
        decreases n - i,
    {
        let ghost rv = pair_views(rest@);
        let x = rest.remove(0);
        assert(pair_views(rest@) =~= rv.subrange(1, rv.len() as int));
        assert(pair_views(rest@) =~= src.subrange(i + 1, n as int));
        let ghost xv = (x.0@, x.1);
        assert(rv[0] == xv);
        assert(src[i as int] == xv);
        let ghost before = pair_views(out@);
        let mut pos: usize = 0;
        while pos < out.len() && out[pos].1 >= x.1
            invariant
                pos <= out@.len(),
                before == pair_views(out@),
                xv == (x.0@, x.1),
                forall|k: int| 0 <= k < pos ==> (#[trigger] before[k]).1 >= xv.1,
            decreases out.len() - pos,
        {
            assert(before[pos as int] == (out@[pos as int].0@, out@[pos as int].1));
            pos = pos + 1;
        }
        assert(pos < out@.len() ==> before[pos as int].1 < xv.1);
        let ghost before_out = out@;
        out.insert(pos, x);
        proof {
            assert(out@ =~= before_out.insert(pos as int, x));
            assert(pair_views(out@) =~= before.insert(pos as int, xv));
            vstd::seq_lib::to_multiset_insert(before, pos as int, xv);
            assert(src.subrange(0, i + 1) =~= src.subrange(0, i as int).push(xv));
            vstd::seq_lib::to_multiset_build(src.subrange(0, i as int), xv);
            let now = pair_views(out@);
            assert forall|a: int, b: int| 0 <= a <= b < now.len() implies (#[trigger] now[a]).1 >= (#[trigger] now[b]).1 by {
                if a < pos {
                    assert(now[a] == before[a]);
                }
                if b < pos {
                    assert(now[b] == before[b]);
                } else if b == pos {
                    assert(now[b] == xv);
                } else {
                    assert(now[b] == before[b - 1]);
                    assert(before[pos as int].1 >= before[b - 1].1);
                }
                if a == pos {
                    assert(now[a] == xv);
                } else if a > pos {
                    assert(now[a] == before[a - 1]);
                }
            }
        }
        i = i + 1;
    }
    assert(src.subrange(0, n as int) =~= src);
    out
}

/// The names of a list of counted names.
pub open spec fn names_of(s: Seq<(Seq<char>, u64)>) -> Seq<Seq<char>> {
    s.map_values(|p: (Seq<char>, u64)| p.0)
}

/// Whether `top` holds the names that `es` names most: at most five
/// distinct ones, each with how often it is named, most first; a named
/// category that is not among them is named no more often than each of them,
/// and leaves no room.
pub open spec fn top_named(es: Seq<RegistryEntry>, top: Seq<(Seq<char>, u64)>) -> bool {
    &&& top.len() <= 5
    &&& sorted_by_count(top)
    &&& forall|k: int| 0 <= k < top.len() ==> (#[trigger] top[k]).1 == category_count(es, top[k].0)
        && category_count(es, top[k].0) > 0
    &&& forall|a: int, b: int| 0 <= a < b < top.len() ==> (#[trigger] top[a]).0 != (#[trigger] top[b]).0
    &&& forall|c: Seq<char>| #[trigger] category_count(es, c) > 0 && !names_of(top).contains(c) ==> top.len() == 5
        && forall|k: int| 0 <= k < 5 ==> (#[trigger] top[k]).1 >= category_count(es, c)
}

/// The first five of a sorted arrangement of every named category, each
/// once with its count, are the most named.
proof fn lemma_top_named(es: Seq<RegistryEntry>, unsorted: Seq<(Seq<char>, u64)>, sv: Seq<(Seq<char>, u64)>, t: int)
    requires
        sv.to_multiset() == unsorted.to_multiset(),
        names_of(unsorted).no_duplicates(),
        forall|q: int| 0 <= q < unsorted.len() ==> (#[trigger] unsorted[q]).1 == category_count(es, unsorted[q].0)
            && category_count(es, unsorted[q].0) > 0,
        forall|c: Seq<char>| #[trigger] category_count(es, c) > 0 ==> names_of(unsorted).contains(c),
        sorted_by_count(sv),
        t == if sv.len() < 5 { sv.len() as int } else { 5 },
    ensures
        top_named(es, sv.subrange(0, t)),
{
    broadcast use vstd::seq_lib::group_to_multiset_ensures;
    assert forall|q: int| 0 <= q < sv.len() implies (#[trigger] sv[q]).1 == category_count(es, sv[q].0)
        && category_count(es, sv[q].0) > 0 by {
        assert(sv.contains(sv[q]));
        assert(sv.to_multiset().count(sv[q]) > 0);
        assert(unsorted.to_multiset().count(sv[q]) > 0);
        assert(unsorted.contains(sv[q]));
    }
    assert(unsorted.no_duplicates()) by {
        assert forall|a: int, b: int| 0 <= a < unsorted.len() && 0 <= b < unsorted.len() && a != b implies unsorted[a]
            != unsorted[b] by {
            assert(names_of(unsorted)[a] == unsorted[a].0);
            assert(names_of(unsorted)[b] == unsorted[b].0);
        }
    }
    unsorted.lemma_multiset_has_no_duplicates();
    sv.lemma_multiset_has_no_duplicates_conv();
    let top = sv.subrange(0, t);
    assert forall|a: int, b: int| 0 <= a < b < top.len() implies (#[trigger] top[a]).0 != (#[trigger] top[b]).0 by {
        assert(top[a] == sv[a] && top[b] == sv[b]);
        if sv[a].0 == sv[b].0 {
            assert(sv[a] == sv[b]);
        }
    }
    assert forall|c: Seq<char>| #[trigger] category_count(es, c) > 0 && !names_of(top).contains(c) implies top.len() == 5
        && forall|k: int| 0 <= k < 5 ==> (#[trigger] top[k]).1 >= category_count(es, c) by {
        let q = choose|q: int| 0 <= q < names_of(unsorted).len() && names_of(unsorted)[q] == c;
        assert(unsorted[q].0 == c);
        assert(unsorted.contains(unsorted[q]));
        assert(unsorted.to_multiset().count(unsorted[q]) > 0);
        assert(sv.to_multiset().count(unsorted[q]) > 0);
        assert(sv.contains(unsorted[q]));
        let w = choose|w: int| 0 <= w < sv.len() && sv[w] == unsorted[q];
        if w < t {
            assert(names_of(top)[w] == c);
        }
        assert(w >= t);
        assert forall|k: int| 0 <= k < 5 implies (#[trigger] top[k]).1 >= category_count(es, c) by {
            assert(top[k] == sv[k]);
        }
    }
    assert forall|a: int, b: int| 0 <= a <= b < top.len() implies (#[trigger] top[a]).1 >= (#[trigger] top[b]).1 by {
        assert(top[a] == sv[a] && top[b] == sv[b]);
    }
    assert forall|k: int| 0 <= k < top.len() implies (#[trigger] top[k]).1 == category_count(es, top[k].0)
        && category_count(es, top[k].0) > 0 by {
        assert(top[k] == sv[k]);
    }
}

/// What a listing shows of a registered plugin.
#[derive(Debug, Clone)]
pub struct PluginSummary {
    pub id: String,
    pub name: String,
    pub description: String,
    pub author: String,
    pub latest_version: String,
    pub download_count: u64,
    /// The average review rating, in hundredths of a star.
    pub rating: u32,
    pub updated_at: i64,
    pub keywords: Vec<String>,
    pub security_rating: SecurityRating,
}

/// The last published version of `e`, or "0.0.0" when it has none.
pub open spec fn latest_version_of(e: RegistryEntry) -> Seq<char> {
    if e.versions@.len() == 0 {
        "0.0.0"@
    } else {
        e.versions@.last().version@
    }
}

/// Whether `s` is the listing of `e`.
pub open spec fn summarizes(s: PluginSummary, e: RegistryEntry) -> bool {
    &&& s.id@ == e.metadata.id@
    &&& s.name@ == e.metadata.name@
    &&& s.description@ == e.metadata.description@
    &&& s.author@ == e.metadata.author@
    &&& s.latest_version@ == latest_version_of(e)
    &&& s.download_count == e.download_count
    &&& s.rating == e.rating
    &&& s.updated_at == e.metadata.updated_at
    &&& s.keywords@ == e.metadata.keywords@
    &&& s.security_rating == e.security_rating
}

/// The listing of `e`.
pub fn summarize(e: &RegistryEntry) -> (s: PluginSummary)
    ensures
        summarizes(s, *e),
{
    let latest = if e.versions.len() == 0 {
        String::from_str("0.0.0")
    } else {
        e.versions[e.versions.len() - 1].version.clone()
    };
    proof {
        reveal_strlit("0.0.0");
    }
    PluginSummary {
        id: e.metadata.id.clone(),
        name: e.metadata.name.clone(),
        description: e.metadata.description.clone(),
        author: e.metadata.author.clone(),
        latest_version: latest,
        download_count: e.download_count,
        rating: e.rating,
        updated_at: e.metadata.updated_at,
        keywords: clone_strings(&e.metadata.keywords),
        security_rating: e.security_rating,
    }
}

/// Whether `e` mentions `t` in its name, its description or one of its
/// keywords, each lowercased.
pub open spec fn mentions(e: RegistryEntry, t: Seq<char>) -> bool {
    ||| seq_contains(lowercase(e.metadata.name@), t)
    ||| seq_contains(lowercase(e.metadata.description@), t)
    ||| exists|k: int| 0 <= k < e.metadata.keywords@.len() && seq_contains(lowercase(#[trigger] e.metadata.keywords@[k]@), t)
}

/// Whether `e` passes the filters of `q`: it mentions the lowercased words
/// asked for, is filed under one of the categories asked for (when some
/// are), is by the author asked for and is rated at least as high as asked.
/// Tags and licence do not narrow a registry search.
pub open spec fn passes_query(e: RegistryEntry, q: SearchQuery) -> bool {
    &&& (q.query matches Some(t) ==> mentions(e, lowercase(t@)))
    &&& (q.categories@.len() > 0 ==> holds_one_of(e.metadata.categories@, q.categories@))
    &&& (q.author matches Some(a) ==> e.metadata.author@ == a@)
    &&& (q.min_rating matches Some(m) ==> e.rating >= m)
}

/// The lowercased words of a query, if it has any.
pub open spec fn query_words(q: SearchQuery) -> Option<Seq<char>> {
    match q.query {
        Some(t) => Some(lowercase(t@)),
        None => None,
    }
}

/// How well `e` answers the words `w`: 2 when its lowercased name holds
/// them, else 1; 1 for every plugin when there are no words.
pub open spec fn relevance(e: RegistryEntry, w: Option<Seq<char>>) -> int {
    match w {
        Some(t) => if seq_contains(lowercase(e.metadata.name@), t) { 2 } else { 1 },
        None => 1,
    }
}

/// Whether `a` goes strictly ahead of `b` in the order `by`: a higher
/// relevance to `w`, more downloads, a higher rating, a later update, a
/// later creation, or a name earlier in lexicographic order.
pub open spec fn goes_ahead(by: SortBy, w: Option<Seq<char>>, a: RegistryEntry, b: RegistryEntry) -> bool {
    match by {
        SortBy::Relevance => relevance(a, w) > relevance(b, w),
        SortBy::Downloads => a.download_count > b.download_count,
        SortBy::Rating => a.rating > b.rating,
        SortBy::Updated => a.metadata.updated_at > b.metadata.updated_at,
        SortBy::Created => a.metadata.created_at > b.metadata.created_at,
        SortBy::Name => seq_less(a.metadata.name@, b.metadata.name@),
    }
}

/// The order of a search by `by` for the words `w`, as a relation: whether
/// one entry goes strictly ahead of another.
pub open spec fn search_order(by: SortBy, w: Option<Seq<char>>) -> spec_fn(RegistryEntry, RegistryEntry) -> bool {
    |a: RegistryEntry, b: RegistryEntry| goes_ahead(by, w, a, b)
}

/// The entries of `es` that a registry search with `q` shows: those that
/// pass its filters, in its order, cut to the page it asks for.
pub open spec fn search_page(es: Seq<RegistryEntry>, q: SearchQuery) -> Seq<RegistryEntry> {
    let sorted = ordered_by(es.filter(|e: RegistryEntry| passes_query(e, q)), search_order(q.sort_by, query_words(q)));
    let b = page_bounds(sorted.len() as int, q.pagination.page as int, q.pagination.page_size as int);
    sorted.subrange(b.0, b.1)
}

/// The entries of `es` at the positions `idx`.
pub open spec fn picked(es: Seq<RegistryEntry>, idx: Seq<usize>) -> Seq<RegistryEntry> {
    idx.map_values(|i: usize| es[i as int])
}

/// Going ahead is asymmetric.
proof fn lemma_ahead_asymmetric(by: SortBy, w: Option<Seq<char>>, a: RegistryEntry, b: RegistryEntry)
    requires
        goes_ahead(by, w, a, b),
    ensures
        !goes_ahead(by, w, b, a),
{
    if by == SortBy::Name {
        lemma_seq_less_asymmetric(a.metadata.name@, b.metadata.name@);
    }
}

/// Not going ahead chains.
proof fn lemma_not_ahead_chains(by: SortBy, w: Option<Seq<char>>, a: RegistryEntry, b: RegistryEntry, c: RegistryEntry)
    requires
        !goes_ahead(by, w, a, b),
        !goes_ahead(by, w, b, c),
    ensures
        !goes_ahead(by, w, a, c),
{
    if by == SortBy::Name {
        let (na, nb, nc) = (a.metadata.name@, b.metadata.name@, c.metadata.name@);
        if seq_less(na, nc) {
            lemma_seq_less_total(na, nb);
            lemma_seq_less_total(nb, nc);
            if na != nb {
                if nb == nc {
                    lemma_seq_less_asymmetric(na, nc);
                } else {
                    crate::marketplace::package_manager::lemma_seq_less_transitive(nc, nb, na);
                    lemma_seq_less_asymmetric(na, nc);
                }
            }
        }
    }
}

/// Each order of a search is an order: no two entries go ahead of each
/// other, and not going ahead chains.
pub proof fn lemma_search_order_orders(by: SortBy, w: Option<Seq<char>>)
    ensures
        orders(search_order(by, w)),
{
    let f = search_order(by, w);
    assert forall|a: RegistryEntry, b: RegistryEntry| #[trigger] f(a, b) implies !f(b, a) by {
        lemma_ahead_asymmetric(by, w, a, b);
    }
    assert forall|a: RegistryEntry, b: RegistryEntry, c: RegistryEntry| !#[trigger] f(a, b) && !#[trigger] f(b, c) implies !f(a, c) by {
        lemma_not_ahead_chains(by, w, a, b, c);
    }
}

/// Every entry a registry search shows passes its filters, and the page it
/// shows is in its order.
pub proof fn lemma_search_page_passes(es: Seq<RegistryEntry>, q: SearchQuery)
    ensures
        forall|k: int| 0 <= k < search_page(es, q).len() ==> passes_query(#[trigger] search_page(es, q)[k], q),
        in_order_by(search_page(es, q), search_order(q.sort_by, query_words(q))),
{
    broadcast use vstd::seq_lib::group_to_multiset_ensures;
    let pred = |e: RegistryEntry| passes_query(e, q);
    let found = es.filter(pred);
    let order = search_order(q.sort_by, query_words(q));
    let sorted = ordered_by(found, order);
    lemma_search_order_orders(q.sort_by, query_words(q));
    lemma_ordered_by_in_order(found, order);
    let b = page_bounds(sorted.len() as int, q.pagination.page as int, q.pagination.page_size as int);
    let page = sorted.subrange(b.0, b.1);
    assert(page == search_page(es, q));
    assert forall|k: int| 0 <= k < page.len() implies passes_query(#[trigger] page[k], q) by {
        let y = page[k];
        assert(y == sorted[b.0 + k]);
        assert(sorted.contains(y));
        assert(sorted.to_multiset().count(y) > 0);
        assert(found.to_multiset().count(y) > 0);
        assert(found.contains(y));
        let i = choose|i: int| 0 <= i < found.len() && found[i] == y;
        es.lemma_filter_pred(pred, i);
    }
    assert forall|i: int, j: int| 0 <= i < j < page.len() implies !order(#[trigger] page[j], #[trigger] page[i]) by {
        assert(page[i] == sorted[b.0 + i] && page[j] == sorted[b.0 + j]);
    }
}

/// How a registry search orders the page it shows, read on the entries:
/// with words, an entry whose lowercased name holds them comes before any
/// whose name does not; by downloads, rating, update or creation, the
/// earlier of two entries has at least as many downloads, as high a rating,
/// as late an update or as late a creation; by name, the earlier's name
/// comes no later in lexicographic order.
pub proof fn lemma_search_page_by_fields(es: Seq<RegistryEntry>, q: SearchQuery)
    ensures
        forall|i: int, j: int| 0 <= i < j < search_page(es, q).len() ==> {
            let a = #[trigger] search_page(es, q)[i];
            let b = #[trigger] search_page(es, q)[j];
            match q.sort_by {
                SortBy::Relevance => q.query matches Some(t) ==> (seq_contains(lowercase(b.metadata.name@), lowercase(t@))
                    ==> seq_contains(lowercase(a.metadata.name@), lowercase(t@))),
                SortBy::Downloads => a.download_count >= b.download_count,
                SortBy::Rating => a.rating >= b.rating,
                SortBy::Updated => a.metadata.updated_at >= b.metadata.updated_at,
                SortBy::Created => a.metadata.created_at >= b.metadata.created_at,
                SortBy::Name => !seq_less(b.metadata.name@, a.metadata.name@),
            }
        },
{
    lemma_search_page_passes(es, q);
    let page = search_page(es, q);
    let order = search_order(q.sort_by, query_words(q));
    assert forall|i: int, j: int| 0 <= i < j < page.len() implies {
        let a = #[trigger] page[i];
        let b = #[trigger] page[j];
        match q.sort_by {
            SortBy::Relevance => q.query matches Some(t) ==> (seq_contains(lowercase(b.metadata.name@), lowercase(t@))
                ==> seq_contains(lowercase(a.metadata.name@), lowercase(t@))),
            SortBy::Downloads => a.download_count >= b.download_count,
            SortBy::Rating => a.rating >= b.rating,
            SortBy::Updated => a.metadata.updated_at >= b.metadata.updated_at,
            SortBy::Created => a.metadata.created_at >= b.metadata.created_at,
            SortBy::Name => !seq_less(b.metadata.name@, a.metadata.name@),
        }
    } by {
        assert(!order(page[j], page[i]));
    }
}

/// Whether `e` mentions `t`, as [`mentions`] states it.
fn entry_mentions(e: &RegistryEntry, t: &str) -> (b: bool)
    ensures
        b == mentions(*e, t@),
{
    let name = to_lowercase(e.metadata.name.as_str());
    if str_contains(name.as_str(), t) {
        return true;
    }
    let description = to_lowercase(e.metadata.description.as_str());
    if str_contains(description.as_str(), t) {
        return true;
    }
    let keywords = &e.metadata.keywords;
    let mut k: usize = 0;
    while k < keywords.len()
        invariant
            k <= keywords@.len(),
            keywords@ == e.metadata.keywords@,
            !seq_contains(lowercase(e.metadata.name@), t@),
            !seq_contains(lowercase(e.metadata.description@), t@),
            forall|j: int| 0 <= j < k ==> !seq_contains(lowercase(#[trigger] keywords@[j]@), t@),
        decreases keywords.len() - k,
    {
        let kw = to_lowercase(keywords[k].as_str());
        if str_contains(kw.as_str(), t) {
            return true;
        }
        k = k + 1;
    }
    false
}

/// Whether `e` passes the filters of `q`, `words` being its lowercased
/// words.
fn entry_passes(e: &RegistryEntry, q: &SearchQuery, words: &Option<String>) -> (b: bool)
    requires
        opt_chars(*words) == query_words(*q),
    ensures
        b == passes_query(*e, *q),
{
    match words {
        Some(t) => {
            if !entry_mentions(e, t.as_str()) {
                return false;
            }
        },
        None => {},
    }
    if q.categories.len() > 0 && !has_one_of(&e.metadata.categories, &q.categories) {
        return false;
    }
    match &q.author {
        Some(a) => {
            if !crate::text::str_eq(e.metadata.author.as_str(), a.as_str()) {
                return false;
            }
        },
        None => {},
    }
    match q.min_rating {
        Some(m) => e.rating >= m,
        None => true,
    }
}

/// How well `e` answers the lowercased words `t`.
fn relevance_of(e: &RegistryEntry, t: &str) -> (r: u8)
    ensures
        r == relevance(*e, Some(t@)),
{
    let name = to_lowercase(e.metadata.name.as_str());
    if str_contains(name.as_str(), t) { 2 } else { 1 }
}

/// Whether `a` goes strictly ahead of `b` in the order `by`.
fn entry_goes_ahead(by: SortBy, words: &Option<String>, a: &RegistryEntry, b: &RegistryEntry) -> (r: bool)
    ensures
        r == goes_ahead(by, opt_chars(*words), *a, *b),
{
    match by {
        SortBy::Relevance => match words {
            Some(t) => relevance_of(a, t.as_str()) > relevance_of(b, t.as_str()),
            None => false,
        },
        SortBy::Downloads => a.download_count > b.download_count,
        SortBy::Rating => a.rating > b.rating,
        SortBy::Updated => a.metadata.updated_at > b.metadata.updated_at,
        SortBy::Created => a.metadata.created_at > b.metadata.created_at,
        SortBy::Name => str_less(a.metadata.name.as_str(), b.metadata.name.as_str()),
    }
}

/// The registry's figures.
#[derive(Debug, Clone)]
pub struct RegistryCounts {
    pub total_plugins: u64,
    pub total_downloads: u64,
    pub new_plugins_this_month: u64,
    /// At most five categories with how often they are named, most first.
    pub top_categories: Vec<(String, u64)>,
}

/// The registered plugins, by identifier, in the order they arrived.
pub struct PluginRegistry {
    cache: KeyedList<RegistryEntry>,
}

impl PluginRegistry {
    pub closed spec fn wf(self) -> bool {
        self.cache.wf()
    }

    /// The entries by identifier.
    pub closed spec fn entries(self) -> Map<Seq<char>, RegistryEntry> {
        self.cache.map()
    }

    /// The entries in the order their identifiers arrived.
    pub closed spec fn entry_list(self) -> Seq<RegistryEntry> {
        self.cache.entries().map_values(|e: (String, RegistryEntry)| e.1)
    }

    /// An empty registry.
    pub fn new() -> (r: Self)
        ensures
            r.wf(),
            r.entries() == Map::<Seq<char>, RegistryEntry>::empty(),
            r.entry_list().len() == 0,
    {
        let r = PluginRegistry { cache: KeyedList::new() };
        assert(r.entry_list() =~= Seq::<RegistryEntry>::empty()) by {
            r.cache.lemma_model();
        }
        r
    }

    /// Registers `entry` under its identifier: refused when that identifier
    /// is taken or the metadata fails its check.
    pub fn register_plugin(&mut self, entry: RegistryEntry) -> (r: WasmResult<()>)
        requires
            old(self).wf(),
        ensures
            final(self).wf(),
            old(self).entries().contains_key(entry.metadata.id@) ==> (r matches Err(WasmError::PluginExecution(m)) && m@
                == "插件ID "@ + entry.metadata.id@ + " 已存在"@ && final(self).entries() == old(self).entries()),
            !old(self).entries().contains_key(entry.metadata.id@) ==> match metadata_problem(entry.metadata) {
                Some(p) => r matches Err(WasmError::PluginExecution(m)) && m@ == p && final(self).entries() == old(
                    self,
                ).entries(),
                None => r is Ok && final(self).entries() == old(self).entries().insert(entry.metadata.id@, entry),
            },
    {
        if self.cache.contains_key(entry.metadata.id.as_str()) {
            let a = concat("插件ID ", entry.metadata.id.as_str());
            return Err(WasmError::PluginExecution(concat(a.as_str(), " 已存在")));
        }
        match validate_plugin_metadata(&entry.metadata) {
            Err(e) => return Err(e),
            Ok(_) => {},
        }
        let id = owned(entry.metadata.id.as_str());
        self.cache.insert(id, entry);
        Ok(())
    }

    /// Replaces the entry of `plugin_id` with `entry`: refused when there is
    /// none or the metadata fails its check.
    pub fn update_plugin(&mut self, plugin_id: &str, entry: RegistryEntry) -> (r: WasmResult<()>)
        requires
            old(self).wf(),
        ensures
            final(self).wf(),
            !old(self).entries().contains_key(plugin_id@) ==> (r matches Err(WasmError::PluginExecution(m)) && m@
                == "插件 "@ + plugin_id@ + " 不存在"@ && final(self).entries() == old(self).entries()),
            old(self).entries().contains_key(plugin_id@) ==> match metadata_problem(entry.metadata) {
                Some(p) => r matches Err(WasmError::PluginExecution(m)) && m@ == p && final(self).entries() == old(
                    self,
                ).entries(),
                None => r is Ok && final(self).entries() == old(self).entries().insert(plugin_id@, entry),
            },
    {
        if !self.cache.contains_key(plugin_id) {
            let a = concat("插件 ", plugin_id);
            return Err(WasmError::PluginExecution(concat(a.as_str(), " 不存在")));
        }
        match validate_plugin_metadata(&entry.metadata) {
            Err(e) => return Err(e),
            Ok(_) => {},
        }
        self.cache.insert(owned(plugin_id), entry);
        Ok(())
    }

    /// Removes the entry of `plugin_id`: refused when there is none.
    pub fn delete_plugin(&mut self, plugin_id: &str) -> (r: WasmResult<()>)
        requires
            old(self).wf(),
        ensures
            final(self).wf(),
            !old(self).entries().contains_key(plugin_id@) ==> (r matches Err(WasmError::PluginExecution(m)) && m@
                == "插件 "@ + plugin_id@ + " 不存在"@ && final(self).entries() == old(self).entries()),
            old(self).entries().contains_key(plugin_id@) ==> r is Ok && final(self).entries() == old(
                self,
            ).entries().remove(plugin_id@),
    {
        if !self.cache.contains_key(plugin_id) {
            let a = concat("插件 ", plugin_id);
            return Err(WasmError::PluginExecution(concat(a.as_str(), " 不存在")));
        }
        self.cache.remove(plugin_id);
        Ok(())
    }

    /// The entry of `plugin_id`, if registered.
    pub fn get_plugin(&self, plugin_id: &str) -> (r: Option<&RegistryEntry>)
        requires
            self.wf(),
        ensures
            match r {
                Some(e) => self.entries().contains_key(plugin_id@) && *e == self.entries()[plugin_id@],
                None => !self.entries().contains_key(plugin_id@),
            },
    {
        self.cache.get(plugin_id)
    }

    /// How many times each category is named over the registered plugins,
    /// by category, in the order categories are first named.
    pub fn category_counts(&self) -> (counts: KeyedList<u64>)
        requires
            self.wf(),
            category_total(self.entry_list()) < u64::MAX,
        ensures
            counts.wf(),
            forall|c: Seq<char>| #[trigger] counts.map().contains_key(c) <==> category_count(self.entry_list(), c) > 0,
            forall|c: Seq<char>| #[trigger] counts.map().contains_key(c) ==> counts.map()[c] == category_count(
                self.entry_list(),
                c,
            ),
    {
        let ghost es = self.entry_list();
        let n = self.cache.entry_count();
        let mut counts: KeyedList<u64> = KeyedList::new();
        let mut i: usize = 0;
        proof {
            self.cache.lemma_model();
            lemma_category_total_prefix(es, 0);
        }
        while i < n
            invariant
                n == es.len(),
                es == self.entry_list(),
                es == self.cache.entries().map_values(|e: (String, RegistryEntry)| e.1),
                n == self.cache.entries().len(),
                i <= n,
                counts.wf(),
                category_total(es) < u64::MAX,
                forall|c: Seq<char>| #[trigger] counts.map().contains_key(c) <==> category_count(es.subrange(0, i as int), c) > 0,
                forall|c: Seq<char>| #[trigger] counts.map().contains_key(c) ==> counts.map()[c] == category_count(
                    es.subrange(0, i as int),
                    c,
                ),
            decreases n - i,
        {
            let (_id, entry) = self.cache.entry_at(i);
            assert(*entry == es[i as int]);
            let cats = &entry.metadata.categories;
            let ghost prefix = es.subrange(0, i as int);
            let mut j: usize = 0;
            proof {
                lemma_category_total_prefix(es, i as int);
            }
            while j < cats.len()
                invariant
                    counts.wf(),
                    j <= cats@.len(),
                    category_total(prefix) + cats@.len() <= category_total(es),
                    category_total(es) < u64::MAX,
                    forall|c: Seq<char>| #[trigger] counts.map().contains_key(c) <==> category_count(prefix, c)
                        + occurrences(cats@.subrange(0, j as int), c) > 0,
                    forall|c: Seq<char>| #[trigger] counts.map().contains_key(c) ==> counts.map()[c] == category_count(
                        prefix,
                        c,
                    ) + occurrences(cats@.subrange(0, j as int), c),
                decreases cats.len() - j,
            {
                let name = &cats[j];
                let ghost x = name@;
                proof {
                    assert(cats@.subrange(0, j + 1).drop_last() =~= cats@.subrange(0, j as int));
                    lemma_category_count_bounded(prefix, x);
                    lemma_occurrences_bounded(cats@.subrange(0, j as int), x);
                }
                let current: u64 = match counts.get(name.as_str()) {
                    Some(v) => *v,
                    None => 0,
                };
                assert(current == category_count(prefix, x) + occurrences(cats@.subrange(0, j as int), x));
                let ghost before = counts.map();
                counts.insert(owned(name.as_str()), current + 1);
                proof {
                    assert forall|c: Seq<char>| #[trigger] counts.map().contains_key(c) <==> category_count(prefix, c)
                        + occurrences(cats@.subrange(0, j + 1), c) > 0 by {
                        if c != x {
                            assert(before.contains_key(c) == counts.map().contains_key(c));
                        }
                    }
                }
                j = j + 1;
            }
            proof {
                assert(cats@.subrange(0, cats@.len() as int) =~= cats@);
                assert(es.subrange(0, i + 1).drop_last() =~= prefix);
                assert(es.subrange(0, i + 1).last() == es[i as int]);
            }
            i = i + 1;
        }
        assert(es.subrange(0, n as int) =~= es);
        counts
    }

    /// The registry's figures: how many plugins, their downloads, how many
    /// were created at or after `month_start`, and the five categories named
    /// most, each with how often it is named.
    pub fn stats_at(&self, month_start: i64) -> (s: RegistryCounts)
        requires
            self.wf(),
            category_total(self.entry_list()) < u64::MAX,
            download_total(self.entry_list()) <= u64::MAX,
        ensures
            s.total_plugins == self.entries().dom().len(),
            s.total_downloads == download_total(self.entry_list()),
            s.new_plugins_this_month == created_since(self.entry_list(), month_start),
            top_named(self.entry_list(), pair_views(s.top_categories@)),
    {
        let ghost es = self.entry_list();
        let n = self.cache.entry_count();
        proof {
            self.cache.lemma_model();
        }
        let mut downloads: u64 = 0;
        let mut fresh: u64 = 0;
        let mut i: usize = 0;
        while i < n
            invariant
                n == es.len(),
                es == self.cache.entries().map_values(|e: (String, RegistryEntry)| e.1),
                n == self.cache.entries().len(),
                i <= n,
                download_total(es) <= u64::MAX,
                downloads == download_total(es.subrange(0, i as int)),
                fresh == created_since(es.subrange(0, i as int), month_start),
                fresh <= i,
            decreases n - i,
        {
            let (_id, entry) = self.cache.entry_at(i);
            assert(*entry == es[i as int]);
            proof {
                assert(es.subrange(0, i + 1).drop_last() =~= es.subrange(0, i as int));
                lemma_download_total_prefix(es, i + 1);
            }
            downloads = downloads + entry.download_count;
            if entry.metadata.created_at >= month_start {
                fresh = fresh + 1;
            }
            i = i + 1;
        }
        assert(es.subrange(0, n as int) =~= es);
        let counts = self.category_counts();
        let m = counts.entry_count();
        let mut pairs: Vec<(String, u64)> = Vec::new();
        let mut k: usize = 0;
        proof {
            counts.lemma_model();
        }
        while k < m
            invariant
                counts.wf(),
                m == counts.entries().len(),
                k <= m,
                pairs@.len() == k,
                forall|c: Seq<char>| #[trigger] counts.map().contains_key(c) <==> category_count(es, c) > 0,
                forall|c: Seq<char>| #[trigger] counts.map().contains_key(c) ==> counts.map()[c] == category_count(es, c),
                forall|q: int| 0 <= q < m ==> #[trigger] counts.map()[counts.entries()[q].0@] == counts.entries()[q].1
                    && counts.map().contains_key(counts.entries()[q].0@),
                forall|q: int| 0 <= q < k ==> (#[trigger] pairs@[q]).0@ == counts.entries()[q].0@ && pairs@[q].1
                    == counts.entries()[q].1,
            decreases m - k,
        {
            let (name, count) = counts.entry_at(k);
            pairs.push((owned(name.as_str()), *count));
            k = k + 1;
        }
        let ghost unsorted = pair_views(pairs@);
        proof {
            assert(names_of(unsorted) =~= counts.key_order());
            assert forall|q: int| 0 <= q < unsorted.len() implies (#[trigger] unsorted[q]).1 == category_count(
                es,
                unsorted[q].0,
            ) && category_count(es, unsorted[q].0) > 0 by {
                assert(unsorted[q] == (pairs@[q].0@, pairs@[q].1));
                assert(counts.map()[counts.entries()[q].0@] == counts.entries()[q].1);
                assert(counts.map().contains_key(counts.entries()[q].0@));
            }
            assert forall|c: Seq<char>| #[trigger] category_count(es, c) > 0 implies names_of(unsorted).contains(c) by {
                assert(counts.map().dom().contains(c));
                assert(counts.key_order().to_set().contains(c));
            }
        }
        let sorted = sort_by_count_desc(pairs);
        let mut top: Vec<(String, u64)> = Vec::new();
        let mut t: usize = 0;
        let ghost sv = pair_views(sorted@);
        while t < sorted.len() && t < 5
            invariant
                t <= sorted@.len(),
                t <= 5,
                sv == pair_views(sorted@),
                pair_views(top@) == sv.subrange(0, t as int),
            decreases sorted.len() - t,
        {
            let ghost before = top@;
            top.push((owned(sorted[t].0.as_str()), sorted[t].1));
            assert(pair_views(top@) =~= sv.subrange(0, t + 1)) by {
                assert(pair_views(top@) =~= pair_views(before).push((sorted@[t as int].0@, sorted@[t as int].1)));
            }
            t = t + 1;
        }
        proof {
            lemma_top_named(es, unsorted, sv, t as int);
        }
        let total = self.cache.len();
        RegistryCounts {
            total_plugins: total as u64,
            total_downloads: downloads,
            new_plugins_this_month: fresh,
            top_categories: top,
        }
    }

    /// The listings of the registered plugins, in the order their
    /// identifiers arrived.
    pub fn list_plugins(&self) -> (r: Vec<PluginSummary>)
        requires
            self.wf(),
        ensures
            r@.len() == self.entry_list().len(),
            forall|k: int| 0 <= k < r@.len() ==> summarizes(#[trigger] r@[k], self.entry_list()[k]),
    {
        let ghost es = self.entry_list();
        proof {
            self.cache.lemma_model();
        }
        let n = self.cache.entry_count();
        let mut r: Vec<PluginSummary> = Vec::new();
        let mut i: usize = 0;
        while i < n
            invariant
                n == es.len(),
                es == self.cache.entries().map_values(|e: (String, RegistryEntry)| e.1),
                n == self.cache.entries().len(),
                i <= n,
                r@.len() == i,
                forall|k: int| 0 <= k < i ==> summarizes(#[trigger] r@[k], es[k]),
            decreases n - i,
        {
            let (_id, entry) = self.cache.entry_at(i);
            assert(*entry == es[i as int]);
            r.push(summarize(entry));
            i = i + 1;
        }
        r
    }

    /// Whether the entry at `x` goes strictly ahead of the one at `y` in
    /// the order `by`.
    fn goes_ahead_at(&self, by: SortBy, words: &Option<String>, x: usize, y: usize) -> (r: bool)
        requires
            x < self.entry_list().len(),
            y < self.entry_list().len(),
        ensures
            r == goes_ahead(by, opt_chars(*words), self.entry_list()[x as int], self.entry_list()[y as int]),
    {
        let (_a, ea) = self.cache.entry_at(x);
        let (_b, eb) = self.cache.entry_at(y);
        entry_goes_ahead(by, words, ea, eb)
    }

    /// The listings of the plugins that pass the filters of `query`
    /// (words in the lowercased name, description or keywords; one of the
    /// categories; the author; the lowest rating), in its order, equal ones
    /// keeping the order their identifiers arrived in, cut to its page.
    pub fn search_plugins(&self, query: &SearchQuery) -> (r: WasmResult<Vec<PluginSummary>>)
        requires
            self.wf(),
            query.pagination.page * query.pagination.page_size <= u32::MAX,
        ensures
            r matches Ok(v) && v@.len() == search_page(self.entry_list(), *query).len() && forall|k: int|
                0 <= k < v@.len() ==> summarizes(#[trigger] v@[k], search_page(self.entry_list(), *query)[k]),
    {
        let ghost es = self.entry_list();
        let ghost pred = |e: RegistryEntry| passes_query(e, *query);
        let ghost w = query_words(*query);
        let words: Option<String> = match &query.query {
            Some(t) => Some(to_lowercase(t.as_str())),
            None => None,
        };
        proof {
            self.cache.lemma_model();
        }
        let n = self.cache.entry_count();
        let mut found: Vec<usize> = Vec::new();
        let mut i: usize = 0;
        while i < n
            invariant
                n == es.len(),
                es == self.entry_list(),
                es == self.cache.entries().map_values(|e: (String, RegistryEntry)| e.1),
                n == self.cache.entries().len(),
                i <= n,
                opt_chars(words) == query_words(*query),
                pred == (|e: RegistryEntry| passes_query(e, *query)),
                forall|k: int| 0 <= k < found@.len() ==> #[trigger] found@[k] < n,
                picked(es, found@) == es.subrange(0, i as int).filter(pred),
            decreases n - i,
        {
            let (_id, entry) = self.cache.entry_at(i);
            assert(*entry == es[i as int]);
            let ghost before = es.subrange(0, i as int);
            assert(es.subrange(0, i + 1) =~= before.push(es[i as int]));
            proof {
                lemma_filter_push(before, pred, es[i as int]);
            }
            if entry_passes(entry, query, &words) {
                let ghost f = found@;
                found.push(i);
                assert(picked(es, found@) =~= picked(es, f).push(es[i as int]));
            }
            i = i + 1;
        }
        assert(es.subrange(0, n as int) =~= es);
        let ghost fs = picked(es, found@);
        let mut order: Vec<usize> = Vec::new();
        let mut k: usize = 0;
        assert(fs.subrange(0, 0) =~= Seq::<RegistryEntry>::empty());
        assert(picked(es, order@) =~= Seq::<RegistryEntry>::empty());
        while k < found.len()
            invariant
                n == es.len(),
                es == self.entry_list(),
                opt_chars(words) == w,
                fs == picked(es, found@),
                k <= found@.len(),
                forall|j: int| 0 <= j < found@.len() ==> #[trigger] found@[j] < n,
                forall|j: int| 0 <= j < order@.len() ==> #[trigger] order@[j] < n,
                picked(es, order@) == ordered_by(fs.subrange(0, k as int), search_order(query.sort_by, w)),
            decreases found.len() - k,
        {
            let x = found[k];
            let ghost so = picked(es, order@);
            let mut pos: usize = order.len();
            while pos > 0 && self.goes_ahead_at(query.sort_by, &words, x, order[pos - 1])
                invariant
                    n == es.len(),
                    es == self.entry_list(),
                    opt_chars(words) == w,
                    x < n,
                    so == picked(es, order@),
                    pos <= order@.len(),
                    forall|j: int| 0 <= j < order@.len() ==> #[trigger] order@[j] < n,
                    forall|j: int| pos <= j < so.len() ==> goes_ahead(query.sort_by, w, es[x as int], #[trigger] so[j]),
                decreases pos,
            {
                pos = pos - 1;
            }
            proof {
                lemma_place_by_at(so, es[x as int], search_order(query.sort_by, w), pos as int);
                assert(fs.subrange(0, k + 1).drop_last() =~= fs.subrange(0, k as int));
                assert(fs.subrange(0, k + 1).last() == es[x as int]);
            }
            let ghost old_order = order@;
            order.insert(pos, x);
            assert(picked(es, order@) =~= so.insert(pos as int, es[x as int])) by {
                assert(order@ =~= old_order.insert(pos as int, x));
            }
            k = k + 1;
        }
        assert(fs.subrange(0, found@.len() as int) =~= fs);
        let ghost sorted = picked(es, order@);
        let page_size = query.pagination.page_size;
        let start: usize = (query.pagination.page * page_size) as usize;
        let mut out: Vec<PluginSummary> = Vec::new();
        if start < order.len() {
            let end: usize = if (start as u64) + (page_size as u64) < (order.len() as u64) {
                start + page_size as usize
            } else {
                order.len()
            };
            let mut j: usize = start;
            while j < end
                invariant
                    n == es.len(),
                    es == self.entry_list(),
                    es == self.cache.entries().map_values(|e: (String, RegistryEntry)| e.1),
                    n == self.cache.entries().len(),
                    sorted == picked(es, order@),
                    start <= j <= end <= order@.len(),
                    forall|q: int| 0 <= q < order@.len() ==> #[trigger] order@[q] < n,
                    out@.len() == j - start,
                    forall|q: int| 0 <= q < out@.len() ==> summarizes(#[trigger] out@[q], sorted[start + q]),
                decreases end - j,
            {
                let (_id, e) = self.cache.entry_at(order[j]);
                assert(*e == sorted[j as int]);
                out.push(summarize(e));
                j = j + 1;
            }
        }
        Ok(out)
    }

    /// The registered identifiers, in the order they arrived.
    pub fn list_plugin_ids(&self) -> (r: Vec<String>)
        requires
            self.wf(),
        ensures
            string_views(r@).to_set() == self.entries().dom(),
    {
        proof {
            self.cache.lemma_model();
        }
        let r = self.cache.keys();
        assert(string_views(r@).to_set() =~= self.entries().dom());
        r
    }
}

} // verus!
