//! Plugin reviews: submission with one review per user and plugin, votes,
//! reports, filtered and sorted listing, and per-plugin tallies. Instants
//! are milliseconds since the Unix epoch (UTC).

use vstd::prelude::*;
use crate::clock::{new_uuid_string, utc_now_millis};
use crate::keyed::KeyedList;
use crate::text::{owned, str_eq};
use crate::wasm_error::{WasmError, WasmResult};

verus! {

/// Where a review is in moderation.
#[derive(Debug, Clone, Copy, PartialEq, Eq, Structural)]
pub enum ReviewStatus {
    Published,
    Pending,
    Hidden,
    Deleted,
    Flagged,
}

/// What a review is about.
#[derive(Debug, Clone, Copy, PartialEq, Eq, Structural)]
pub enum ReviewTag {
    Performance,
    Usability,
    Documentation,
    Support,
    Features,
    Stability,
    Security,
}

/// A user's review of a plugin.
#[derive(Debug, Clone)]
pub struct PluginReview {
    pub id: String,
    pub plugin_id: String,
    pub user_id: String,
    pub username: String,
    /// From 1 to 5.
    pub rating: u8,
    pub title: String,
    pub content: String,
    pub created_at: i64,
    pub updated_at: i64,
    pub verified_purchase: bool,
    pub helpful_count: u32,
    pub unhelpful_count: u32,
    pub status: ReviewStatus,
    pub plugin_version: Option<String>,
    pub tags: Vec<ReviewTag>,
}

/// How listed reviews are ordered.
#[derive(Debug, Clone, Copy, PartialEq, Eq, Structural)]
pub enum ReviewSortBy {
    Newest,
    Oldest,
    MostHelpful,
    HighestRating,
    LowestRating,
}

/// Which reviews to list.
#[derive(Debug, Clone)]
pub struct ReviewFilter {
    pub rating: Option<u8>,
    pub verified_only: bool,
    pub tags: Vec<ReviewTag>,
    pub date_range: Option<(i64, i64)>,
    pub sort_by: ReviewSortBy,
}

/// Whether a vote finds a review helpful.
#[derive(Debug, Clone, Copy, PartialEq, Eq, Structural)]
pub enum VoteType {
    Helpful,
    Unhelpful,
}

/// A user's vote on a review.
#[derive(Debug, Clone)]
pub struct ReviewVote {
    pub id: String,
    pub review_id: String,
    pub user_id: String,
    pub vote_type: VoteType,
    pub created_at: i64,
}

/// Why a review is reported.
#[derive(Debug, Clone, Copy, PartialEq, Eq, Structural)]
pub enum ReportReason {
    Spam,
    Inappropriate,
    Misinformation,
    Harassment,
    Copyright,
    Other,
}

/// Where a report is.
#[derive(Debug, Clone, Copy, PartialEq, Eq, Structural)]
pub enum ReportStatus {
    Pending,
    Resolved,
    Dismissed,
}

/// A report of a review.
#[derive(Debug, Clone)]
pub struct ReviewReport {
    pub id: String,
    pub review_id: String,
    pub reporter_id: String,
    pub reason: ReportReason,
    pub description: String,
    pub created_at: i64,
    pub status: ReportStatus,
}

/// The counts behind a plugin's review statistics: published reviews, the
/// sum of their ratings, how many have each rating from 1 to 5, how many are
/// recent and how many are verified.
#[derive(Debug, Clone, Copy)]
pub struct ReviewCounts {
    pub total_reviews: u32,
    pub rating_sum: u128,
    pub rating_distribution: [u32; 5],
    pub reviews_last_30_days: u32,
    pub verified_reviews: u32,
}

/// A review with its texts as character sequences.
pub struct ReviewView {
    pub id: Seq<char>,
    pub plugin_id: Seq<char>,
    pub user_id: Seq<char>,
    pub username: Seq<char>,
    pub rating: u8,
    pub title: Seq<char>,
    pub content: Seq<char>,
    pub created_at: i64,
    pub updated_at: i64,
    pub verified_purchase: bool,
    pub helpful_count: u32,
    pub unhelpful_count: u32,
    pub status: ReviewStatus,
    pub plugin_version: Option<Seq<char>>,
    pub tags: Seq<ReviewTag>,
}

impl PluginReview {
    /// The review with texts as character sequences.
    pub open spec fn view(self) -> ReviewView {
        ReviewView {
            id: self.id@,
            plugin_id: self.plugin_id@,
            user_id: self.user_id@,
            username: self.username@,
            rating: self.rating,
            title: self.title@,
            content: self.content@,
            created_at: self.created_at,
            updated_at: self.updated_at,
            verified_purchase: self.verified_purchase,
            helpful_count: self.helpful_count,
            unhelpful_count: self.unhelpful_count,
            status: self.status,
            plugin_version: match self.plugin_version {
                Some(v) => Some(v@),
                None => None,
            },
            tags: self.tags@,
        }
    }

    /// A copy of the review.
    pub fn duplicate(&self) -> (r: Self)
        ensures
            r.view() == self.view(),
    {
        PluginReview {
            id: self.id.clone(),
            plugin_id: self.plugin_id.clone(),
            user_id: self.user_id.clone(),
            username: self.username.clone(),
            rating: self.rating,
            title: self.title.clone(),
            content: self.content.clone(),
            created_at: self.created_at,
            updated_at: self.updated_at,
            verified_purchase: self.verified_purchase,
            helpful_count: self.helpful_count,
            unhelpful_count: self.unhelpful_count,
            status: self.status,
            plugin_version: match &self.plugin_version {
                Some(v) => Some(v.clone()),
                None => None,
            },
            tags: copy_tags(&self.tags),
        }
    }
}

/// A copy of a list of tags.
fn copy_tags(tags: &Vec<ReviewTag>) -> (r: Vec<ReviewTag>)
    ensures
        r@ == tags@,
{
    let mut r: Vec<ReviewTag> = Vec::new();
    let mut i: usize = 0;
    while i < tags.len()
        invariant
            i <= tags@.len(),
            r@ == tags@.subrange(0, i as int),
        decreases tags.len() - i,
    {
        r.push(tags[i]);
        i = i + 1;
        assert(r@ =~= tags@.subrange(0, i as int));
    }
    assert(tags@.subrange(0, i as int) =~= tags@);
    r
}

/// Whether `r` is a published review of `plugin_id`.
pub open spec fn listed(r: ReviewView, plugin_id: Seq<char>) -> bool {
    r.plugin_id == plugin_id && r.status == ReviewStatus::Published
}

/// Whether `r` passes `filter`: the rating asked for, verified purchases only
/// when asked, one of the tags when some are given, and the date range.
pub open spec fn passes_filter(r: ReviewView, rating: Option<u8>, verified_only: bool, tags: Seq<ReviewTag>, date_range: Option<(i64, i64)>) -> bool {
    &&& (rating matches Some(x) ==> r.rating == x)
    &&& (verified_only ==> r.verified_purchase)
    &&& (tags.len() > 0 ==> exists|i: int| 0 <= i < tags.len() && r.tags.contains(#[trigger] tags[i]))
    &&& (date_range matches Some((start, end)) ==> start <= r.created_at <= end)
}

/// The key reviews are ordered by, ascending.
pub open spec fn sort_key(r: ReviewView, sort_by: ReviewSortBy) -> int {
    match sort_by {
        ReviewSortBy::Newest => -r.created_at,
        ReviewSortBy::Oldest => r.created_at as int,
        ReviewSortBy::MostHelpful => -r.helpful_count,
        ReviewSortBy::HighestRating => -r.rating,
        ReviewSortBy::LowestRating => r.rating as int,
    }
}

/// Whether `s` is in order of `sort_by`.
pub open spec fn sorted_reviews(s: Seq<ReviewView>, sort_by: ReviewSortBy) -> bool {
    forall|i: int, j: int| 0 <= i <= j < s.len() ==> sort_key(s[i], sort_by) <= sort_key(s[j], sort_by)
}

/// How sorted reviews stand, read on their fields: newest first has
/// creation times that never increase, oldest first ones that never
/// decrease; most helpful first has helpful counts that never increase;
/// highest rating first has ratings that never increase, lowest rating
/// first ones that never decrease.
pub proof fn lemma_sorted_reviews_by_fields(s: Seq<ReviewView>, sort_by: ReviewSortBy)
    requires
        sorted_reviews(s, sort_by),
    ensures
        forall|i: int, j: int| 0 <= i <= j < s.len() ==> match sort_by {
            ReviewSortBy::Newest => (#[trigger] s[i]).created_at >= (#[trigger] s[j]).created_at,
            ReviewSortBy::Oldest => s[i].created_at <= s[j].created_at,
            ReviewSortBy::MostHelpful => s[i].helpful_count >= s[j].helpful_count,
            ReviewSortBy::HighestRating => s[i].rating >= s[j].rating,
            ReviewSortBy::LowestRating => s[i].rating <= s[j].rating,
        },
{
    assert forall|i: int, j: int| 0 <= i <= j < s.len() implies match sort_by {
        ReviewSortBy::Newest => (#[trigger] s[i]).created_at >= (#[trigger] s[j]).created_at,
        ReviewSortBy::Oldest => s[i].created_at <= s[j].created_at,
        ReviewSortBy::MostHelpful => s[i].helpful_count >= s[j].helpful_count,
        ReviewSortBy::HighestRating => s[i].rating >= s[j].rating,
        ReviewSortBy::LowestRating => s[i].rating <= s[j].rating,
    } by {
        assert(sort_key(s[i], sort_by) <= sort_key(s[j], sort_by));
    }
}

/// The reviews of a list, as views.
pub open spec fn review_views(rs: Seq<PluginReview>) -> Seq<ReviewView> {
    rs.map_values(|r: PluginReview| r.view())
}

/// The page `page` of `page_size` items of a list of `n` items: its bounds.
pub open spec fn page_bounds(n: int, page: int, page_size: int) -> (int, int) {
    let start = page * page_size;
    let end = if start + page_size < n { start + page_size } else { n };
    if start < n { (start, end) } else { (0, 0) }
}

/// The sum of the ratings of `rs`.
pub open spec fn rating_total(rs: Seq<ReviewView>) -> int
    decreases rs.len(),
{
    if rs.len() == 0 { 0 } else { rating_total(rs.drop_last()) + rs.last().rating }
}

/// Whether a vote by `user_id` on `review_id` is in `votes`.
pub open spec fn vote_of(votes: Seq<(String, ReviewVote)>, review_id: Seq<char>, user_id: Seq<char>) -> Option<int> {
    if exists|i: int| 0 <= i < votes.len() && votes[i].1.review_id@ == review_id && votes[i].1.user_id@ == user_id {
        Some(choose|i: int| 0 <= i < votes.len() && votes[i].1.review_id@ == review_id && votes[i].1.user_id@ == user_id)
    } else {
        None
    }
}

/// Reviews, votes and reports.
#[derive(Debug)]
pub struct ReviewService {
    reviews: KeyedList<PluginReview>,
    votes: KeyedList<ReviewVote>,
    reports: KeyedList<ReviewReport>,
}

impl ReviewService {
    /// The maps keep their keys distinct, and each review is filed under its
    /// own identifier.
    pub closed spec fn wf(self) -> bool {
        &&& self.reviews.wf()
        &&& self.votes.wf()
        &&& self.reports.wf()
        &&& forall|k: Seq<char>| #[trigger] self.reviews.map().contains_key(k) ==> self.reviews.map()[k].id@ == k
    }

    /// The reviews by identifier.
    pub closed spec fn reviews(self) -> Map<Seq<char>, ReviewView> {
        self.reviews.map().map_values(|r: PluginReview| r.view())
    }

    /// The reviews in the order they were submitted.
    pub closed spec fn review_list(self) -> Seq<ReviewView> {
        self.reviews.entries().map_values(|e: (String, PluginReview)| e.1.view())
    }

    /// The number of votes cast.
    pub closed spec fn vote_count(self) -> nat {
        self.votes.entries().len()
    }

    /// The reports by identifier.
    pub closed spec fn reports(self) -> Map<Seq<char>, ReviewReport> {
        self.reports.map()
    }

    /// Whether `user_id` has reviewed `plugin_id`.
    pub open spec fn has_reviewed(self, plugin_id: Seq<char>, user_id: Seq<char>) -> bool {
        exists|k: Seq<char>| #[trigger] self.reviews().contains_key(k) && self.reviews()[k].plugin_id == plugin_id
            && self.reviews()[k].user_id == user_id
    }

    /// No review, vote or report.
    pub fn new() -> (s: Self)
        ensures
            s.wf(),
            s.reviews() == Map::<Seq<char>, ReviewView>::empty(),
            s.review_list().len() == 0,
            s.vote_count() == 0,
            s.reports() == Map::<Seq<char>, ReviewReport>::empty(),
    {
        let s = ReviewService { reviews: KeyedList::new(), votes: KeyedList::new(), reports: KeyedList::new() };
        assert(s.reviews() =~= Map::<Seq<char>, ReviewView>::empty());
        proof {
            s.reviews.lemma_model();
            s.votes.lemma_model();
            assert(s.votes.entries().len() == s.votes.key_order().len());
        }
        s
    }

    /// Whether some review of `plugin_id` is by `user_id`.
    fn find_review_by(&self, plugin_id: &str, user_id: &str) -> (b: bool)
        requires
            self.wf(),
        ensures
            b == self.has_reviewed(plugin_id@, user_id@),
    {
        let n = self.reviews.entry_count();
        let mut i: usize = 0;
        proof {
            self.reviews.lemma_model();
        }
        while i < n
            invariant
                self.wf(),
                n == self.reviews.entries().len(),
                i <= n,
                forall|j: int| 0 <= j < i ==> !(#[trigger] self.reviews.entries()[j].1.plugin_id@ == plugin_id@
                    && self.reviews.entries()[j].1.user_id@ == user_id@),
            decreases n - i,
        {
            let (_k, r) = self.reviews.entry_at(i);
            if str_eq(r.plugin_id.as_str(), plugin_id) && str_eq(r.user_id.as_str(), user_id) {
                proof {
                    self.reviews.lemma_model();
                    let k = self.reviews.entries()[i as int].0@;
                    assert(self.reviews.map()[k] == self.reviews.entries()[i as int].1);
                    assert(self.reviews().contains_key(k));
                }
                return true;
            }
            i = i + 1;
        }
        proof {
            self.reviews.lemma_model();
            if self.has_reviewed(plugin_id@, user_id@) {
                let k = choose|k: Seq<char>| #[trigger] self.reviews().contains_key(k) && self.reviews()[k].plugin_id
                    == plugin_id@ && self.reviews()[k].user_id == user_id@;
                assert(self.reviews.key_order().contains(k));
                let j = choose|j: int| 0 <= j < self.reviews.key_order().len() && self.reviews.key_order()[j] == k;
                assert(self.reviews.entries()[j].0@ == k);
                assert(self.reviews.map()[k] == self.reviews.entries()[j].1);
            }
        }
        false
    }

    /// Submits a published review by `user_id` of `plugin_id`, not verified
    /// as a purchase: an error when the rating is not from 1 to 5 or when the
    /// user has already reviewed the plugin.
    pub fn submit_review(
        &mut self,
        plugin_id: String,
        user_id: String,
        username: String,
        rating: u8,
        title: String,
        content: String,
        plugin_version: Option<String>,
        tags: Vec<ReviewTag>,
    ) -> (r: WasmResult<PluginReview>)
        requires
            old(self).wf(),
        ensures
            final(self).wf(),
            (rating < 1 || rating > 5) ==> (r matches Err(WasmError::PluginExecution(m)) && m@ == "评分必须在1-5之间"@
                && final(self).reviews() == old(self).reviews()),
            1 <= rating <= 5 && old(self).has_reviewed(plugin_id@, user_id@) ==> (r matches Err(
                WasmError::PluginExecution(m),
            ) && m@ == "您已经评论过该插件"@ && final(self).reviews() == old(self).reviews()),
            1 <= rating <= 5 && !old(self).has_reviewed(plugin_id@, user_id@) ==> (r matches Ok(rv) && rv.plugin_id@
                == plugin_id@ && rv.user_id@ == user_id@ && rv.username@ == username@ && rv.rating == rating
                && rv.title@ == title@ && rv.content@ == content@ && rv.status == ReviewStatus::Published
                && !rv.verified_purchase && rv.helpful_count == 0 && rv.unhelpful_count == 0 && rv.tags@ == tags@
                && rv.created_at >= 0 && rv.updated_at >= 0
                && final(self).reviews() == old(self).reviews().insert(rv.id@, rv.view())),
    {
        if rating < 1 || rating > 5 {
            return Err(WasmError::PluginExecution(String::from_str("评分必须在1-5之间")));
        }
        if self.find_review_by(plugin_id.as_str(), user_id.as_str()) {
            return Err(WasmError::PluginExecution(String::from_str("您已经评论过该插件")));
        }
        let created = utc_now_millis();
        let review = PluginReview {
            id: new_uuid_string(),
            plugin_id,
            user_id,
            username,
            rating,
            title,
            content,
            created_at: created,
            updated_at: utc_now_millis(),
            verified_purchase: false,
            helpful_count: 0,
            unhelpful_count: 0,
            status: ReviewStatus::Published,
            plugin_version,
            tags,
        };
        let stored = review.duplicate();
        self.reviews.insert(review.id.clone(), stored);
        assert(self.reviews() =~= old(self).reviews().insert(review.id@, review.view()));
        assert forall|k: Seq<char>| #[trigger] self.reviews.map().contains_key(k) implies self.reviews.map()[k].id@ == k by {
            if k != review.id@ {
                assert(old(self).reviews.map().contains_key(k));
            }
        }
        Ok(review)
    }

    /// Whether a review passes `filter`.
    fn passes(&self, r: &PluginReview, filter: &ReviewFilter) -> (b: bool)
        ensures
            b == passes_filter(r.view(), filter.rating, filter.verified_only, filter.tags@, filter.date_range),
    {
        match filter.rating {
            Some(x) => {
                if r.rating != x {
                    return false;
                }
            },
            None => {},
        }
        if filter.verified_only && !r.verified_purchase {
            return false;
        }
        if filter.tags.len() > 0 {
            let mut found = false;
            let mut i: usize = 0;
            while i < filter.tags.len()
                invariant
                    i <= filter.tags@.len(),
                    !found,
                    filter.rating matches Some(x) ==> r.rating == x,
                    filter.verified_only ==> r.verified_purchase,
                    forall|k: int| 0 <= k < i ==> !r.tags@.contains(#[trigger] filter.tags@[k]),
                decreases filter.tags.len() - i,
            {
                let t = filter.tags[i];
                let mut j: usize = 0;
                while j < r.tags.len()
                    invariant
                        i < filter.tags@.len(),
                        t == filter.tags@[i as int],
                        filter.rating matches Some(x) ==> r.rating == x,
                        filter.verified_only ==> r.verified_purchase,
                        j <= r.tags@.len(),
                        forall|q: int| 0 <= q < j ==> r.tags@[q] != t,
                    decreases r.tags.len() - j,
                {
                    if r.tags[j] == t {
                        assert(r.tags@[j as int] == filter.tags@[i as int]);
                        assert(r.tags@.contains(filter.tags@[i as int]));
                        return self.passes_dates(r, filter);
                    }
                    j = j + 1;
                }
                proof {
                    if r.tags@.contains(t) {
                        let q = choose|q: int| 0 <= q < r.tags@.len() && r.tags@[q] == t;
                    }
                }
                i = i + 1;
            }
            return false;
        }
        self.passes_dates(r, filter)
    }

    /// Whether a review falls in the filter's date range, the other
    /// conditions being met.
    fn passes_dates(&self, r: &PluginReview, filter: &ReviewFilter) -> (b: bool)
        requires
            filter.rating matches Some(x) ==> r.rating == x,
            filter.verified_only ==> r.verified_purchase,
            filter.tags@.len() > 0 ==> exists|i: int| 0 <= i < filter.tags@.len() && r.tags@.contains(
                #[trigger] filter.tags@[i],
            ),
        ensures
            b == passes_filter(r.view(), filter.rating, filter.verified_only, filter.tags@, filter.date_range),
    {
        match filter.date_range {
            Some((start, end)) => start <= r.created_at && r.created_at <= end,
            None => true,
        }
    }

    /// Copies of the reviews of `reviews` in order of `sort_by`, equal keys
    /// keeping their order.
    pub fn sort_reviews(&self, reviews: Vec<PluginReview>, sort_by: ReviewSortBy) -> (r: Vec<PluginReview>)
        ensures
            sorted_reviews(review_views(r@), sort_by),
            review_views(r@).to_multiset() == review_views(reviews@).to_multiset(),
            r@.len() == reviews@.len(),
    {
        broadcast use vstd::seq_lib::group_to_multiset_ensures;
        let mut out: Vec<PluginReview> = Vec::new();
        let mut i: usize = 0;
        while i < reviews.len()
            invariant
                i <= reviews@.len(),
                out@.len() == i,
                sorted_reviews(review_views(out@), sort_by),
                review_views(out@).to_multiset() == review_views(reviews@.subrange(0, i as int)).to_multiset(),
            decreases reviews.len() - i,
        {
            let x = reviews[i].duplicate();
            let mut pos: usize = 0;
            while pos < out.len() && Self::key_le(&out[pos], &x, sort_by)
                invariant
                    pos <= out@.len(),
                    forall|k: int| 0 <= k < pos ==> sort_key(out@[k].view(), sort_by) <= sort_key(x.view(), sort_by),
                decreases out.len() - pos,
            {
                pos = pos + 1;
            }
            let ghost before = review_views(out@);
            let ghost before_out = out@;
            let ghost xv = x.view();
            assert(xv == reviews@[i as int].view());
            assert(pos < out@.len() ==> sort_key(out@[pos as int].view(), sort_by) > sort_key(xv, sort_by));
            out.insert(pos, x);
            proof {
                assert(out@ =~= before_out.insert(pos as int, x));
                assert(review_views(out@) =~= before.insert(pos as int, xv));
                vstd::seq_lib::to_multiset_insert(before, pos as int, xv);
                assert(review_views(reviews@.subrange(0, i + 1)) =~= review_views(reviews@.subrange(0, i as int)).push(xv));
                vstd::seq_lib::to_multiset_build(review_views(reviews@.subrange(0, i as int)), xv);
                let now = review_views(out@);
                assert forall|a: int, b: int| 0 <= a <= b < now.len() implies sort_key(now[a], sort_by) <= sort_key(
                    now[b],
                    sort_by,
                ) by {
                    if a < pos {
                        assert(now[a] == before[a]);
                        assert(sort_key(before[a], sort_by) <= sort_key(xv, sort_by));
                    }
                    if b < pos {
                        assert(now[b] == before[b]);
                    } else if b == pos {
                        assert(now[b] == xv);
                    } else {
                        assert(now[b] == before[b - 1]);
                        assert(sort_key(xv, sort_by) < sort_key(before[pos as int], sort_by));
                        assert(sort_key(before[pos as int], sort_by) <= sort_key(before[b - 1], sort_by));
                    }
                    if a == pos {
                        assert(now[a] == xv);
                    } else if a > pos {
                        assert(now[a] == before[a - 1]);
                    }
                }
            }
            i = i + 1;
        }
        assert(reviews@.subrange(0, i as int) =~= reviews@);
        out
    }

    /// Whether `a` sorts no later than `b` under `sort_by`.
    fn key_le(a: &PluginReview, b: &PluginReview, sort_by: ReviewSortBy) -> (r: bool)
        ensures
            r == (sort_key(a.view(), sort_by) <= sort_key(b.view(), sort_by)),
    {
        match sort_by {
            ReviewSortBy::Newest => a.created_at >= b.created_at,
            ReviewSortBy::Oldest => a.created_at <= b.created_at,
            ReviewSortBy::MostHelpful => a.helpful_count >= b.helpful_count,
            ReviewSortBy::HighestRating => a.rating >= b.rating,
            ReviewSortBy::LowestRating => a.rating <= b.rating,
        }
    }

    /// The published reviews of `plugin_id` that pass `filter` (all of them
    /// without one), in order of the filter's sort (newest first without
    /// one): the page `page` of `page_size` of them, and how many there are
    /// in all, narrowed to 32 bits.
    pub fn get_plugin_reviews(&self, plugin_id: &str, filter: Option<ReviewFilter>, page: u32, page_size: u32) -> (r: WasmResult<(Vec<PluginReview>, u32)>)
        requires
            self.wf(),
            page * page_size <= u32::MAX,
        ensures
            r matches Ok((items, total)) && exists|all: Seq<ReviewView>| {
                &&& all.to_multiset() == self.review_list().filter(|v: ReviewView| listed(v, plugin_id@) && match filter {
                    Some(f) => passes_filter(v, f.rating, f.verified_only, f.tags@, f.date_range),
                    None => true,
                }).to_multiset()
                &&& sorted_reviews(all, match filter { Some(f) => f.sort_by, None => ReviewSortBy::Newest })
                &&& total == all.len() as u32
                &&& review_views(items@) == all.subrange(
                    page_bounds(all.len() as int, page as int, page_size as int).0,
                    page_bounds(all.len() as int, page as int, page_size as int).1,
                )
            },
    {
        let ghost pred = |v: ReviewView| listed(v, plugin_id@) && match filter {
            Some(f) => passes_filter(v, f.rating, f.verified_only, f.tags@, f.date_range),
            None => true,
        };
        let n = self.reviews.entry_count();
        let mut chosen: Vec<PluginReview> = Vec::new();
        let mut i: usize = 0;
        while i < n
            invariant
                n == self.reviews.entries().len(),
                n == self.review_list().len(),
                i <= n,
                pred == (|v: ReviewView| listed(v, plugin_id@) && match filter {
                    Some(f) => passes_filter(v, f.rating, f.verified_only, f.tags@, f.date_range),
                    None => true,
                }),
                review_views(chosen@) == self.review_list().subrange(0, i as int).filter(pred),
            decreases n - i,
        {
            let (_k, rv) = self.reviews.entry_at(i);
            let ghost before = self.review_list().subrange(0, i as int);
            assert(self.review_list().subrange(0, i + 1) =~= before.push(rv.view()));
            proof {
                crate::seqs::lemma_filter_push(before, pred, rv.view());
            }
            let keep = str_eq(rv.plugin_id.as_str(), plugin_id) && rv.status == ReviewStatus::Published && match &filter {
                Some(f) => self.passes(rv, f),
                None => true,
            };
            if keep {
                let ghost c = chosen@;
                chosen.push(rv.duplicate());
                assert(review_views(chosen@) =~= review_views(c).push(rv.view()));
            }
            i = i + 1;
        }
        assert(self.review_list().subrange(0, i as int) =~= self.review_list());
        let sort_by = match &filter {
            Some(f) => f.sort_by,
            None => ReviewSortBy::Newest,
        };
        let ghost chosen_views = review_views(chosen@);
        let sorted = self.sort_reviews(chosen, sort_by);
        let total = sorted.len() as u32;
        let start = (page * page_size) as usize;
        let mut items: Vec<PluginReview> = Vec::new();
        if start < sorted.len() {
            let end = if (start as u64) + (page_size as u64) < (sorted.len() as u64) {
                start + page_size as usize
            } else {
                sorted.len()
            };
            let mut j: usize = start;
            while j < end
                invariant
                    start <= j <= end <= sorted@.len(),
                    review_views(items@) == review_views(sorted@).subrange(start as int, j as int),
                decreases end - j,
            {
                let ghost it = items@;
                let d = sorted[j].duplicate();
                items.push(d);
                assert(review_views(items@) =~= review_views(it).push(sorted@[j as int].view()));
                assert(review_views(sorted@).subrange(start as int, j + 1) =~= review_views(sorted@).subrange(
                    start as int,
                    j as int,
                ).push(review_views(sorted@)[j as int]));
                j = j + 1;
            }
            assert(page_bounds(sorted@.len() as int, page as int, page_size as int) == (start as int, end as int));
        } else {
            assert(review_views(items@) =~= review_views(sorted@).subrange(0, 0));
        }
        proof {
            let all = review_views(sorted@);
            assert(all.len() == sorted@.len());
            assert(all.to_multiset() == chosen_views.to_multiset());
            assert(chosen_views == self.review_list().filter(pred));
        }
        Ok((items, total))
    }

    /// Casts `user_id`'s vote on review `review_id`: casting the same vote
    /// again withdraws it; casting the other vote replaces it. An error when
    /// there is no such review.
    pub fn vote_review(&mut self, review_id: String, user_id: String, vote_type: VoteType) -> (r: WasmResult<()>)
        requires
            old(self).wf(),
        ensures
            final(self).wf(),
            !old(self).reviews().contains_key(review_id@) ==> (r matches Err(WasmError::PluginExecution(m)) && m@
                == "评论不存在"@ && final(self).reviews() == old(self).reviews()),
            old(self).reviews().contains_key(review_id@) ==> r is Ok && final(self).reviews().dom() == old(
                self,
            ).reviews().dom(),
    {
        let review = match self.reviews.remove(review_id.as_str()) {
            Some(rv) => rv,
            None => {
                return Err(WasmError::PluginExecution(String::from_str("评论不存在")));
            },
        };
        let mut review = review;
        let n = self.votes.entry_count();
        let mut existing: Option<(String, VoteType)> = None;
        let mut i: usize = 0;
        while i < n
            invariant
                self.votes.wf(),
                n == self.votes.entries().len(),
                i <= n,
            decreases n - i,
        {
            let (k, v) = self.votes.entry_at(i);
            if str_eq(v.review_id.as_str(), review_id.as_str()) && str_eq(v.user_id.as_str(), user_id.as_str()) {
                existing = Some((k.clone(), v.vote_type));
                break;
            }
            i = i + 1;
        }
        let mut withdraw = false;
        match existing {
            Some((vote_id, old_type)) => {
                self.votes.remove(vote_id.as_str());
                match old_type {
                    VoteType::Helpful => review.helpful_count = review.helpful_count.saturating_sub(1),
                    VoteType::Unhelpful => review.unhelpful_count = review.unhelpful_count.saturating_sub(1),
                }
                if old_type == vote_type {
                    withdraw = true;
                }
            },
            None => {},
        }
        if !withdraw {
            let vote = ReviewVote {
                id: new_uuid_string(),
                review_id: review_id.clone(),
                user_id,
                vote_type,
                created_at: utc_now_millis(),
            };
            self.votes.insert(vote.id.clone(), vote);
            match vote_type {
                VoteType::Helpful => review.helpful_count = review.helpful_count.saturating_add(1),
                VoteType::Unhelpful => review.unhelpful_count = review.unhelpful_count.saturating_add(1),
            }
        }
        let ghost kept_id = review.id@;
        self.reviews.insert(review_id, review);
        assert(self.reviews().dom() =~= old(self).reviews().dom());
        assert forall|k: Seq<char>| #[trigger] self.reviews.map().contains_key(k) implies self.reviews.map()[k].id@ == k by {
            if k != kept_id {
                assert(old(self).reviews.map().contains_key(k));
            }
        }
        Ok(())
    }

    /// Files a pending report on review `review_id`; an error when there is
    /// no such review.
    pub fn report_review(&mut self, review_id: String, reporter_id: String, reason: ReportReason, description: String) -> (r: WasmResult<ReviewReport>)
        requires
            old(self).wf(),
        ensures
            final(self).wf(),
            final(self).reviews() == old(self).reviews(),
            !old(self).reviews().contains_key(review_id@) ==> (r matches Err(WasmError::PluginExecution(m)) && m@
                == "评论不存在"@),
            old(self).reviews().contains_key(review_id@) ==> (r matches Ok(rep) && rep.review_id@ == review_id@
                && rep.reporter_id@ == reporter_id@ && rep.reason == reason && rep.description@ == description@
                && rep.status == ReportStatus::Pending && final(self).reports().contains_key(rep.id@)),
    {
        if !self.reviews.contains_key(review_id.as_str()) {
            return Err(WasmError::PluginExecution(String::from_str("评论不存在")));
        }
        let report = ReviewReport {
            id: new_uuid_string(),
            review_id,
            reporter_id,
            reason,
            description,
            created_at: utc_now_millis(),
            status: ReportStatus::Pending,
        };
        let stored = ReviewReport {
            id: report.id.clone(),
            review_id: report.review_id.clone(),
            reporter_id: report.reporter_id.clone(),
            reason: report.reason,
            description: report.description.clone(),
            created_at: report.created_at,
            status: report.status,
        };
        self.reports.insert(report.id.clone(), stored);
        Ok(report)
    }

    /// The counts behind `plugin_id`'s statistics at `now`: its published
    /// reviews, the sum of their ratings, how many have each rating, how many
    /// were written in the 30 days before `now`, and how many are verified.
    pub fn review_counts(&self, plugin_id: &str, now: i64) -> (c: ReviewCounts)
        requires
            self.wf(),
        ensures
            c.total_reviews == self.review_list().filter(|v: ReviewView| listed(v, plugin_id@)).len() as u32,
            c.rating_sum == rating_total(self.review_list().filter(|v: ReviewView| listed(v, plugin_id@))),
    {
        let n = self.reviews.entry_count();
        let mut total: usize = 0;
        let mut sum: u128 = 0;
        let mut d1: u32 = 0;
        let mut d2: u32 = 0;
        let mut d3: u32 = 0;
        let mut d4: u32 = 0;
        let mut d5: u32 = 0;
        let mut recent: u32 = 0;
        let mut verified: u32 = 0;
        let thirty_days_ago: i64 = if now >= i64::MIN + 30 * 86_400_000 { now - 30 * 86_400_000 } else { i64::MIN };
        let ghost pred = |v: ReviewView| listed(v, plugin_id@);
        let mut i: usize = 0;
        while i < n
            invariant
                n == self.reviews.entries().len(),
                n == self.review_list().len(),
                i <= n,
                pred == (|v: ReviewView| listed(v, plugin_id@)),
                total == self.review_list().subrange(0, i as int).filter(pred).len(),
                total <= i,
                sum == rating_total(self.review_list().subrange(0, i as int).filter(pred)),
                sum <= 255 * total,
            decreases n - i,
        {
            let (_k, rv) = self.reviews.entry_at(i);
            let ghost before = self.review_list().subrange(0, i as int);
            assert(self.review_list().subrange(0, i + 1) =~= before.push(rv.view()));
            proof {
                crate::seqs::lemma_filter_push(before, pred, rv.view());
            }
            if str_eq(rv.plugin_id.as_str(), plugin_id) && rv.status == ReviewStatus::Published {
                let ghost fb = before.filter(pred);
                assert(before.push(rv.view()).filter(pred) == fb.push(rv.view()));
                assert(fb.push(rv.view()).drop_last() =~= fb);
                total = total + 1;
                sum = sum + rv.rating as u128;
                match rv.rating {
                    1 => d1 = d1.wrapping_add(1),
                    2 => d2 = d2.wrapping_add(1),
                    3 => d3 = d3.wrapping_add(1),
                    4 => d4 = d4.wrapping_add(1),
                    5 => d5 = d5.wrapping_add(1),
                    _ => {},
                }
                if rv.created_at > thirty_days_ago {
                    recent = recent.wrapping_add(1);
                }
                if rv.verified_purchase {
                    verified = verified.wrapping_add(1);
                }
            }
            i = i + 1;
        }
        assert(self.review_list().subrange(0, i as int) =~= self.review_list());
        ReviewCounts {
            total_reviews: total as u32,
            rating_sum: sum,
            rating_distribution: [d1, d2, d3, d4, d5],
            reviews_last_30_days: recent,
            verified_reviews: verified,
        }
    }
}

impl Default for ReviewService {
    fn default() -> (s: Self)
        ensures
            s.wf(),
            s.reviews() == Map::<Seq<char>, ReviewView>::empty(),
            s.review_list().len() == 0,
            s.vote_count() == 0,
            s.reports() == Map::<Seq<char>, ReviewReport>::empty(),
    {
        ReviewService::new()
    }
}

} // verus!
