//! The marketplace's API surface: response envelopes, the check of
//! authentication tokens, and the review endpoints over the marketplace's
//! review service. Instants are milliseconds since the Unix epoch (UTC).

use vstd::prelude::*;
use crate::clock::utc_now_millis;
use crate::marketplace::instance::DataFlareMarketplace;
use crate::marketplace::review::{
    listed, page_bounds, review_views, sorted_reviews, PluginReview as StoredReview, ReviewService, ReviewSortBy,
    ReviewStatus, ReviewTag, ReviewView,
};
use crate::marketplace::types::{ApiConfig, AuthToken, Pagination, PluginReview};
use crate::text::{concat, owned};
use crate::wasm_error::{WasmError, WasmResult};

verus! {

/// The envelope of every API answer.
#[derive(Debug, Clone)]
pub struct ApiResponse<T> {
    pub success: bool,
    pub data: Option<T>,
    pub error: Option<String>,
    /// When the answer was made.
    pub timestamp: i64,
}

/// A structured API error.
#[derive(Debug, Clone)]
pub struct ApiError {
    pub code: String,
    pub message: String,
    pub details: Option<String>,
}

/// A successful answer carrying `data`.
pub open spec fn ok_response<T>(r: ApiResponse<T>, data: T) -> bool {
    r.success && r.data == Some(data) && r.error is None
}

/// A failed answer carrying the message `msg`.
pub open spec fn err_response<T>(r: ApiResponse<T>, msg: Seq<char>) -> bool {
    !r.success && r.data is None && (r.error matches Some(e) && e@ == msg)
}

/// The check of a token at instant `now`: an expired token, then an empty
/// token or user, are refused with these messages.
pub open spec fn spec_auth_check(auth: AuthToken, now: i64) -> Result<(), Seq<char>> {
    if auth.expires_at < now {
        Err("认证令牌已过期"@)
    } else if auth.token@.len() == 0 || auth.user_id@.len() == 0 {
        Err("无效的认证令牌"@)
    } else {
        Ok(())
    }
}

/// A review as the API reports it, from a stored review.
pub open spec fn reported(v: ReviewView) -> (Seq<char>, Seq<char>, Seq<char>, u8, Seq<char>, i64, bool) {
    (v.id, v.user_id, v.username, v.rating, v.content, v.created_at, v.verified_purchase)
}

/// The fields of a reported review.
pub open spec fn reported_fields(r: PluginReview) -> (Seq<char>, Seq<char>, Seq<char>, u8, Seq<char>, i64, bool) {
    (r.id@, r.user_id@, r.username@, r.rating, r.comment@, r.created_at, r.verified_purchase)
}

/// What a review submission at `now` does to the stored reviews `before`,
/// giving `after` and the answer `r`: a refused token is answered with the
/// reason; otherwise the review is stored under the title `评论` with the
/// comment as its content, and the review service's refusals (a rating out
/// of 1 to 5, a second review by the same user) are answered with their
/// messages.
pub open spec fn submit_outcome(
    before: Map<Seq<char>, ReviewView>,
    has_reviewed: bool,
    after: Map<Seq<char>, ReviewView>,
    r: ApiResponse<()>,
    plugin_id: Seq<char>,
    review: PluginReview,
    auth: AuthToken,
    now: i64,
) -> bool {
    match spec_auth_check(auth, now) {
        Err(m) => err_response(r, "认证失败: "@ + m) && after == before,
        Ok(_) => if review.rating < 1 || review.rating > 5 {
            err_response(r, "评分必须在1-5之间"@) && after == before
        } else if has_reviewed {
            err_response(r, "您已经评论过该插件"@) && after == before
        } else {
            ok_response(r, ()) && exists|id: Seq<char>, v: ReviewView| {
                &&& after == before.insert(id, v)
                &&& v.id == id
                &&& v.plugin_id == plugin_id
                &&& v.user_id == review.user_id@
                &&& v.username == review.username@
                &&& v.rating == review.rating
                &&& v.title == "评论"@
                &&& v.content == review.comment@
                &&& v.status == ReviewStatus::Published
                &&& v.tags == Seq::<ReviewTag>::empty()
            }
        },
    }
}

/// The marketplace behind its API.
pub struct MarketplaceAPI {
    marketplace: DataFlareMarketplace,
    config: ApiConfig,
}

impl MarketplaceAPI {
    /// The marketplace served.
    pub closed spec fn spec_marketplace(self) -> DataFlareMarketplace {
        self.marketplace
    }

    /// An API over `marketplace`.
    pub fn new(marketplace: DataFlareMarketplace, config: ApiConfig) -> (api: Self)
        ensures
            api.spec_marketplace() == marketplace,
    {
        MarketplaceAPI { marketplace, config }
    }

    /// A successful answer, stamped now.
    pub fn success<T>(data: T) -> (r: ApiResponse<T>)
        ensures
            ok_response(r, data),
    {
        ApiResponse { success: true, data: Some(data), error: None, timestamp: utc_now_millis() }
    }

    /// A failed answer with `message`, stamped now.
    pub fn error<T>(message: &str) -> (r: ApiResponse<T>)
        ensures
            err_response(r, message@),
    {
        ApiResponse { success: false, data: None, error: Some(owned(message)), timestamp: utc_now_millis() }
    }

    /// The answer for a marketplace result at `now`: its data, or its
    /// error's message.
    pub fn respond<T>(result: WasmResult<T>, now: i64) -> (r: ApiResponse<T>)
        ensures
            r.timestamp == now,
            match result {
                Ok(d) => ok_response(r, d),
                Err(e) => err_response(r, e.spec_message()),
            },
    {
        match result {
            Ok(d) => ApiResponse { success: true, data: Some(d), error: None, timestamp: now },
            Err(e) => ApiResponse { success: false, data: None, error: Some(e.message()), timestamp: now },
        }
    }

    /// Checks a token at instant `now`.
    pub fn validate_auth_token_at(auth: &AuthToken, now: i64) -> (r: WasmResult<()>)
        ensures
            match spec_auth_check(*auth, now) {
                Ok(_) => r is Ok,
                Err(m) => r matches Err(WasmError::Runtime(s)) && s@ == m,
            },
    {
        if auth.expires_at < now {
            return Err(WasmError::runtime(String::from_str("认证令牌已过期")));
        }
        if auth.token.as_str().unicode_len() == 0 || auth.user_id.as_str().unicode_len() == 0 {
            return Err(WasmError::runtime(String::from_str("无效的认证令牌")));
        }
        Ok(())
    }

    /// Checks a token against the clock.
    pub fn validate_auth_token(auth: &AuthToken) -> (r: WasmResult<()>)
        ensures
            exists|now: i64|
                match #[trigger] spec_auth_check(*auth, now) {
                    Ok(_) => r is Ok,
                    Err(m) => r matches Err(WasmError::Runtime(s)) && s@ == m,
                },
    {
        let now = utc_now_millis();
        let r = Self::validate_auth_token_at(auth, now);
        assert(match spec_auth_check(*auth, now) {
            Ok(_) => r is Ok,
            Err(m) => r matches Err(WasmError::Runtime(s)) && s@ == m,
        });
        r
    }

    /// Submits `review` of `plugin_id` with the token `auth` at `now`.
    pub fn submit_review_at(&mut self, plugin_id: &str, review: PluginReview, auth: AuthToken, now: i64) -> (r: ApiResponse<()>)
        requires
            old(self).spec_marketplace().review_service.wf(),
        ensures
            final(self).spec_marketplace().review_service.wf(),
            r.timestamp == now,
            submit_outcome(
                old(self).spec_marketplace().review_service.reviews(),
                old(self).spec_marketplace().review_service.has_reviewed(plugin_id@, review.user_id@),
                final(self).spec_marketplace().review_service.reviews(),
                r,
                plugin_id@,
                review,
                auth,
                now,
            ),
    {
        match Self::validate_auth_token_at(&auth, now) {
            Err(e) => {
                let m = e.message();
                let text = concat("认证失败: ", m.as_str());
                return ApiResponse { success: false, data: None, error: Some(text), timestamp: now };
            },
            Ok(_) => {},
        }
        let submitted = self.marketplace.review_service.submit_review(
            owned(plugin_id),
            review.user_id,
            review.username,
            review.rating,
            String::from_str("评论"),
            review.comment,
            None,
            Vec::new(),
        );
        match submitted {
            Ok(_) => ApiResponse { success: true, data: Some(()), error: None, timestamp: now },
            Err(e) => ApiResponse { success: false, data: None, error: Some(e.message()), timestamp: now },
        }
    }

    /// Submits `review` of `plugin_id` with the token `auth`, checked
    /// against the clock.
    pub fn submit_review(&mut self, plugin_id: &str, review: PluginReview, auth: AuthToken) -> (r: ApiResponse<()>)
        requires
            old(self).spec_marketplace().review_service.wf(),
        ensures
            final(self).spec_marketplace().review_service.wf(),
            exists|now: i64|
                #[trigger] submit_outcome(
                    old(self).spec_marketplace().review_service.reviews(),
                    old(self).spec_marketplace().review_service.has_reviewed(plugin_id@, review.user_id@),
                    final(self).spec_marketplace().review_service.reviews(),
                    r,
                    plugin_id@,
                    review,
                    auth,
                    now,
                ),
    {
        let now = utc_now_millis();
        let ghost rv = review;
        let ghost au = auth;
        let r = self.submit_review_at(plugin_id, review, auth, now);
        assert(submit_outcome(
            old(self).spec_marketplace().review_service.reviews(),
            old(self).spec_marketplace().review_service.has_reviewed(plugin_id@, rv.user_id@),
            self.spec_marketplace().review_service.reviews(),
            r,
            plugin_id@,
            rv,
            au,
            now,
        ));
        r
    }

    /// The published reviews of `plugin_id`, newest first: the page asked
    /// for, each reported with its content as the comment.
    pub fn get_plugin_reviews(&self, plugin_id: &str, pagination: Pagination) -> (r: ApiResponse<Vec<PluginReview>>)
        requires
            self.spec_marketplace().review_service.wf(),
            pagination.page * pagination.page_size <= u32::MAX,
        ensures
            r.success,
            r.error is None,
            r.data matches Some(items) && exists|all: Seq<ReviewView>| {
                &&& all.to_multiset() == self.spec_marketplace().review_service.review_list().filter(
                    |v: ReviewView| listed(v, plugin_id@) && true,
                ).to_multiset()
                &&& sorted_reviews(all, ReviewSortBy::Newest)
                &&& items@.map_values(|x: PluginReview| reported_fields(x)) == all.subrange(
                    page_bounds(all.len() as int, pagination.page as int, pagination.page_size as int).0,
                    page_bounds(all.len() as int, pagination.page as int, pagination.page_size as int).1,
                ).map_values(|v: ReviewView| reported(v))
            },
    {
        let filter: Option<crate::marketplace::review::ReviewFilter> = None;
        proof {
            assert((|v: ReviewView| listed(v, plugin_id@) && match filter {
                Some(f) => crate::marketplace::review::passes_filter(v, f.rating, f.verified_only, f.tags@, f.date_range),
                None => true,
            }) =~= (|v: ReviewView| listed(v, plugin_id@) && true));
        }
        let listing = self.marketplace.review_service.get_plugin_reviews(plugin_id, filter, pagination.page, pagination.page_size);
        let (stored, _total) = match listing {
            Ok(x) => x,
            Err(e) => return Self::respond(Err(e), utc_now_millis()),
        };
        let ghost sv = review_views(stored@);
        let mut out: Vec<PluginReview> = Vec::new();
        let mut rest = stored;
        let n = rest.len();
        let ghost all_stored = rest@;
        let mut i: usize = 0;
        while i < n
            invariant
                n == all_stored.len(),
                i <= n,
                rest@ == all_stored.subrange(i as int, n as int),
                out@.map_values(|x: PluginReview| reported_fields(x)) == review_views(all_stored).subrange(0, i as int).map_values(
                    |v: ReviewView| reported(v),
                ),
            decreases n - i,
        {
            let s: StoredReview = rest.remove(0);
            assert(rest@ =~= all_stored.subrange(i + 1, n as int));
            assert(s == all_stored[i as int]);
            let item = PluginReview {
                id: s.id,
                user_id: s.user_id,
                username: s.username,
                rating: s.rating,
                comment: s.content,
                created_at: s.created_at,
                verified_purchase: s.verified_purchase,
            };
            let ghost before = out@;
            out.push(item);
            assert(out@.map_values(|x: PluginReview| reported_fields(x)) =~= before.map_values(
                |x: PluginReview| reported_fields(x),
            ).push(reported_fields(item)));
            assert(review_views(all_stored).subrange(0, i + 1).map_values(|v: ReviewView| reported(v))
                =~= review_views(all_stored).subrange(0, i as int).map_values(|v: ReviewView| reported(v)).push(
                reported(review_views(all_stored)[i as int]),
            ));
            i = i + 1;
        }
        assert(review_views(all_stored).subrange(0, n as int) =~= review_views(all_stored));
        Self::respond(Ok(out), utc_now_millis())
    }
}

/// An expired token is refused, whatever it holds.
pub proof fn lemma_expired_token_refused(auth: AuthToken, now: i64)
    requires
        auth.expires_at < now,
    ensures
        spec_auth_check(auth, now) == Err::<(), Seq<char>>("认证令牌已过期"@),
{
}

} // verus!
