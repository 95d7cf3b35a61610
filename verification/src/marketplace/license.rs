//! Plugin licenses: activation, validation against usage limits and
//! expiry, usage accounting and revocation. Instants are milliseconds since
//! the Unix epoch (UTC).

use vstd::prelude::*;
use crate::clock::{new_uuid_string, utc_now_millis};
use crate::keyed::KeyedList;
use crate::marketplace::search::postings;
use crate::text::{
    clone_strings, concat, owned, prefix_chars, replace_all, replaced, str_eq, string_views, take_chars,
    to_uppercase, uppercase,
};
use crate::wasm_error::WasmResult;

verus! {

/// How a commercial license is priced.
#[derive(Debug, Clone)]
pub enum PricingModel {
    OneTime { price_cents: u64, currency: String },
    Subscription { monthly_price_cents: u64, yearly_price_cents: Option<u64>, currency: String },
    PayPerUse { price_per_unit_cents: u64, unit: String, currency: String },
    Free,
}

/// What a license allows.
#[derive(Debug, Clone)]
pub struct UsageLimits {
    pub max_users: Option<u32>,
    pub max_data_mb: Option<u64>,
    pub max_api_calls: Option<u64>,
    pub geographic_restrictions: Vec<String>,
    pub industry_restrictions: Vec<String>,
}

/// The kind of a license.
#[derive(Debug, Clone)]
pub enum LicenseType {
    OpenSource { name: String, allows_commercial: bool, requires_attribution: bool, requires_share_alike: bool },
    Commercial { name: String, pricing_model: PricingModel, usage_limits: UsageLimits },
    Freeware { name: String, restrictions: Vec<String> },
    Trial { trial_days: u32, feature_limits: Vec<String> },
}

/// Where a license is in its life.
#[derive(Debug, Clone, Copy, PartialEq, Eq, Structural)]
pub enum LicenseStatus {
    Active,
    Expired,
    Suspended,
    Revoked,
    Trial,
}

/// What a license has been used for.
#[derive(Debug, Clone, Copy, PartialEq, Eq, Structural)]
pub struct UsageStats {
    pub data_processed_mb: u64,
    pub api_calls: u64,
    pub active_users: u32,
    pub last_used: Option<i64>,
}

impl Default for UsageStats {
    fn default() -> (u: Self)
        ensures
            u == (UsageStats { data_processed_mb: 0, api_calls: 0, active_users: 0, last_used: None }),
    {
        UsageStats { data_processed_mb: 0, api_calls: 0, active_users: 0, last_used: None }
    }
}

/// A license held by a user for a plugin.
#[derive(Debug, Clone)]
pub struct LicenseInstance {
    pub id: String,
    pub plugin_id: String,
    pub user_id: String,
    pub license_type: LicenseType,
    pub activated_at: i64,
    pub expires_at: Option<i64>,
    pub status: LicenseStatus,
    pub usage_stats: UsageStats,
    pub license_key: String,
}

/// The answer to a license check.
#[derive(Debug, Clone)]
pub struct LicenseValidation {
    pub is_valid: bool,
    pub message: String,
    pub remaining_usage: Option<UsageLimits>,
    pub expires_at: Option<i64>,
}

/// The usage a check asks for.
#[derive(Debug, Clone, Copy, PartialEq, Eq, Structural)]
pub struct UsageRequest {
    pub data_mb: u64,
    pub api_calls: u64,
    pub users: u32,
}

/// Usage to add to a license's statistics.
#[derive(Debug, Clone, Copy, PartialEq, Eq, Structural)]
pub struct UsageUpdate {
    pub data_processed_mb: u64,
    pub api_calls: u64,
    pub active_users: u32,
}

/// Usage limits with their texts as character sequences.
pub struct LimitsView {
    pub max_users: Option<u32>,
    pub max_data_mb: Option<u64>,
    pub max_api_calls: Option<u64>,
    pub geographic_restrictions: Seq<Seq<char>>,
    pub industry_restrictions: Seq<Seq<char>>,
}

/// A pricing model with its texts as character sequences.
pub enum PricingView {
    OneTime { price_cents: u64, currency: Seq<char> },
    Subscription { monthly_price_cents: u64, yearly_price_cents: Option<u64>, currency: Seq<char> },
    PayPerUse { price_per_unit_cents: u64, unit: Seq<char>, currency: Seq<char> },
    Free,
}

/// A license kind with its texts as character sequences.
pub enum LicenseTypeView {
    OpenSource { name: Seq<char>, allows_commercial: bool, requires_attribution: bool, requires_share_alike: bool },
    Commercial { name: Seq<char>, pricing_model: PricingView, usage_limits: LimitsView },
    Freeware { name: Seq<char>, restrictions: Seq<Seq<char>> },
    Trial { trial_days: u32, feature_limits: Seq<Seq<char>> },
}

/// A license with its texts as character sequences.
pub struct LicenseView {
    pub id: Seq<char>,
    pub plugin_id: Seq<char>,
    pub user_id: Seq<char>,
    pub license_type: LicenseTypeView,
    pub activated_at: i64,
    pub expires_at: Option<i64>,
    pub status: LicenseStatus,
    pub usage_stats: UsageStats,
    pub license_key: Seq<char>,
}

/// A validation with its texts as character sequences.
pub struct ValidationView {
    pub is_valid: bool,
    pub message: Seq<char>,
    pub remaining_usage: Option<LimitsView>,
    pub expires_at: Option<i64>,
}

impl UsageLimits {
    /// The limits with texts as character sequences.
    pub open spec fn view(self) -> LimitsView {
        LimitsView {
            max_users: self.max_users,
            max_data_mb: self.max_data_mb,
            max_api_calls: self.max_api_calls,
            geographic_restrictions: string_views(self.geographic_restrictions@),
            industry_restrictions: string_views(self.industry_restrictions@),
        }
    }

    /// A copy of the limits.
    pub fn duplicate(&self) -> (r: Self)
        ensures
            r.view() == self.view(),
    {
        UsageLimits {
            max_users: self.max_users,
            max_data_mb: self.max_data_mb,
            max_api_calls: self.max_api_calls,
            geographic_restrictions: clone_strings(&self.geographic_restrictions),
            industry_restrictions: clone_strings(&self.industry_restrictions),
        }
    }
}

impl PricingModel {
    /// The pricing with texts as character sequences.
    pub open spec fn view(self) -> PricingView {
        match self {
            PricingModel::OneTime { price_cents, currency } => PricingView::OneTime { price_cents, currency: currency@ },
            PricingModel::Subscription { monthly_price_cents, yearly_price_cents, currency } => PricingView::Subscription {
                monthly_price_cents,
                yearly_price_cents,
                currency: currency@,
            },
            PricingModel::PayPerUse { price_per_unit_cents, unit, currency } => PricingView::PayPerUse {
                price_per_unit_cents,
                unit: unit@,
                currency: currency@,
            },
            PricingModel::Free => PricingView::Free,
        }
    }

    /// A copy of the pricing.
    pub fn duplicate(&self) -> (r: Self)
        ensures
            r.view() == self.view(),
    {
        match self {
            PricingModel::OneTime { price_cents, currency } => PricingModel::OneTime {
                price_cents: *price_cents,
                currency: currency.clone(),
            },
            PricingModel::Subscription { monthly_price_cents, yearly_price_cents, currency } => PricingModel::Subscription {
                monthly_price_cents: *monthly_price_cents,
                yearly_price_cents: *yearly_price_cents,
                currency: currency.clone(),
            },
            PricingModel::PayPerUse { price_per_unit_cents, unit, currency } => PricingModel::PayPerUse {
                price_per_unit_cents: *price_per_unit_cents,
                unit: unit.clone(),
                currency: currency.clone(),
            },
            PricingModel::Free => PricingModel::Free,
        }
    }
}

impl LicenseType {
    /// The kind with texts as character sequences.
    pub open spec fn view(self) -> LicenseTypeView {
        match self {
            LicenseType::OpenSource { name, allows_commercial, requires_attribution, requires_share_alike } => LicenseTypeView::OpenSource {
                name: name@,
                allows_commercial,
                requires_attribution,
                requires_share_alike,
            },
            LicenseType::Commercial { name, pricing_model, usage_limits } => LicenseTypeView::Commercial {
                name: name@,
                pricing_model: pricing_model.view(),
                usage_limits: usage_limits.view(),
            },
            LicenseType::Freeware { name, restrictions } => LicenseTypeView::Freeware {
                name: name@,
                restrictions: string_views(restrictions@),
            },
            LicenseType::Trial { trial_days, feature_limits } => LicenseTypeView::Trial {
                trial_days,
                feature_limits: string_views(feature_limits@),
            },
        }
    }

    /// A copy of the kind.
    pub fn duplicate(&self) -> (r: Self)
        ensures
            r.view() == self.view(),
    {
        match self {
            LicenseType::OpenSource { name, allows_commercial, requires_attribution, requires_share_alike } => LicenseType::OpenSource {
                name: name.clone(),
                allows_commercial: *allows_commercial,
                requires_attribution: *requires_attribution,
                requires_share_alike: *requires_share_alike,
            },
            LicenseType::Commercial { name, pricing_model, usage_limits } => LicenseType::Commercial {
                name: name.clone(),
                pricing_model: pricing_model.duplicate(),
                usage_limits: usage_limits.duplicate(),
            },
            LicenseType::Freeware { name, restrictions } => LicenseType::Freeware {
                name: name.clone(),
                restrictions: clone_strings(restrictions),
            },
            LicenseType::Trial { trial_days, feature_limits } => LicenseType::Trial {
                trial_days: *trial_days,
                feature_limits: clone_strings(feature_limits),
            },
        }
    }
}

impl LicenseInstance {
    /// The license with texts as character sequences.
    pub open spec fn view(self) -> LicenseView {
        LicenseView {
            id: self.id@,
            plugin_id: self.plugin_id@,
            user_id: self.user_id@,
            license_type: self.license_type.view(),
            activated_at: self.activated_at,
            expires_at: self.expires_at,
            status: self.status,
            usage_stats: self.usage_stats,
            license_key: self.license_key@,
        }
    }

    /// A copy of the license.
    pub fn duplicate(&self) -> (r: Self)
        ensures
            r.view() == self.view(),
    {
        LicenseInstance {
            id: self.id.clone(),
            plugin_id: self.plugin_id.clone(),
            user_id: self.user_id.clone(),
            license_type: self.license_type.duplicate(),
            activated_at: self.activated_at,
            expires_at: self.expires_at,
            status: self.status,
            usage_stats: self.usage_stats,
            license_key: self.license_key.clone(),
        }
    }
}

impl LicenseValidation {
    /// The validation with texts as character sequences.
    pub open spec fn view(self) -> ValidationView {
        ValidationView {
            is_valid: self.is_valid,
            message: self.message@,
            remaining_usage: match self.remaining_usage {
                Some(l) => Some(l.view()),
                None => None,
            },
            expires_at: self.expires_at,
        }
    }
}

/// Milliseconds in a day.
pub const MILLIS_PER_DAY: i64 = 86_400_000i64;

/// When a license of kind `t` activated at `now` expires: a trial after its
/// days, a commercial subscription after 30 days, others never.
pub open spec fn expiry_for(t: LicenseTypeView, now: i64) -> Option<int> {
    match t {
        LicenseTypeView::Trial { trial_days, .. } => Some(now + trial_days * MILLIS_PER_DAY),
        LicenseTypeView::Commercial { pricing_model: PricingView::Subscription { .. }, .. } => Some(
            now + 30 * MILLIS_PER_DAY,
        ),
        _ => None,
    }
}

/// Whether `key` is the form of key generated for `plugin_id` and `user_id`
/// with the random identifier `uuid`: `DF-`, then the first 8 characters of
/// the plugin and of the user, then the first 16 characters of the
/// identifier without its dashes, all uppercased and joined with dashes.
pub open spec fn license_key_form(key: Seq<char>, plugin_id: Seq<char>, user_id: Seq<char>, uuid: Seq<char>) -> bool {
    key == "DF-"@ + uppercase(take_chars(plugin_id, 8)) + "-"@ + uppercase(take_chars(user_id, 8)) + "-"@ + uppercase(
        take_chars(replaced(uuid, "-"@, ""@), 16),
    )
}

/// The first identifier of `ids` naming a license in `lics` for `plugin_id`.
pub open spec fn first_for_plugin(ids: Seq<Seq<char>>, lics: Map<Seq<char>, LicenseView>, plugin_id: Seq<char>) -> Option<
    Seq<char>,
>
    decreases ids.len(),
{
    if ids.len() == 0 {
        None
    } else if lics.contains_key(ids[0]) && lics[ids[0]].plugin_id == plugin_id {
        Some(ids[0])
    } else {
        first_for_plugin(ids.drop_first(), lics, plugin_id)
    }
}

/// What `first_for_plugin` finds is a license for that plugin.
pub proof fn lemma_first_for_plugin(ids: Seq<Seq<char>>, lics: Map<Seq<char>, LicenseView>, plugin_id: Seq<char>)
    ensures
        first_for_plugin(ids, lics, plugin_id) matches Some(id) ==> lics.contains_key(id) && lics[id].plugin_id
            == plugin_id && ids.contains(id),
    decreases ids.len(),
{
    if ids.len() > 0 && !(lics.contains_key(ids[0]) && lics[ids[0]].plugin_id == plugin_id) {
        lemma_first_for_plugin(ids.drop_first(), lics, plugin_id);
        match first_for_plugin(ids, lics, plugin_id) {
            Some(id) => {
                let k = choose|k: int| 0 <= k < ids.drop_first().len() && ids.drop_first()[k] == id;
                assert(ids[k + 1] == id);
            },
            None => {},
        }
    } else if ids.len() > 0 {
        assert(ids[0] == ids[0]);
    }
}

/// Usage statistics after `usage` is added at `t`: the counts grow, the
/// active users are the larger of the two, and the last use is `t`.
pub open spec fn usage_after(u: UsageStats, usage: UsageUpdate, t: i64) -> UsageStats {
    UsageStats {
        data_processed_mb: (u.data_processed_mb + usage.data_processed_mb) as u64,
        api_calls: (u.api_calls + usage.api_calls) as u64,
        active_users: if usage.active_users > u.active_users { usage.active_users } else { u.active_users },
        last_used: Some(t),
    }
}

/// The name the status message gives a license status.
pub open spec fn status_name(s: LicenseStatus) -> Seq<char> {
    match s {
        LicenseStatus::Active => "Active"@,
        LicenseStatus::Expired => "Expired"@,
        LicenseStatus::Suspended => "Suspended"@,
        LicenseStatus::Revoked => "Revoked"@,
        LicenseStatus::Trial => "Trial"@,
    }
}

/// A refusal with `message`, no remaining usage and the expiry `expires_at`.
pub open spec fn refusal(message: Seq<char>, expires_at: Option<i64>) -> ValidationView {
    ValidationView { is_valid: false, message, remaining_usage: None, expires_at }
}

/// The refusal a usage request meets under `limits`, if any: too much data,
/// too many API calls or too many users, checked in that order.
pub open spec fn usage_refusal(limits: LimitsView, used: UsageStats, req: UsageRequest) -> Option<ValidationView> {
    if limits.max_data_mb matches Some(max) && used.data_processed_mb + req.data_mb > max {
        Some(refusal("数据处理量超出限制"@, None))
    } else if limits.max_api_calls matches Some(max) && used.api_calls + req.api_calls > max {
        Some(refusal("API调用次数超出限制"@, None))
    } else if limits.max_users matches Some(max) && req.users > max {
        Some(refusal("用户数超出限制"@, None))
    } else {
        None
    }
}

/// What remains of a commercial license's limits after its usage so far.
pub open spec fn remaining_of(l: LicenseView) -> Option<LimitsView> {
    match l.license_type {
        LicenseTypeView::Commercial { usage_limits, .. } => Some(LimitsView {
            max_users: usage_limits.max_users,
            max_data_mb: match usage_limits.max_data_mb {
                Some(max) => Some(if max > l.usage_stats.data_processed_mb { (max - l.usage_stats.data_processed_mb) as u64 } else { 0 }),
                None => None,
            },
            max_api_calls: match usage_limits.max_api_calls {
                Some(max) => Some(if max > l.usage_stats.api_calls { (max - l.usage_stats.api_calls) as u64 } else { 0 }),
                None => None,
            },
            ..usage_limits
        }),
        _ => None,
    }
}

/// The answer to checking license `l` for `req` at `now`: refused when its
/// status is neither active nor trial, when it has expired, or when a
/// commercial license's limits are exceeded; valid otherwise, with what
/// remains.
pub open spec fn validation_of(l: LicenseView, req: UsageRequest, now: i64) -> ValidationView {
    if l.status != LicenseStatus::Active && l.status != LicenseStatus::Trial {
        refusal("许可证状态无效: "@ + status_name(l.status), l.expires_at)
    } else if l.expires_at matches Some(e) && now > e {
        refusal("许可证已过期"@, l.expires_at)
    } else if l.license_type matches LicenseTypeView::Commercial { usage_limits, .. } && usage_refusal(
        usage_limits,
        l.usage_stats,
        req,
    ) is Some {
        usage_refusal(
            match l.license_type {
                LicenseTypeView::Commercial { usage_limits, .. } => usage_limits,
                _ => arbitrary(),
            },
            l.usage_stats,
            req,
        )->0
    } else {
        ValidationView { is_valid: true, message: "许可证有效"@, remaining_usage: remaining_of(l), expires_at: l.expires_at }
    }
}

/// Whether checking `l` for `req` stays within 64-bit counts, as the sums it
/// forms must.
pub open spec fn check_fits(l: LicenseView, req: UsageRequest) -> bool {
    l.license_type matches LicenseTypeView::Commercial { usage_limits, .. } ==> {
        &&& (usage_limits.max_data_mb is Some ==> l.usage_stats.data_processed_mb + req.data_mb <= u64::MAX)
        &&& (usage_limits.max_data_mb is Some && l.usage_stats.data_processed_mb + req.data_mb <= usage_limits.max_data_mb->0
            && usage_limits.max_api_calls is Some ==> l.usage_stats.api_calls + req.api_calls <= u64::MAX)
        &&& (usage_limits.max_data_mb is None && usage_limits.max_api_calls is Some ==> l.usage_stats.api_calls
            + req.api_calls <= u64::MAX)
    }
}

/// Keeps the licenses and finds them by user and by plugin.
#[derive(Debug)]
pub struct LicenseManager {
    licenses: KeyedList<LicenseInstance>,
    user_licenses: KeyedList<Vec<String>>,
    plugin_licenses: KeyedList<Vec<String>>,
}

impl LicenseManager {
    /// The maps keep their keys distinct, and each license is filed under
    /// its own identifier.
    pub closed spec fn wf(self) -> bool {
        &&& self.licenses.wf()
        &&& self.user_licenses.wf()
        &&& self.plugin_licenses.wf()
        &&& forall|k: Seq<char>| #[trigger] self.licenses.map().contains_key(k) ==> self.licenses.map()[k].id@ == k
    }

    /// The identifier of the license `user_id` holds for `plugin_id`.
    pub open spec fn license_id_for(self, plugin_id: Seq<char>, user_id: Seq<char>) -> Option<Seq<char>> {
        if self.by_user().contains_key(user_id) {
            first_for_plugin(self.by_user()[user_id], self.licenses(), plugin_id)
        } else {
            None
        }
    }

    /// A license found for a plugin is in the map, for that plugin, under
    /// its own identifier.
    pub proof fn lemma_found(self, plugin_id: Seq<char>, user_id: Seq<char>)
        requires
            self.wf(),
        ensures
            self.license_id_for(plugin_id, user_id) matches Some(id) ==> self.licenses().contains_key(id)
                && self.licenses()[id].plugin_id == plugin_id && self.licenses()[id].id == id
                && self.license_for(plugin_id, user_id) == Some(self.licenses()[id]),
            self.license_id_for(plugin_id, user_id) is None ==> self.license_for(plugin_id, user_id) is None,
    {
        if self.by_user().contains_key(user_id) {
            lemma_first_for_plugin(self.by_user()[user_id], self.licenses(), plugin_id);
        }
        match self.license_id_for(plugin_id, user_id) {
            Some(id) => {
                assert(self.licenses.map().contains_key(id));
            },
            None => {},
        }
    }

    /// The licenses by identifier.
    pub closed spec fn licenses(self) -> Map<Seq<char>, LicenseView> {
        self.licenses.map().map_values(|l: LicenseInstance| l.view())
    }

    /// The identifiers of each user's licenses, in activation order.
    pub closed spec fn by_user(self) -> Map<Seq<char>, Seq<Seq<char>>> {
        postings(self.user_licenses)
    }

    /// The identifiers of each plugin's licenses, in activation order.
    pub closed spec fn by_plugin(self) -> Map<Seq<char>, Seq<Seq<char>>> {
        postings(self.plugin_licenses)
    }

    /// The license `user_id` holds for `plugin_id`: the first of the user's
    /// licenses, in activation order, that is for that plugin.
    pub open spec fn license_for(self, plugin_id: Seq<char>, user_id: Seq<char>) -> Option<LicenseView> {
        if self.by_user().contains_key(user_id) {
            match first_for_plugin(self.by_user()[user_id], self.licenses(), plugin_id) {
                Some(id) => Some(self.licenses()[id]),
                None => None,
            }
        } else {
            None
        }
    }

    /// The answer to checking `user_id`'s license for `plugin_id` at `now`.
    pub open spec fn expected_validation(self, plugin_id: Seq<char>, user_id: Seq<char>, req: UsageRequest, now: i64) -> ValidationView {
        match self.license_for(plugin_id, user_id) {
            None => refusal("未找到有效许可证"@, None),
            Some(l) => validation_of(l, req, now),
        }
    }

    /// No license.
    pub fn new() -> (m: Self)
        ensures
            m.wf(),
            m.licenses() == Map::<Seq<char>, LicenseView>::empty(),
            m.by_user() == Map::<Seq<char>, Seq<Seq<char>>>::empty(),
            m.by_plugin() == Map::<Seq<char>, Seq<Seq<char>>>::empty(),
    {
        let m = LicenseManager {
            licenses: KeyedList::new(),
            user_licenses: KeyedList::new(),
            plugin_licenses: KeyedList::new(),
        };
        assert(m.licenses() =~= Map::<Seq<char>, LicenseView>::empty());
        assert(m.by_user() =~= Map::<Seq<char>, Seq<Seq<char>>>::empty());
        assert(m.by_plugin() =~= Map::<Seq<char>, Seq<Seq<char>>>::empty());
        m
    }

    /// Appends `id` to the list under `key`.
    fn file_id(index: &mut KeyedList<Vec<String>>, key: &str, id: &str)
        requires
            old(index).wf(),
        ensures
            final(index).wf(),
            postings(*final(index)) == postings(*old(index)).insert(
                key@,
                if postings(*old(index)).contains_key(key@) {
                    postings(*old(index))[key@].push(id@)
                } else {
                    seq![id@]
                },
            ),
    {
        let ghost before = postings(*old(index));
        let removed = index.remove(key);
        let ghost mid = postings(*index);
        assert(mid =~= before.remove(key@));
        let mut ids: Vec<String> = match removed {
            Some(v) => {
                assert(before.contains_key(key@) && before[key@] == string_views(v@));
                v
            },
            None => {
                assert(!before.contains_key(key@));
                Vec::new()
            },
        };
        let ghost prior = string_views(ids@);
        assert(prior =~= if before.contains_key(key@) { before[key@] } else { Seq::<Seq<char>>::empty() });
        ids.push(owned(id));
        assert(string_views(ids@) =~= prior.push(id@));
        index.insert(owned(key), ids);
        assert(Seq::<Seq<char>>::empty().push(id@) =~= seq![id@]);
        assert(postings(*index) =~= before.insert(
            key@,
            if before.contains_key(key@) { before[key@].push(id@) } else { seq![id@] },
        ));
    }

    /// A key for `plugin_id` and `user_id`.
    pub fn generate_license_key(&self, plugin_id: &str, user_id: &str) -> (key: String)
        ensures
            exists|uuid: Seq<char>| license_key_form(key@, plugin_id@, user_id@, uuid),
    {
        let uuid = new_uuid_string();
        let p = to_uppercase(prefix_chars(plugin_id, 8).as_str());
        let u = to_uppercase(prefix_chars(user_id, 8).as_str());
        let bare = replace_all(uuid.as_str(), "-", "");
        let r = to_uppercase(prefix_chars(bare.as_str(), 16).as_str());
        let k1 = concat("DF-", p.as_str());
        let k2 = concat(k1.as_str(), "-");
        let k3 = concat(k2.as_str(), u.as_str());
        let k4 = concat(k3.as_str(), "-");
        let key = concat(k4.as_str(), r.as_str());
        assert(license_key_form(key@, plugin_id@, user_id@, uuid@));
        key
    }

    /// Activates a license of `license_type` for `user_id` on `plugin_id`,
    /// under a fresh identifier and key, active from now, expiring after the
    /// trial days for a trial and after 30 days for a commercial
    /// subscription, with no usage yet.
    pub fn activate_license(&mut self, plugin_id: String, user_id: String, license_type: LicenseType) -> (r: WasmResult<LicenseInstance>)
        requires
            old(self).wf(),
        ensures
            final(self).wf(),
            r matches Ok(l) && l.plugin_id@ == plugin_id@ && l.user_id@ == user_id@
                && l.license_type.view() == license_type.view() && l.status == LicenseStatus::Active
                && l.usage_stats == (UsageStats { data_processed_mb: 0, api_calls: 0, active_users: 0, last_used: None })
                && (exists|uuid: Seq<char>| license_key_form(l.license_key@, plugin_id@, user_id@, uuid))
                && l.expires_at == match expiry_for(license_type.view(), l.activated_at) {
                    Some(e) => if i64::MIN <= e <= i64::MAX { Some(e as i64) } else { None::<i64> },
                    None => None::<i64>,
                } && final(self).licenses() == old(self).licenses().insert(l.id@, l.view())
                && final(self).by_user() == old(self).by_user().insert(
                    user_id@,
                    if old(self).by_user().contains_key(user_id@) {
                        old(self).by_user()[user_id@].push(l.id@)
                    } else {
                        seq![l.id@]
                    },
                ) && final(self).by_plugin() == old(self).by_plugin().insert(
                    plugin_id@,
                    if old(self).by_plugin().contains_key(plugin_id@) {
                        old(self).by_plugin()[plugin_id@].push(l.id@)
                    } else {
                        seq![l.id@]
                    },
                ),
    {
        let license_id = new_uuid_string();
        let license_key = self.generate_license_key(plugin_id.as_str(), user_id.as_str());
        let now = utc_now_millis();
        let expires_at: Option<i64> = match &license_type {
            LicenseType::Trial { trial_days, .. } => now.checked_add((*trial_days as i64) * MILLIS_PER_DAY),
            LicenseType::Commercial { pricing_model, .. } => match pricing_model {
                PricingModel::Subscription { .. } => now.checked_add(30 * MILLIS_PER_DAY),
                _ => None,
            },
            _ => None,
        };
        let license = LicenseInstance {
            id: license_id.clone(),
            plugin_id: plugin_id.clone(),
            user_id: user_id.clone(),
            license_type,
            activated_at: now,
            expires_at,
            status: LicenseStatus::Active,
            usage_stats: UsageStats::default(),
            license_key,
        };
        let stored = license.duplicate();
        self.licenses.insert(license_id.clone(), stored);
        assert(self.licenses() =~= old(self).licenses().insert(license.id@, license.view()));
        assert forall|k: Seq<char>| #[trigger] self.licenses.map().contains_key(k) implies self.licenses.map()[k].id@ == k by {
            if k != license_id@ {
                assert(old(self).licenses.map().contains_key(k));
            }
        }
        Self::file_id(&mut self.user_licenses, user_id.as_str(), license_id.as_str());
        Self::file_id(&mut self.plugin_licenses, plugin_id.as_str(), license_id.as_str());
        Ok(license)
    }

    /// The identifier of `user_id`'s first license for `plugin_id`.
    fn find_license_id(&self, plugin_id: &str, user_id: &str) -> (r: Option<&String>)
        requires
            self.wf(),
        ensures
            match r {
                Some(id) => self.by_user().contains_key(user_id@)
                    && first_for_plugin(self.by_user()[user_id@], self.licenses(), plugin_id@) == Some(id@),
                None => !self.by_user().contains_key(user_id@) || first_for_plugin(
                    self.by_user()[user_id@],
                    self.licenses(),
                    plugin_id@,
                ) is None,
            },
    {
        match self.user_licenses.get(user_id) {
            None => None,
            Some(ids) => {
                let ghost all = string_views(ids@);
                let mut i: usize = 0;
                assert(all.subrange(0, all.len() as int) =~= all);
                while i < ids.len()
                    invariant
                        self.wf(),
                        all == string_views(ids@),
                        all == self.by_user()[user_id@],
                        self.by_user().contains_key(user_id@),
                        i <= ids@.len(),
                        first_for_plugin(all, self.licenses(), plugin_id@) == first_for_plugin(
                            all.subrange(i as int, all.len() as int),
                            self.licenses(),
                            plugin_id@,
                        ),
                    decreases ids.len() - i,
                {
                    let ghost rest = all.subrange(i as int, all.len() as int);
                    assert(rest[0] == ids@[i as int]@);
                    assert(rest.drop_first() =~= all.subrange(i + 1, all.len() as int));
                    match self.licenses.get(ids[i].as_str()) {
                        Some(l) => {
                            if str_eq(l.plugin_id.as_str(), plugin_id) {
                                return Some(&ids[i]);
                            }
                        },
                        None => {},
                    }
                    i = i + 1;
                }
                None
            },
        }
    }

    /// Checks `user_id`'s license for `plugin_id` against `usage_request`
    /// at the current time.
    pub fn validate_license(&self, plugin_id: &str, user_id: &str, usage_request: &UsageRequest) -> (r: WasmResult<LicenseValidation>)
        requires
            self.wf(),
            self.license_for(plugin_id@, user_id@) matches Some(l) ==> check_fits(l, *usage_request),
        ensures
            r matches Ok(v) && exists|now: i64| v.view() == self.expected_validation(plugin_id@, user_id@, *usage_request, now),
    {
        let now = utc_now_millis();
        self.validate_license_at(plugin_id, user_id, usage_request, now)
    }

    /// Checks `user_id`'s license for `plugin_id` against `usage_request`
    /// at `now`.
    pub fn validate_license_at(&self, plugin_id: &str, user_id: &str, usage_request: &UsageRequest, now: i64) -> (r: WasmResult<LicenseValidation>)
        requires
            self.wf(),
            self.license_for(plugin_id@, user_id@) matches Some(l) ==> check_fits(l, *usage_request),
        ensures
            r matches Ok(v) && v.view() == self.expected_validation(plugin_id@, user_id@, *usage_request, now),
    {
        proof {
            self.lemma_found(plugin_id@, user_id@);
        }
        let license = match self.find_license_id(plugin_id, user_id) {
            None => {
                return Ok(LicenseValidation {
                    is_valid: false,
                    message: String::from_str("未找到有效许可证"),
                    remaining_usage: None,
                    expires_at: None,
                });
            },
            Some(id) => match self.licenses.get(id.as_str()) {
                Some(l) => l,
                None => {
                    assert(false);
                    return Ok(LicenseValidation {
                        is_valid: false,
                        message: String::from_str("未找到有效许可证"),
                        remaining_usage: None,
                        expires_at: None,
                    });
                },
            },
        };
        let ghost lv = license.view();
        assert(self.license_for(plugin_id@, user_id@) == Some(lv));
        if license.status != LicenseStatus::Active && license.status != LicenseStatus::Trial {
            let name = match license.status {
                LicenseStatus::Active => "Active",
                LicenseStatus::Expired => "Expired",
                LicenseStatus::Suspended => "Suspended",
                LicenseStatus::Revoked => "Revoked",
                LicenseStatus::Trial => "Trial",
            };
            return Ok(LicenseValidation {
                is_valid: false,
                message: concat("许可证状态无效: ", name),
                remaining_usage: None,
                expires_at: license.expires_at,
            });
        }
        match license.expires_at {
            Some(e) => {
                if now > e {
                    return Ok(LicenseValidation {
                        is_valid: false,
                        message: String::from_str("许可证已过期"),
                        remaining_usage: None,
                        expires_at: Some(e),
                    });
                }
            },
            None => {},
        }
        match &license.license_type {
            LicenseType::Commercial { usage_limits, .. } => {
                match self.check_usage_limits(usage_limits, &license.usage_stats, usage_request) {
                    Some(v) => {
                        return Ok(v);
                    },
                    None => {},
                }
            },
            _ => {},
        }
        Ok(LicenseValidation {
            is_valid: true,
            message: String::from_str("许可证有效"),
            remaining_usage: self.calculate_remaining_usage(license),
            expires_at: license.expires_at,
        })
    }

    /// The refusal `request` meets under `limits` given the usage so far.
    pub fn check_usage_limits(&self, limits: &UsageLimits, current_usage: &UsageStats, request: &UsageRequest) -> (r: Option<LicenseValidation>)
        requires
            limits.max_data_mb is Some ==> current_usage.data_processed_mb + request.data_mb <= u64::MAX,
            limits.max_api_calls is Some && !(limits.max_data_mb matches Some(max) && current_usage.data_processed_mb
                + request.data_mb > max) ==> current_usage.api_calls + request.api_calls <= u64::MAX,
        ensures
            match r {
                Some(v) => usage_refusal(limits.view(), *current_usage, *request) == Some(v.view()),
                None => usage_refusal(limits.view(), *current_usage, *request) is None,
            },
    {
        match limits.max_data_mb {
            Some(max_data) => {
                if current_usage.data_processed_mb + request.data_mb > max_data {
                    return Some(LicenseValidation {
                        is_valid: false,
                        message: String::from_str("数据处理量超出限制"),
                        remaining_usage: None,
                        expires_at: None,
                    });
                }
            },
            None => {},
        }
        match limits.max_api_calls {
            Some(max_calls) => {
                if current_usage.api_calls + request.api_calls > max_calls {
                    return Some(LicenseValidation {
                        is_valid: false,
                        message: String::from_str("API调用次数超出限制"),
                        remaining_usage: None,
                        expires_at: None,
                    });
                }
            },
            None => {},
        }
        match limits.max_users {
            Some(max_users) => {
                if request.users > max_users {
                    return Some(LicenseValidation {
                        is_valid: false,
                        message: String::from_str("用户数超出限制"),
                        remaining_usage: None,
                        expires_at: None,
                    });
                }
            },
            None => {},
        }
        None
    }

    /// What remains of a commercial license's limits; none for other kinds.
    pub fn calculate_remaining_usage(&self, license: &LicenseInstance) -> (r: Option<UsageLimits>)
        ensures
            match r {
                Some(l) => remaining_of(license.view()) == Some(l.view()),
                None => remaining_of(license.view()) is None,
            },
    {
        match &license.license_type {
            LicenseType::Commercial { usage_limits, .. } => Some(UsageLimits {
                max_users: usage_limits.max_users,
                max_data_mb: match usage_limits.max_data_mb {
                    Some(max) => Some(max.saturating_sub(license.usage_stats.data_processed_mb)),
                    None => None,
                },
                max_api_calls: match usage_limits.max_api_calls {
                    Some(max) => Some(max.saturating_sub(license.usage_stats.api_calls)),
                    None => None,
                },
                geographic_restrictions: clone_strings(&usage_limits.geographic_restrictions),
                industry_restrictions: clone_strings(&usage_limits.industry_restrictions),
            }),
            _ => None,
        }
    }

    /// Adds `usage` to the statistics of `user_id`'s license for `plugin_id`,
    /// if there is one, stamping it with the current time; the active users
    /// only ever grow.
    pub fn update_usage_stats(&mut self, plugin_id: &str, user_id: &str, usage: &UsageUpdate) -> (r: WasmResult<()>)
        requires
            old(self).wf(),
            old(self).license_for(plugin_id@, user_id@) matches Some(l) ==> {
                &&& l.usage_stats.data_processed_mb + usage.data_processed_mb <= u64::MAX
                &&& l.usage_stats.api_calls + usage.api_calls <= u64::MAX
            },
        ensures
            r is Ok,
            final(self).wf(),
            final(self).by_user() == old(self).by_user(),
            final(self).by_plugin() == old(self).by_plugin(),
            match old(self).license_id_for(plugin_id@, user_id@) {
                None => final(self).licenses() == old(self).licenses(),
                Some(id) => exists|t: i64| final(self).licenses() == old(self).licenses().insert(
                    id,
                    LicenseView { usage_stats: #[trigger] usage_after(old(self).licenses()[id].usage_stats, *usage, t), ..old(self).licenses()[id] },
                ),
            },
    {
        proof {
            self.lemma_found(plugin_id@, user_id@);
        }
        let id = match self.find_license_id(plugin_id, user_id) {
            None => {
                return Ok(());
            },
            Some(id) => id.clone(),
        };
        let now = utc_now_millis();
        match self.licenses.remove(id.as_str()) {
            Some(l) => {
                let mut l = l;
                l.usage_stats.data_processed_mb = l.usage_stats.data_processed_mb + usage.data_processed_mb;
                l.usage_stats.api_calls = l.usage_stats.api_calls + usage.api_calls;
                l.usage_stats.last_used = Some(now);
                if usage.active_users > l.usage_stats.active_users {
                    l.usage_stats.active_users = usage.active_users;
                }
                let ghost lv = l.view();
                assert(lv.usage_stats == usage_after(old(self).licenses()[id@].usage_stats, *usage, now));
                self.licenses.insert(id, l);
                proof {
                    let old_l = old(self).licenses()[id@];
                    assert(self.licenses() =~= old(self).licenses().insert(id@, lv));
                    assert forall|k: Seq<char>| #[trigger] self.licenses.map().contains_key(k) implies self.licenses.map()[k].id@ == k by {
                        if k != id@ {
                            assert(old(self).licenses.map().contains_key(k));
                        }
                    }
                }
            },
            None => {
                assert(false);
            },
        }
        Ok(())
    }

    /// Marks license `license_id` as revoked, if it exists.
    pub fn revoke_license(&mut self, license_id: &str) -> (r: WasmResult<()>)
        requires
            old(self).wf(),
        ensures
            r is Ok,
            final(self).wf(),
            final(self).by_user() == old(self).by_user(),
            final(self).by_plugin() == old(self).by_plugin(),
            old(self).licenses().contains_key(license_id@) ==> final(self).licenses() == old(self).licenses().insert(
                license_id@,
                LicenseView { status: LicenseStatus::Revoked, ..old(self).licenses()[license_id@] },
            ),
            !old(self).licenses().contains_key(license_id@) ==> final(self).licenses() == old(self).licenses(),
    {
        match self.licenses.remove(license_id) {
            Some(l) => {
                let mut l = l;
                l.status = LicenseStatus::Revoked;
                self.licenses.insert(owned(license_id), l);
                assert(self.licenses() =~= old(self).licenses().insert(
                    license_id@,
                    LicenseView { status: LicenseStatus::Revoked, ..old(self).licenses()[license_id@] },
                ));
            },
            None => {},
        }
        Ok(())
    }

    /// Copies of `user_id`'s licenses, in activation order; identifiers that
    /// name no license are skipped.
    pub fn get_user_licenses(&self, user_id: &str) -> (r: Vec<LicenseInstance>)
        requires
            self.wf(),
        ensures
            r@.map_values(|l: LicenseInstance| l.view()) == (if self.by_user().contains_key(user_id@) {
                self.by_user()[user_id@]
            } else {
                Seq::empty()
            }).filter(|id: Seq<char>| self.licenses().contains_key(id)).map_values(|id: Seq<char>| self.licenses()[id]),
    {
        let ghost pred = |id: Seq<char>| self.licenses().contains_key(id);
        let ghost f = |id: Seq<char>| self.licenses()[id];
        let mut out: Vec<LicenseInstance> = Vec::new();
        match self.user_licenses.get(user_id) {
            None => {
                assert(Seq::<Seq<char>>::empty().filter(pred) =~= Seq::<Seq<char>>::empty());
                assert(out@.map_values(|l: LicenseInstance| l.view()) =~= Seq::<Seq<char>>::empty().filter(pred).map_values(f));
                out
            },
            Some(ids) => {
                let ghost all = self.by_user()[user_id@];
                let mut i: usize = 0;
                while i < ids.len()
                    invariant
                        self.wf(),
                        self.by_user().contains_key(user_id@),
                        all == self.by_user()[user_id@],
                        string_views(ids@) == all,
                        i <= ids@.len(),
                        pred == (|id: Seq<char>| self.licenses().contains_key(id)),
                        f == (|id: Seq<char>| self.licenses()[id]),
                        out@.map_values(|l: LicenseInstance| l.view()) == all.subrange(0, i as int).filter(pred).map_values(f),
                    decreases ids.len() - i,
                {
                    let ghost before = out@;
                    let ghost id = all[i as int];
                    assert(ids@[i as int]@ == id);
                    proof {
                        crate::seqs::lemma_filter_push(all.subrange(0, i as int), pred, id);
                        assert(all.subrange(0, i as int).push(id) =~= all.subrange(0, i + 1));
                    }
                    match self.licenses.get(ids[i].as_str()) {
                        Some(l) => {
                            let d = l.duplicate();
                            out.push(d);
                            assert(self.licenses().contains_key(id));
                            assert(self.licenses()[id] == l.view());
                            assert(out@.map_values(|l: LicenseInstance| l.view()) =~= before.map_values(
                                |l: LicenseInstance| l.view(),
                            ).push(d.view()));
                            assert(all.subrange(0, i as int).filter(pred).push(id).map_values(f)
                                =~= all.subrange(0, i as int).filter(pred).map_values(f).push(f(id)));
                        },
                        None => {
                            assert(!self.licenses().contains_key(id));
                        },
                    }
                    i = i + 1;
                }
                assert(all.subrange(0, ids@.len() as int) =~= all);
                out
            },
        }
    }
}

impl Default for LicenseManager {
    fn default() -> (m: Self)
        ensures
            m.wf(),
            m.licenses() == Map::<Seq<char>, LicenseView>::empty(),
    {
        LicenseManager::new()
    }
}

/// A license is reported valid only when its status is active or trial,
/// it has not expired by `now`, and, for a commercial license, the request
/// keeps the data and the API calls used within their limits and the users
/// within theirs; a license of such a status that has expired is refused as
/// expired.
pub proof fn lemma_validation_by_fields(l: LicenseView, req: UsageRequest, now: i64)
    ensures
        validation_of(l, req, now).is_valid ==> l.status == LicenseStatus::Active || l.status == LicenseStatus::Trial,
        validation_of(l, req, now).is_valid ==> (l.expires_at matches Some(e) ==> now <= e),
        validation_of(l, req, now).is_valid ==> (l.license_type matches LicenseTypeView::Commercial { usage_limits, .. } ==> {
            &&& (usage_limits.max_data_mb matches Some(m) ==> l.usage_stats.data_processed_mb + req.data_mb <= m)
            &&& (usage_limits.max_api_calls matches Some(m) ==> l.usage_stats.api_calls + req.api_calls <= m)
            &&& (usage_limits.max_users matches Some(m) ==> req.users <= m)
        }),
        l.expires_at matches Some(e) ==> (now > e && (l.status == LicenseStatus::Active || l.status == LicenseStatus::Trial)
            ==> !validation_of(l, req, now).is_valid && validation_of(l, req, now).message == "许可证已过期"@),
{
}

/// A user whose license for a plugin has expired is never told it is
/// valid, whatever is asked of it.
pub proof fn lemma_expired_license_refused(m: LicenseManager, plugin_id: Seq<char>, user_id: Seq<char>, req: UsageRequest, now: i64)
    requires
        m.license_for(plugin_id, user_id) matches Some(l) && l.expires_at matches Some(e) && now > e,
    ensures
        !m.expected_validation(plugin_id, user_id, req, now).is_valid,
{
}

/// A license that has been revoked is refused, whatever is asked of it and
/// whenever.
pub proof fn lemma_revoked_license_refused(l: LicenseView, req: UsageRequest, now: i64)
    requires
        l.status == LicenseStatus::Revoked,
    ensures
        !validation_of(l, req, now).is_valid,
        validation_of(l, req, now).message == "许可证状态无效: "@ + status_name(LicenseStatus::Revoked),
{
}

} // verus!
