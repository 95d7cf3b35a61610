//! Paid plugins: payments and their refunds, subscription plans and
//! subscriptions, and the revenue a plugin earns over a period. Instants are
//! milliseconds since the Unix epoch (UTC).

use vstd::prelude::*;
use crate::clock::{new_uuid_string, utc_now_millis};
use crate::keyed::KeyedList;
use crate::marketplace::license::{LimitsView, UsageLimits};
use crate::text::{clone_strings, concat, opt_chars, str_eq, string_views};
use crate::wasm_error::{WasmError, WasmResult};

verus! {

/// A kind of payment card.
#[derive(Debug, Clone)]
pub enum CardType {
    Visa,
    MasterCard,
    AmericanExpress,
    Discover,
    Other(String),
}

/// A cryptocurrency.
#[derive(Debug, Clone)]
pub enum CryptoType {
    Bitcoin,
    Ethereum,
    Litecoin,
    Other(String),
}

/// How a user pays.
#[derive(Debug, Clone)]
pub enum PaymentMethod {
    CreditCard {
        card_number_encrypted: String,
        cardholder_name: String,
        expiry_month: u8,
        expiry_year: u16,
        card_type: CardType,
    },
    PayPal { account_id: String, email: String },
    BankTransfer { bank_name: String, account_number: String, routing_number: String },
    Cryptocurrency { currency_type: CryptoType, wallet_address: String },
}

/// Where a payment is.
#[derive(Debug, Clone, Copy, PartialEq, Eq, Structural)]
pub enum PaymentStatus {
    Pending,
    Processing,
    Completed,
    Failed,
    Refunded,
    PartiallyRefunded,
    Cancelled,
}

/// A payment.
#[derive(Debug, Clone)]
pub struct PaymentRecord {
    pub id: String,
    pub user_id: String,
    pub plugin_id: String,
    pub amount_cents: u64,
    pub currency: String,
    pub payment_method: PaymentMethod,
    pub status: PaymentStatus,
    pub created_at: i64,
    pub updated_at: i64,
    pub gateway_transaction_id: Option<String>,
    pub failure_reason: Option<String>,
    pub refunded_amount_cents: u64,
}

/// How often a subscription is billed.
#[derive(Debug, Clone, Copy, PartialEq, Eq, Structural)]
pub enum BillingCycle {
    Monthly,
    Yearly,
    Quarterly,
}

/// A plan users subscribe to.
#[derive(Debug, Clone)]
pub struct SubscriptionPlan {
    pub id: String,
    pub name: String,
    pub monthly_price_cents: u64,
    pub yearly_price_cents: Option<u64>,
    pub billing_cycle: BillingCycle,
    pub features: Vec<String>,
    pub usage_limits: UsageLimits,
}

/// Where a subscription is.
#[derive(Debug, Clone, Copy, PartialEq, Eq, Structural)]
pub enum SubscriptionStatus {
    Active,
    Paused,
    Cancelled,
    Expired,
    Trial,
}

/// A user's subscription to a plugin's plan.
#[derive(Debug, Clone)]
pub struct SubscriptionRecord {
    pub id: String,
    pub user_id: String,
    pub plugin_id: String,
    pub plan: SubscriptionPlan,
    pub status: SubscriptionStatus,
    pub started_at: i64,
    pub next_billing_at: i64,
    pub cancelled_at: Option<i64>,
    pub payment_method: PaymentMethod,
    pub payment_history: Vec<String>,
}

/// Where a developer's payout is.
#[derive(Debug, Clone, Copy, PartialEq, Eq, Structural)]
pub enum PayoutStatus {
    Pending,
    Paid,
    Failed,
    Suspended,
}

/// A payment with its texts as character sequences; the method is left out.
pub struct PaymentView {
    pub id: Seq<char>,
    pub user_id: Seq<char>,
    pub plugin_id: Seq<char>,
    pub amount_cents: u64,
    pub currency: Seq<char>,
    pub status: PaymentStatus,
    pub created_at: i64,
    pub updated_at: i64,
    pub gateway_transaction_id: Option<Seq<char>>,
    pub failure_reason: Option<Seq<char>>,
    pub refunded_amount_cents: u64,
}

/// A plan with its texts as character sequences.
pub struct PlanView {
    pub id: Seq<char>,
    pub name: Seq<char>,
    pub monthly_price_cents: u64,
    pub yearly_price_cents: Option<u64>,
    pub billing_cycle: BillingCycle,
    pub features: Seq<Seq<char>>,
    pub usage_limits: LimitsView,
}

/// A subscription with its texts as character sequences; the method is left
/// out.
pub struct SubscriptionView {
    pub id: Seq<char>,
    pub user_id: Seq<char>,
    pub plugin_id: Seq<char>,
    pub plan: PlanView,
    pub status: SubscriptionStatus,
    pub started_at: i64,
    pub next_billing_at: i64,
    pub cancelled_at: Option<i64>,
    pub payment_history: Seq<Seq<char>>,
}

impl PaymentRecord {
    /// The payment with texts as character sequences.
    pub open spec fn view(self) -> PaymentView {
        PaymentView {
            id: self.id@,
            user_id: self.user_id@,
            plugin_id: self.plugin_id@,
            amount_cents: self.amount_cents,
            currency: self.currency@,
            status: self.status,
            created_at: self.created_at,
            updated_at: self.updated_at,
            gateway_transaction_id: opt_chars(self.gateway_transaction_id),
            failure_reason: opt_chars(self.failure_reason),
            refunded_amount_cents: self.refunded_amount_cents,
        }
    }

    /// A copy of the payment.
    pub fn duplicate(&self) -> (r: Self)
        ensures
            r.view() == self.view(),
    {
        PaymentRecord {
            id: self.id.clone(),
            user_id: self.user_id.clone(),
            plugin_id: self.plugin_id.clone(),
            amount_cents: self.amount_cents,
            currency: self.currency.clone(),
            payment_method: self.payment_method.clone(),
            status: self.status,
            created_at: self.created_at,
            updated_at: self.updated_at,
            gateway_transaction_id: match &self.gateway_transaction_id {
                Some(t) => Some(t.clone()),
                None => None,
            },
            failure_reason: match &self.failure_reason {
                Some(t) => Some(t.clone()),
                None => None,
            },
            refunded_amount_cents: self.refunded_amount_cents,
        }
    }
}

impl SubscriptionPlan {
    /// The plan with texts as character sequences.
    pub open spec fn view(self) -> PlanView {
        PlanView {
            id: self.id@,
            name: self.name@,
            monthly_price_cents: self.monthly_price_cents,
            yearly_price_cents: self.yearly_price_cents,
            billing_cycle: self.billing_cycle,
            features: string_views(self.features@),
            usage_limits: self.usage_limits.view(),
        }
    }

    /// A copy of the plan.
    pub fn duplicate(&self) -> (r: Self)
        ensures
            r.view() == self.view(),
    {
        SubscriptionPlan {
            id: self.id.clone(),
            name: self.name.clone(),
            monthly_price_cents: self.monthly_price_cents,
            yearly_price_cents: self.yearly_price_cents,
            billing_cycle: self.billing_cycle,
            features: clone_strings(&self.features),
            usage_limits: self.usage_limits.duplicate(),
        }
    }
}

impl SubscriptionRecord {
    /// The subscription with texts as character sequences.
    pub open spec fn view(self) -> SubscriptionView {
        SubscriptionView {
            id: self.id@,
            user_id: self.user_id@,
            plugin_id: self.plugin_id@,
            plan: self.plan.view(),
            status: self.status,
            started_at: self.started_at,
            next_billing_at: self.next_billing_at,
            cancelled_at: self.cancelled_at,
            payment_history: string_views(self.payment_history@),
        }
    }

    /// A copy of the subscription.
    pub fn duplicate(&self) -> (r: Self)
        ensures
            r.view() == self.view(),
    {
        SubscriptionRecord {
            id: self.id.clone(),
            user_id: self.user_id.clone(),
            plugin_id: self.plugin_id.clone(),
            plan: self.plan.duplicate(),
            status: self.status,
            started_at: self.started_at,
            next_billing_at: self.next_billing_at,
            cancelled_at: self.cancelled_at,
            payment_method: self.payment_method.clone(),
            payment_history: clone_strings(&self.payment_history),
        }
    }
}

/// Milliseconds in a day.
pub const DAY_MILLIS: i64 = 86_400_000i64;

/// The days until the next bill of a plan billed every `cycle`.
pub open spec fn cycle_days(cycle: BillingCycle) -> int {
    match cycle {
        BillingCycle::Monthly => 30,
        BillingCycle::Quarterly => 90,
        BillingCycle::Yearly => 365,
    }
}

/// `t` moved `span` milliseconds later, stopping at the latest instant an
/// `i64` holds.
pub open spec fn later_by(t: i64, span: int) -> i64 {
    if t + span <= i64::MAX { (t + span) as i64 } else { i64::MAX }
}

/// Subscription `s` cancelled at `t`.
pub open spec fn cancelled_at(s: SubscriptionView, t: i64) -> SubscriptionView {
    SubscriptionView { status: SubscriptionStatus::Cancelled, cancelled_at: Some(t), ..s }
}

/// Whether a payment's refunds stay within what was paid.
pub open spec fn refund_within(p: PaymentView) -> bool {
    p.refunded_amount_cents <= p.amount_cents
}

/// Whether `amount` of payment `p` may be refunded: the payment is
/// completed and the amount is at most what has not been refunded yet.
pub open spec fn refund_allowed(p: PaymentView, amount: u64) -> bool {
    p.status == PaymentStatus::Completed && amount <= p.amount_cents - p.refunded_amount_cents
}

/// Payment `p` after `amount` of it is refunded at `now`: refunded in full
/// or in part, updated at `now`.
pub open spec fn refunded(p: PaymentView, amount: u64, now: i64) -> PaymentView {
    let total = (p.refunded_amount_cents + amount) as u64;
    PaymentView {
        refunded_amount_cents: total,
        status: if total >= p.amount_cents {
            PaymentStatus::Refunded
        } else {
            PaymentStatus::PartiallyRefunded
        },
        updated_at: now,
        ..p
    }
}

/// What the completed payments of `plugin_id` made between `start` and
/// `end` (inclusive) brought in, net of refunds.
pub open spec fn period_revenue(ps: Seq<PaymentView>, plugin_id: Seq<char>, start: i64, end: i64) -> int
    decreases ps.len(),
{
    if ps.len() == 0 {
        0
    } else {
        let p = ps.last();
        period_revenue(ps.drop_last(), plugin_id, start, end) + if p.plugin_id == plugin_id && p.status
            == PaymentStatus::Completed && start <= p.created_at <= end {
            p.amount_cents - p.refunded_amount_cents
        } else {
            0
        }
    }
}

/// Payments, subscriptions and plans.
#[derive(Debug)]
pub struct PaymentService {
    payments: KeyedList<PaymentRecord>,
    subscriptions: KeyedList<SubscriptionRecord>,
    user_payment_methods: KeyedList<Vec<PaymentMethod>>,
    subscription_plans: KeyedList<SubscriptionPlan>,
}

impl PaymentService {
    /// The maps keep their keys distinct, and no payment has more refunded
    /// than it was for.
    pub closed spec fn wf(self) -> bool {
        &&& self.payments.wf()
        &&& self.subscriptions.wf()
        &&& self.user_payment_methods.wf()
        &&& self.subscription_plans.wf()
        &&& forall|k: Seq<char>| #[trigger] self.payments.map().contains_key(k) ==> refund_within(
            self.payments.map()[k].view(),
        )
    }

    /// The payments by identifier.
    pub closed spec fn payments(self) -> Map<Seq<char>, PaymentView> {
        self.payments.map().map_values(|p: PaymentRecord| p.view())
    }

    /// The payments in the order they were made.
    pub closed spec fn payment_list(self) -> Seq<PaymentView> {
        self.payments.entries().map_values(|e: (String, PaymentRecord)| e.1.view())
    }

    /// The subscriptions by identifier.
    pub closed spec fn subscriptions(self) -> Map<Seq<char>, SubscriptionView> {
        self.subscriptions.map().map_values(|s: SubscriptionRecord| s.view())
    }

    /// The plans by identifier.
    pub closed spec fn plans(self) -> Map<Seq<char>, PlanView> {
        self.subscription_plans.map().map_values(|p: SubscriptionPlan| p.view())
    }

    /// Nothing recorded.
    pub fn new() -> (s: Self)
        ensures
            s.wf(),
            s.payments() == Map::<Seq<char>, PaymentView>::empty(),
            s.subscriptions() == Map::<Seq<char>, SubscriptionView>::empty(),
            s.plans() == Map::<Seq<char>, PlanView>::empty(),
    {
        let s = PaymentService {
            payments: KeyedList::new(),
            subscriptions: KeyedList::new(),
            user_payment_methods: KeyedList::new(),
            subscription_plans: KeyedList::new(),
        };
        assert(s.payments() =~= Map::<Seq<char>, PaymentView>::empty());
        assert(s.subscriptions() =~= Map::<Seq<char>, SubscriptionView>::empty());
        assert(s.plans() =~= Map::<Seq<char>, PlanView>::empty());
        s
    }

    /// Takes a payment of `amount_cents` from `user_id` for `plugin_id`. The
    /// gateway is simulated: the payment completes at once with a
    /// transaction identifier `txn_<random identifier>`.
    pub fn process_payment(
        &mut self,
        user_id: String,
        plugin_id: String,
        amount_cents: u64,
        currency: String,
        payment_method: PaymentMethod,
    ) -> (r: WasmResult<PaymentRecord>)
        requires
            old(self).wf(),
        ensures
            final(self).wf(),
            final(self).subscriptions() == old(self).subscriptions(),
            final(self).plans() == old(self).plans(),
            r matches Ok(p) && p.user_id@ == user_id@ && p.plugin_id@ == plugin_id@ && p.amount_cents
                == amount_cents && p.currency@ == currency@ && p.status == PaymentStatus::Completed
                && p.refunded_amount_cents == 0 && p.failure_reason is None && p.created_at >= 0
                && p.updated_at >= 0
                && (p.gateway_transaction_id matches Some(t) && t@.subrange(0, 4) == "txn_"@)
                && final(self).payments() == old(self).payments().insert(p.id@, p.view()),
    {
        let payment_id = new_uuid_string();
        let created = utc_now_millis();
        let txn_uuid = new_uuid_string();
        let txn = concat("txn_", txn_uuid.as_str());
        proof {
            reveal_strlit("txn_");
            assert(txn@.subrange(0, 4) =~= "txn_"@);
        }
        let payment = PaymentRecord {
            id: payment_id.clone(),
            user_id,
            plugin_id,
            amount_cents,
            currency,
            payment_method,
            status: PaymentStatus::Completed,
            created_at: created,
            updated_at: utc_now_millis(),
            gateway_transaction_id: Some(txn),
            failure_reason: None,
            refunded_amount_cents: 0,
        };
        let stored = payment.duplicate();
        self.payments.insert(payment_id, stored);
        assert(self.payments() =~= old(self).payments().insert(payment.id@, payment.view()));
        assert forall|k: Seq<char>| #[trigger] self.payments.map().contains_key(k) implies refund_within(
            self.payments.map()[k].view(),
        ) by {
            if k != payment.id@ {
                assert(old(self).payments.map().contains_key(k));
            }
        }
        Ok(payment)
    }

    /// Adds or replaces plan `plan` under its identifier.
    pub fn add_subscription_plan(&mut self, plan: SubscriptionPlan) -> (r: WasmResult<()>)
        requires
            old(self).wf(),
        ensures
            r is Ok,
            final(self).wf(),
            final(self).plans() == old(self).plans().insert(plan.id@, plan.view()),
            final(self).payments() == old(self).payments(),
            final(self).subscriptions() == old(self).subscriptions(),
    {
        let ghost pv = plan.view();
        let id = plan.id.clone();
        self.subscription_plans.insert(id, plan);
        assert(self.plans() =~= old(self).plans().insert(pv.id, pv));
        Ok(())
    }

    /// Subscribes `user_id` to plan `plan_id` for `plugin_id`, active from
    /// now and billed next after the plan's cycle; an error when there is no
    /// such plan.
    pub fn create_subscription(
        &mut self,
        user_id: String,
        plugin_id: String,
        plan_id: String,
        payment_method: PaymentMethod,
    ) -> (r: WasmResult<SubscriptionRecord>)
        requires
            old(self).wf(),
        ensures
            final(self).wf(),
            final(self).payments() == old(self).payments(),
            final(self).plans() == old(self).plans(),
            !old(self).plans().contains_key(plan_id@) ==> (r matches Err(WasmError::PluginExecution(m)) && m@
                == "订阅计划不存在"@ && final(self).subscriptions() == old(self).subscriptions()),
            old(self).plans().contains_key(plan_id@) ==> (r matches Ok(s) && s.user_id@ == user_id@ && s.plugin_id@
                == plugin_id@ && s.plan.view() == old(self).plans()[plan_id@] && s.status == SubscriptionStatus::Active
                && s.cancelled_at is None && s.payment_history@.len() == 0 && s.started_at >= 0 && s.next_billing_at == later_by(s.started_at, cycle_days(s.plan.billing_cycle)
                * DAY_MILLIS) && final(self).subscriptions() == old(self).subscriptions().insert(s.id@, s.view())),
    {
        let plan = match self.subscription_plans.get(plan_id.as_str()) {
            Some(p) => p.duplicate(),
            None => {
                return Err(WasmError::PluginExecution(String::from_str("订阅计划不存在")));
            },
        };
        let subscription_id = new_uuid_string();
        let now = utc_now_millis();
        let days: i64 = match plan.billing_cycle {
            BillingCycle::Monthly => 30,
            BillingCycle::Quarterly => 90,
            BillingCycle::Yearly => 365,
        };
        let span: i64 = days * DAY_MILLIS;
        let next: i64 = if now <= i64::MAX - span { now + span } else { i64::MAX };
        let subscription = SubscriptionRecord {
            id: subscription_id.clone(),
            user_id,
            plugin_id,
            plan,
            status: SubscriptionStatus::Active,
            started_at: now,
            next_billing_at: next,
            cancelled_at: None,
            payment_method,
            payment_history: Vec::new(),
        };
        let stored = subscription.duplicate();
        self.subscriptions.insert(subscription_id, stored);
        assert(self.subscriptions() =~= old(self).subscriptions().insert(subscription.id@, subscription.view()));
        Ok(subscription)
    }

    /// Cancels subscription `subscription_id` now, if it exists.
    pub fn cancel_subscription(&mut self, subscription_id: &str) -> (r: WasmResult<()>)
        requires
            old(self).wf(),
        ensures
            r is Ok,
            final(self).wf(),
            final(self).payments() == old(self).payments(),
            final(self).plans() == old(self).plans(),
            !old(self).subscriptions().contains_key(subscription_id@) ==> final(self).subscriptions() == old(
                self,
            ).subscriptions(),
            old(self).subscriptions().contains_key(subscription_id@) ==> exists|t: i64| final(self).subscriptions()
                == old(self).subscriptions().insert(
                subscription_id@,
                #[trigger] cancelled_at(old(self).subscriptions()[subscription_id@], t),
            ),
    {
        match self.subscriptions.remove(subscription_id) {
            Some(s) => {
                let mut s = s;
                let now = utc_now_millis();
                s.status = SubscriptionStatus::Cancelled;
                s.cancelled_at = Some(now);
                let ghost sv = s.view();
                self.subscriptions.insert(String::from_str(subscription_id), s);
                assert(self.subscriptions() =~= old(self).subscriptions().insert(subscription_id@, sv));
                assert(sv == cancelled_at(old(self).subscriptions()[subscription_id@], now));
            },
            None => {},
        }
        Ok(())
    }

    /// Refunds `refund_amount_cents` of payment `payment_id`: an error when
    /// the payment is not completed or the amount exceeds what is left to
    /// refund; nothing happens when there is no such payment.
    pub fn process_refund(&mut self, payment_id: &str, refund_amount_cents: u64, reason: String) -> (r: WasmResult<()>)
        requires
            old(self).wf(),
        ensures
            final(self).wf(),
            final(self).subscriptions() == old(self).subscriptions(),
            final(self).plans() == old(self).plans(),
            !old(self).payments().contains_key(payment_id@) ==> r is Ok && final(self).payments() == old(
                self,
            ).payments(),
            old(self).payments().contains_key(payment_id@) && old(self).payments()[payment_id@].status
                != PaymentStatus::Completed ==> (r matches Err(WasmError::PluginExecution(m)) && m@ == "只能退款已完成的支付"@
                && final(self).payments() == old(self).payments()),
            old(self).payments().contains_key(payment_id@) && old(self).payments()[payment_id@].status
                == PaymentStatus::Completed && !refund_allowed(old(self).payments()[payment_id@], refund_amount_cents) ==> (r matches Err(
                WasmError::PluginExecution(m),
            ) && m@ == "退款金额超过可退款金额"@ && final(self).payments() == old(self).payments()),
            old(self).payments().contains_key(payment_id@) && refund_allowed(old(self).payments()[payment_id@], refund_amount_cents)
                ==> r is Ok && exists|now: i64| now >= 0 && final(self).payments() == old(self).payments().insert(
                payment_id@,
                #[trigger] refunded(old(self).payments()[payment_id@], refund_amount_cents, now),
            ),
    {
        let entry = self.payments.remove(payment_id);
        match entry {
            None => Ok(()),
            Some(p) => {
                let mut p = p;
                assert(refund_within(p.view())) by {
                    assert(old(self).payments.map().contains_key(payment_id@));
                }
                if p.status != PaymentStatus::Completed {
                    self.payments.insert(String::from_str(payment_id), p);
                    assert(self.payments() =~= old(self).payments());
                    proof { self.lemma_payments_wf(old(self).payments, payment_id@); }
                    proof {
                        reveal_strlit("只能退款已完成的支付");
                    }
                    return Err(WasmError::PluginExecution(String::from_str("只能退款已完成的支付")));
                }
                if refund_amount_cents > p.amount_cents - p.refunded_amount_cents {
                    self.payments.insert(String::from_str(payment_id), p);
                    assert(self.payments() =~= old(self).payments());
                    proof { self.lemma_payments_wf(old(self).payments, payment_id@); }
                    proof {
                        reveal_strlit("退款金额超过可退款金额");
                    }
                    return Err(WasmError::PluginExecution(String::from_str("退款金额超过可退款金额")));
                }
                p.refunded_amount_cents = p.refunded_amount_cents + refund_amount_cents;
                p.updated_at = utc_now_millis();
                if p.refunded_amount_cents >= p.amount_cents {
                    p.status = PaymentStatus::Refunded;
                } else {
                    p.status = PaymentStatus::PartiallyRefunded;
                }
                let ghost pv = p.view();
                assert(pv == refunded(old(self).payments()[payment_id@], refund_amount_cents, p.updated_at));
                self.payments.insert(String::from_str(payment_id), p);
                assert(self.payments() =~= old(self).payments().insert(payment_id@, pv));
                assert forall|k: Seq<char>| #[trigger] self.payments.map().contains_key(k) implies refund_within(
                    self.payments.map()[k].view(),
                ) by {
                    if k != payment_id@ {
                        assert(old(self).payments.map().contains_key(k));
                    }
                }
                Ok(())
            },
        }
    }

    /// Every payment in the list has its refunds within bounds.
    proof fn lemma_list_refunds(self)
        requires
            self.wf(),
        ensures
            forall|i: int| 0 <= i < self.payment_list().len() ==> refund_within(#[trigger] self.payment_list()[i]),
    {
        self.payments.lemma_model();
        assert forall|i: int| 0 <= i < self.payment_list().len() implies refund_within(#[trigger] self.payment_list()[i]) by {
            let k = self.payments.entries()[i].0@;
            assert(self.payments.map()[k] == self.payments.entries()[i].1);
            assert(self.payments.map().contains_key(k));
        }
    }

    /// Putting back an unchanged payment keeps every refund within bounds.
    proof fn lemma_payments_wf(self, before: KeyedList<PaymentRecord>, key: Seq<char>)
        requires
            self.payments.wf(),
            before.wf(),
            self.payments.map() == before.map().remove(key).insert(key, before.map()[key]),
            before.map().contains_key(key),
            forall|k: Seq<char>| #[trigger] before.map().contains_key(k) ==> refund_within(before.map()[k].view()),
        ensures
            forall|k: Seq<char>| #[trigger] self.payments.map().contains_key(k) ==> refund_within(
                self.payments.map()[k].view(),
            ),
    {
        assert forall|k: Seq<char>| #[trigger] self.payments.map().contains_key(k) implies refund_within(
            self.payments.map()[k].view(),
        ) by {
            assert(before.map().contains_key(k));
        }
    }

    /// What the completed payments of `plugin_id` made between
    /// `period_start` and `period_end` brought in, net of refunds.
    pub fn period_revenue_cents(&self, plugin_id: &str, period_start: i64, period_end: i64) -> (total: u64)
        requires
            self.wf(),
            period_revenue(self.payment_list(), plugin_id@, period_start, period_end) <= u64::MAX,
        ensures
            total == period_revenue(self.payment_list(), plugin_id@, period_start, period_end),
    {
        let n = self.payments.entry_count();
        let mut total: u64 = 0;
        let mut i: usize = 0;
        proof {
            self.payments.lemma_model();
        }
        while i < n
            invariant
                self.wf(),
                n == self.payment_list().len(),
                n == self.payments.entries().len(),
                i <= n,
                total == period_revenue(self.payment_list().subrange(0, i as int), plugin_id@, period_start, period_end),
                period_revenue(self.payment_list(), plugin_id@, period_start, period_end) <= u64::MAX,
            decreases n - i,
        {
            proof {
                self.lemma_list_refunds();
                lemma_revenue_prefix(self.payment_list(), i + 1, plugin_id@, period_start, period_end);
                assert(self.payment_list().subrange(0, i + 1).drop_last() =~= self.payment_list().subrange(0, i as int));
                assert(refund_within(self.payment_list()[i as int]));
            }
            let (_id, p) = self.payments.entry_at(i);
            assert(p.view() == self.payment_list()[i as int]);
            if str_eq(p.plugin_id.as_str(), plugin_id) && p.status == PaymentStatus::Completed && period_start
                <= p.created_at && p.created_at <= period_end {
                total = total + (p.amount_cents - p.refunded_amount_cents);
            }
            i = i + 1;
        }
        assert(self.payment_list().subrange(0, i as int) =~= self.payment_list());
        total
    }

    /// Copies of `user_id`'s payments, in the order they were made.
    pub fn get_user_payment_history(&self, user_id: &str) -> (r: Vec<PaymentRecord>)
        requires
            self.wf(),
        ensures
            r@.map_values(|p: PaymentRecord| p.view()) == self.payment_list().filter(|p: PaymentView| p.user_id == user_id@),
    {
        let n = self.payments.entry_count();
        let mut out: Vec<PaymentRecord> = Vec::new();
        let mut i: usize = 0;
        let ghost pred = |p: PaymentView| p.user_id == user_id@;
        while i < n
            invariant
                n == self.payment_list().len(),
                n == self.payments.entries().len(),
                i <= n,
                pred == (|p: PaymentView| p.user_id == user_id@),
                out@.map_values(|p: PaymentRecord| p.view()) == self.payment_list().subrange(0, i as int).filter(pred),
            decreases n - i,
        {
            let (_id, p) = self.payments.entry_at(i);
            let ghost before = self.payment_list().subrange(0, i as int);
            assert(self.payment_list().subrange(0, i + 1) =~= before.push(p.view()));
            proof {
                crate::seqs::lemma_filter_push(before, pred, p.view());
            }
            if str_eq(p.user_id.as_str(), user_id) {
                let ghost o = out@;
                out.push(p.duplicate());
                assert(out@.map_values(|p: PaymentRecord| p.view()) =~= o.map_values(|p: PaymentRecord| p.view()).push(
                    p.view(),
                ));
            }
            i = i + 1;
        }
        assert(self.payment_list().subrange(0, i as int) =~= self.payment_list());
        out
    }

    /// The subscriptions in the order they were made.
    pub closed spec fn subscription_list(self) -> Seq<SubscriptionView> {
        self.subscriptions.entries().map_values(|e: (String, SubscriptionRecord)| e.1.view())
    }

    /// The plans in the order they were first added.
    pub closed spec fn plan_list(self) -> Seq<PlanView> {
        self.subscription_plans.entries().map_values(|e: (String, SubscriptionPlan)| e.1.view())
    }

    /// Copies of `user_id`'s subscriptions, in the order they were made.
    pub fn get_user_subscriptions(&self, user_id: &str) -> (r: Vec<SubscriptionRecord>)
        requires
            self.wf(),
        ensures
            r@.map_values(|s: SubscriptionRecord| s.view()) == self.subscription_list().filter(
                |s: SubscriptionView| s.user_id == user_id@,
            ),
    {
        let n = self.subscriptions.entry_count();
        let mut out: Vec<SubscriptionRecord> = Vec::new();
        let mut i: usize = 0;
        let ghost pred = |s: SubscriptionView| s.user_id == user_id@;
        while i < n
            invariant
                n == self.subscription_list().len(),
                n == self.subscriptions.entries().len(),
                i <= n,
                pred == (|s: SubscriptionView| s.user_id == user_id@),
                out@.map_values(|s: SubscriptionRecord| s.view()) == self.subscription_list().subrange(0, i as int).filter(pred),
            decreases n - i,
        {
            let (_id, sub) = self.subscriptions.entry_at(i);
            let ghost before = self.subscription_list().subrange(0, i as int);
            assert(self.subscription_list().subrange(0, i + 1) =~= before.push(sub.view()));
            proof {
                crate::seqs::lemma_filter_push(before, pred, sub.view());
            }
            if str_eq(sub.user_id.as_str(), user_id) {
                let ghost o = out@;
                out.push(sub.duplicate());
                assert(out@.map_values(|s: SubscriptionRecord| s.view()) =~= o.map_values(|s: SubscriptionRecord| s.view()).push(
                    sub.view(),
                ));
            }
            i = i + 1;
        }
        assert(self.subscription_list().subrange(0, i as int) =~= self.subscription_list());
        out
    }

    /// Copies of every plan, in the order they were first added, whatever
    /// the plugin: plans are not kept per plugin.
    pub fn get_subscription_plans(&self, plugin_id: &str) -> (r: Vec<SubscriptionPlan>)
        requires
            self.wf(),
        ensures
            r@.map_values(|p: SubscriptionPlan| p.view()) == self.plan_list(),
    {
        let n = self.subscription_plans.entry_count();
        let mut out: Vec<SubscriptionPlan> = Vec::new();
        let mut i: usize = 0;
        while i < n
            invariant
                n == self.plan_list().len(),
                n == self.subscription_plans.entries().len(),
                i <= n,
                out@.map_values(|p: SubscriptionPlan| p.view()) == self.plan_list().subrange(0, i as int),
            decreases n - i,
        {
            let (_id, plan) = self.subscription_plans.entry_at(i);
            let ghost o = out@;
            out.push(plan.duplicate());
            assert(out@.map_values(|p: SubscriptionPlan| p.view()) =~= o.map_values(|p: SubscriptionPlan| p.view()).push(
                plan.view(),
            ));
            assert(self.plan_list().subrange(0, i + 1) =~= self.plan_list().subrange(0, i as int).push(plan.view()));
            i = i + 1;
        }
        assert(self.plan_list().subrange(0, i as int) =~= self.plan_list());
        out
    }
}

/// A prefix of the payments brings in no more than all of them.
pub proof fn lemma_revenue_prefix(ps: Seq<PaymentView>, k: int, plugin_id: Seq<char>, start: i64, end: i64)
    requires
        0 <= k <= ps.len(),
        forall|i: int| 0 <= i < ps.len() ==> refund_within(#[trigger] ps[i]),
    ensures
        0 <= period_revenue(ps.subrange(0, k), plugin_id, start, end) <= period_revenue(ps, plugin_id, start, end),
    decreases ps.len(),
{
    if ps.len() > 0 {
        if k < ps.len() {
            assert(ps.subrange(0, k) =~= ps.drop_last().subrange(0, k));
            lemma_revenue_prefix(ps.drop_last(), k, plugin_id, start, end);
            assert(refund_within(ps[ps.len() - 1]));
        } else {
            assert(ps.subrange(0, k) =~= ps);
            lemma_revenue_prefix(ps.drop_last(), ps.len() - 1, plugin_id, start, end);
            assert(ps.drop_last().subrange(0, ps.len() - 1) =~= ps.drop_last());
            assert(refund_within(ps[ps.len() - 1]));
        }
    }
}

impl Default for PaymentService {
    fn default() -> (s: Self)
        ensures
            s.wf(),
            s.payments() == Map::<Seq<char>, PaymentView>::empty(),
            s.subscriptions() == Map::<Seq<char>, SubscriptionView>::empty(),
            s.plans() == Map::<Seq<char>, PlanView>::empty(),
    {
        PaymentService::new()
    }
}

} // verus!
