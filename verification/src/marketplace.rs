//! The marketplace: the approval workflow of submitted invoices, their
//! funding, and the settlement of payments.

use crate::error::Error;
use crate::id_list::lemma_push_members;
use crate::id_list::lemma_push_then_remove;
use crate::id_list::lemma_without_first_members;
use crate::id_list::without_first;
use crate::id_list::IdList;
use crate::money::basis_points_of;
use crate::money::bp_of;
use crate::money::days_between;
use crate::money::days_until;
use crate::money::fits_i128;
use crate::money::lemma_trunc_div_bounds;
use crate::money::trunc_div;
use crate::principal::Principal;
use std::collections::HashMap;
use vstd::prelude::*;

verus! {

broadcast use vstd::std_specs::hash::group_hash_axioms;

/// Where a submitted invoice stands in the workflow. Pending, approved,
/// funded and completed invoices are kept on a list each.
#[derive(Clone, Copy, Debug, PartialEq, Eq, Structural)]
pub enum InvoiceStatus {
    Pending,
    Approved,
    Rejected,
    Funded,
    Completed,
    Overdue,
    Cancelled,
}

/// How an invoice was paid.
#[derive(Clone, Copy, Debug, PartialEq, Eq, Structural)]
pub enum PaymentMethod {
    Crypto,
    Fiat,
    Mixed,
}

/// The terms of the marketplace.
#[derive(Clone, Copy, Debug, PartialEq, Eq, Structural)]
pub struct MarketplaceSettings {
    pub admin: Principal,
    /// In basis points.
    pub platform_fee: u32,
    /// In percent of the approved amount.
    pub max_funding_ratio: u32,
    pub min_invoice_amount: i128,
    pub max_invoice_amount: i128,
    pub auto_approval_threshold: i128,
    /// In basis points.
    pub early_payment_bonus: u32,
    pub min_days_until_due: u64,
    pub max_days_until_due: u64,
}

/// What the marketplace keeps of a submitted invoice.
#[derive(Clone, Debug, PartialEq, Eq)]
pub struct InvoiceApproval {
    pub invoice_id: u64,
    pub creator: Principal,
    pub amount: i128,
    pub due_date: u64,
    pub status: InvoiceStatus,
    pub approved_amount: Option<i128>,
    pub approval_date: Option<u64>,
    pub funding_date: Option<u64>,
    pub completion_date: Option<u64>,
    pub risk_score: String,
    /// In basis points.
    pub discount_rate: u32,
    pub funded_amount: Option<i128>,
}

/// The settlement of an invoice.
#[derive(Clone, Copy, Debug, PartialEq, Eq, Structural)]
pub struct PaymentRecord {
    pub invoice_id: u64,
    pub payer: Principal,
    pub amount: i128,
    pub payment_method: PaymentMethod,
    pub payment_date: u64,
    pub is_early_payment: bool,
    pub cashback_amount: i128,
    pub platform_fee: i128,
}

/// What the marketplace has settled so far. Only the count, the volume and
/// the fees are kept up; the other figures stay at zero.
#[derive(Clone, Copy, Debug, PartialEq, Eq, Structural)]
pub struct MarketplaceStats {
    pub total_invoices_processed: u64,
    pub total_volume_processed: i128,
    pub total_fees_collected: i128,
    pub active_invoices: u64,
    pub success_rate: u32,
    pub average_funding_time: u64,
    pub total_liquidity_provided: i128,
}

/// What the marketplace reports of an operation that took effect.
#[derive(Clone, Debug, PartialEq, Eq)]
pub enum MarketEvent {
    Initialized { admin: Principal, invoice_nft_contract: Principal, liquidity_pool_contract: Principal },
    Submitted { invoice_id: u64, creator: Principal, amount: i128, status: InvoiceStatus },
    Funded { invoice_id: u64, funding_amount: i128, expected_return: i128 },
    Approved { invoice_id: u64, approved_amount: i128 },
    Rejected { invoice_id: u64, reason: String },
    Payment { invoice_id: u64, payer: Principal, amount: i128, is_early: bool, cashback: i128 },
    SettingsUpdated { admin: Principal },
}

/// The marketplace: its terms, its statistics, the records by invoice and
/// the four lists by status.
pub struct MarketplaceContract {
    pub settings: MarketplaceSettings,
    pub invoice_nft_contract: Principal,
    pub liquidity_pool_contract: Principal,
    pub stats: MarketplaceStats,
    pub approvals: HashMap<u64, InvoiceApproval>,
    pub payments: HashMap<u64, PaymentRecord>,
    pub pending: IdList,
    pub approved: IdList,
    pub funded: IdList,
    pub completed: IdList,
    pub events: Vec<MarketEvent>,
}

/// Discount, in basis points, by the term of the receivable: seven percent
/// up to thirty days, six percent up to ninety, five percent beyond.
pub open spec fn tiered_discount_bp(days: int) -> int {
    if days <= 30 {
        700
    } else if days <= 90 {
        600
    } else {
        500
    }
}

/// The settings that a new marketplace starts with.
pub open spec fn default_settings(admin: Principal) -> MarketplaceSettings {
    MarketplaceSettings {
        admin,
        platform_fee: 50,
        max_funding_ratio: 95,
        min_invoice_amount: 1000000000,
        max_invoice_amount: 1000000000000,
        auto_approval_threshold: 10000000000,
        early_payment_bonus: 300,
        min_days_until_due: 7,
        max_days_until_due: 365,
    }
}

/// Statistics in which nothing has been counted yet.
pub open spec fn zero_stats() -> MarketplaceStats {
    MarketplaceStats {
        total_invoices_processed: 0,
        total_volume_processed: 0,
        total_fees_collected: 0,
        active_invoices: 0,
        success_rate: 0,
        average_funding_time: 0,
        total_liquidity_provided: 0,
    }
}

/// The capital advanced on an approved amount: `ratio` percent of it,
/// rounded toward zero.
pub open spec fn funding_amount_for(approved_amount: int, ratio: int) -> int {
    trunc_div(approved_amount * ratio, 100)
}

/// What a funding is expected to return: the amount advanced plus the
/// discount on it, prorated over the days until the invoice falls due.
pub open spec fn expected_return_for(funding_amount: int, discount_rate: int, days: int) -> int {
    funding_amount + trunc_div(funding_amount * discount_rate * days, 3650000)
}

/// The machine can compute the funding of `approved_amount`.
pub open spec fn funding_fits(
    approved_amount: i128,
    ratio: u32,
    discount_rate: u32,
    due_date: u64,
    now: u64,
) -> bool {
    let funding = funding_amount_for(approved_amount as int, ratio as int);
    let days = days_between(now as int, due_date as int);
    &&& now <= due_date
    &&& fits_i128(approved_amount * ratio)
    &&& fits_i128(funding * discount_rate)
    &&& fits_i128(funding * discount_rate * days)
    &&& fits_i128(expected_return_for(funding, discount_rate as int, days))
}

/// The record of an approval once it is funded at time `now`.
pub open spec fn funded_record(approval: InvoiceApproval, ratio: u32, now: u64) -> InvoiceApproval {
    InvoiceApproval {
        status: InvoiceStatus::Funded,
        funding_date: Some(now),
        funded_amount: Some(
            funding_amount_for(approval.approved_amount.unwrap() as int, ratio as int) as i128,
        ),
        ..approval
    }
}

/// The event that reports the funding of `approval` at time `now`.
pub open spec fn funded_event(
    invoice_id: u64,
    approval: InvoiceApproval,
    ratio: u32,
    now: u64,
) -> MarketEvent {
    let funding = funding_amount_for(approval.approved_amount.unwrap() as int, ratio as int);
    MarketEvent::Funded {
        invoice_id,
        funding_amount: funding as i128,
        expected_return: expected_return_for(
            funding,
            approval.discount_rate as int,
            days_between(now as int, approval.due_date as int),
        ) as i128,
    }
}

/// The error, if any, that refuses the submission of an invoice of which
/// the marketplace keeps the record `existing`. An invoice is submitted
/// once: where a record is kept of it already, whatever its status, a
/// further submission is refused as out of state.
pub open spec fn submission_refusal(
    settings: MarketplaceSettings,
    existing: Option<InvoiceApproval>,
    amount: i128,
    due_date: u64,
    now: u64,
    authorized: bool,
) -> Option<Error> {
    let days = days_between(now as int, due_date as int);
    if !authorized {
        Some(Error::Unauthorized)
    } else if amount < settings.min_invoice_amount || amount > settings.max_invoice_amount {
        Some(Error::OutOfRange)
    } else if due_date <= now {
        Some(Error::InvalidDueDate)
    } else if days < settings.min_days_until_due || days > settings.max_days_until_due {
        Some(Error::OutOfRange)
    } else if existing.is_some() {
        Some(Error::InvalidState)
    } else {
        None
    }
}

/// Whether an invoice of `amount` is approved without a decision of the administrator.
pub open spec fn auto_approved(settings: MarketplaceSettings, amount: i128) -> bool {
    amount <= settings.auto_approval_threshold
}

/// Whether `approval` is the record that the marketplace keeps of an
/// invoice submitted at time `now`: funded at once where the amount is
/// within the threshold of automatic approval, pending otherwise.
pub open spec fn is_submitted_record(
    approval: InvoiceApproval,
    settings: MarketplaceSettings,
    invoice_id: u64,
    creator: Principal,
    amount: i128,
    due_date: u64,
    now: u64,
) -> bool {
    &&& approval.invoice_id == invoice_id
    &&& approval.creator == creator
    &&& approval.amount == amount
    &&& approval.due_date == due_date
    &&& approval.risk_score@ == "C"@
    &&& approval.discount_rate == tiered_discount_bp(days_between(now as int, due_date as int))
    &&& approval.completion_date.is_none()
    &&& if auto_approved(settings, amount) {
        &&& approval.status == InvoiceStatus::Funded
        &&& approval.approved_amount == Some(amount)
        &&& approval.approval_date == Some(now)
        &&& approval.funding_date == Some(now)
        &&& approval.funded_amount == Some(
            funding_amount_for(amount as int, settings.max_funding_ratio as int) as i128,
        )
    } else {
        &&& approval.status == InvoiceStatus::Pending
        &&& approval.approved_amount.is_none()
        &&& approval.approval_date.is_none()
        &&& approval.funding_date.is_none()
        &&& approval.funded_amount.is_none()
    }
}

/// The error, if any, that refuses a decision of `admin` on the invoice
/// whose record is `approval`.
pub open spec fn decision_refusal(
    settings: MarketplaceSettings,
    approval: Option<InvoiceApproval>,
    admin: Principal,
    authorized: bool,
) -> Option<Error> {
    if !authorized || admin != settings.admin {
        Some(Error::Unauthorized)
    } else {
        match approval {
            None => Some(Error::NotFound),
            Some(a) => if a.status != InvoiceStatus::Pending {
                Some(Error::InvalidState)
            } else {
                None
            },
        }
    }
}

/// The error, if any, that refuses the approval of `approved_amount`.
pub open spec fn approval_refusal(
    settings: MarketplaceSettings,
    approval: Option<InvoiceApproval>,
    admin: Principal,
    approved_amount: i128,
    authorized: bool,
) -> Option<Error> {
    match decision_refusal(settings, approval, admin, authorized) {
        Some(e) => Some(e),
        None => if approved_amount > approval.unwrap().amount {
            Some(Error::OutOfRange)
        } else {
            None
        },
    }
}

/// The record of a pending invoice once `approved_amount` is approved and
/// funded at time `now`.
pub open spec fn approved_record(
    approval: InvoiceApproval,
    approved_amount: i128,
    risk_score: String,
    ratio: u32,
    now: u64,
) -> InvoiceApproval {
    InvoiceApproval {
        status: InvoiceStatus::Funded,
        approved_amount: Some(approved_amount),
        approval_date: Some(now),
        risk_score,
        funding_date: Some(now),
        funded_amount: Some(funding_amount_for(approved_amount as int, ratio as int) as i128),
        ..approval
    }
}

/// The error, if any, that refuses a payment.
pub open spec fn payment_refusal(approval: Option<InvoiceApproval>, authorized: bool) -> Option<
    Error,
> {
    if !authorized {
        Some(Error::Unauthorized)
    } else {
        match approval {
            None => Some(Error::NotFound),
            Some(a) => if a.status != InvoiceStatus::Funded {
                Some(Error::InvalidState)
            } else {
                None
            },
        }
    }
}

/// The cashback on a payment: the early-payment bonus where the payment
/// comes before the due date, nothing from the due date on.
pub open spec fn cashback_for(payment_amount: i128, bonus_bp: u32, due_date: u64, now: u64) -> int {
    if now < due_date {
        bp_of(payment_amount as int, bonus_bp as int)
    } else {
        0
    }
}

/// The record of a payment settled at time `now`.
pub open spec fn payment_record_for(
    settings: MarketplaceSettings,
    due_date: u64,
    invoice_id: u64,
    payer: Principal,
    payment_amount: i128,
    payment_method: PaymentMethod,
    now: u64,
) -> PaymentRecord {
    PaymentRecord {
        invoice_id,
        payer,
        amount: payment_amount,
        payment_method,
        payment_date: now,
        is_early_payment: now < due_date,
        cashback_amount: cashback_for(payment_amount, settings.early_payment_bonus, due_date, now) as i128,
        platform_fee: bp_of(payment_amount as int, settings.platform_fee as int) as i128,
    }
}

/// The statistics after a payment of `payment_amount` that bore
/// `platform_fee`.
pub open spec fn stats_after_payment(
    stats: MarketplaceStats,
    payment_amount: i128,
    platform_fee: i128,
) -> MarketplaceStats {
    MarketplaceStats {
        total_invoices_processed: (stats.total_invoices_processed + 1) as u64,
        total_volume_processed: (stats.total_volume_processed + payment_amount) as i128,
        total_fees_collected: (stats.total_fees_collected + platform_fee) as i128,
        ..stats
    }
}

/// The error, if any, that refuses a request for funding by `creator`.
pub open spec fn funding_request_refusal(
    approval: Option<InvoiceApproval>,
    creator: Principal,
    authorized: bool,
) -> Option<Error> {
    if !authorized {
        Some(Error::Unauthorized)
    } else {
        match approval {
            None => Some(Error::NotFound),
            Some(a) => if a.status != InvoiceStatus::Approved {
                Some(Error::InvalidState)
            } else if a.creator != creator {
                Some(Error::Unauthorized)
            } else {
                None
            },
        }
    }
}

/// The error, if any, that refuses an update of the settings.
pub open spec fn settings_refusal(
    settings: MarketplaceSettings,
    admin: Principal,
    platform_fee: Option<u32>,
    max_funding_ratio: Option<u32>,
    early_payment_bonus: Option<u32>,
    authorized: bool,
) -> Option<Error> {
    if !authorized || admin != settings.admin {
        Some(Error::Unauthorized)
    } else if platform_fee.is_some() && platform_fee.unwrap() > 1000 {
        Some(Error::OutOfRange)
    } else if max_funding_ratio.is_some() && max_funding_ratio.unwrap() > 100 {
        Some(Error::OutOfRange)
    } else if early_payment_bonus.is_some() && early_payment_bonus.unwrap() > 1000 {
        Some(Error::OutOfRange)
    } else {
        None
    }
}

/// The settings after an update in which each given value replaces the
/// one in force.
pub open spec fn updated_settings(
    settings: MarketplaceSettings,
    platform_fee: Option<u32>,
    max_funding_ratio: Option<u32>,
    early_payment_bonus: Option<u32>,
    auto_approval_threshold: Option<i128>,
) -> MarketplaceSettings {
    MarketplaceSettings {
        platform_fee: match platform_fee {
            Some(fee) => fee,
            None => settings.platform_fee,
        },
        max_funding_ratio: match max_funding_ratio {
            Some(ratio) => ratio,
            None => settings.max_funding_ratio,
        },
        early_payment_bonus: match early_payment_bonus {
            Some(bonus) => bonus,
            None => settings.early_payment_bonus,
        },
        auto_approval_threshold: match auto_approval_threshold {
            Some(threshold) => threshold,
            None => settings.auto_approval_threshold,
        },
        ..settings
    }
}

/// Whether `list` is free of repetitions and holds exactly the invoices
/// whose record has the status `status`.
pub open spec fn lists_exactly(
    list: Seq<u64>,
    approvals: Map<u64, InvoiceApproval>,
    status: InvoiceStatus,
) -> bool {
    &&& list.no_duplicates()
    &&& forall|id: u64| #[trigger]
        list.contains(id) <==> (approvals.contains_key(id) && approvals[id].status == status)
}

/// Whether invoices of the status `status` are kept on a list.
pub open spec fn is_listed_status(status: InvoiceStatus) -> bool {
    status == InvoiceStatus::Pending || status == InvoiceStatus::Approved || status
        == InvoiceStatus::Funded || status == InvoiceStatus::Completed
}

/// `percent` percent of `amount`, rounded toward zero.
fn percent_of(amount: i128, percent: u32) -> (share: i128)
    requires
        fits_i128(amount * percent),
    ensures
        share == funding_amount_for(amount as int, percent as int),
{
    let wide: i128 = percent as i128;
    amount * wide / 100
}

/// What a funding of `funding_amount` is expected to return after `days`
/// days at `discount_rate` basis points a year.
fn expected_return(funding_amount: i128, discount_rate: u32, days: u64) -> (total: i128)
    requires
        fits_i128(funding_amount * discount_rate),
        fits_i128(funding_amount * discount_rate * days),
        fits_i128(expected_return_for(funding_amount as int, discount_rate as int, days as int)),
    ensures
        total == expected_return_for(funding_amount as int, discount_rate as int, days as int),
{
    let rate: i128 = discount_rate as i128;
    let term: i128 = days as i128;
    let interest: i128 = funding_amount * rate * term / 3650000;
    funding_amount + interest
}

/// Takes the first occurrence of `invoice_id` off `from` and puts
/// `invoice_id` at the end of `to`.
fn move_invoice_between_lists(from: &mut IdList, to: &mut IdList, invoice_id: u64)
    requires
        old(to)@.len() < u32::MAX,
    ensures
        final(from)@ == without_first(old(from)@, invoice_id),
        final(to)@ == old(to)@.push(invoice_id),
{
    from.remove_first(invoice_id);
    to.push(invoice_id);
}

/// Whether the machine can compute the funding of `approved_amount`.
pub fn can_fund(approved_amount: i128, ratio: u32, discount_rate: u32, due_date: u64, now: u64) -> (fits:
    bool)
    ensures
        fits == funding_fits(approved_amount, ratio, discount_rate, due_date, now),
{
    if now > due_date {
        return false;
    }
    let funding: i128 = match approved_amount.checked_mul(ratio as i128) {
        Some(product) => product / 100,
        None => {
            return false;
        },
    };
    let yearly: i128 = match funding.checked_mul(discount_rate as i128) {
        Some(product) => product,
        None => {
            return false;
        },
    };
    let days = days_until(now, due_date);
    let interest: i128 = match yearly.checked_mul(days as i128) {
        Some(product) => product / 3650000,
        None => {
            return false;
        },
    };
    funding.checked_add(interest).is_some()
}

impl MarketplaceContract {
    /// The record kept of `invoice_id`, if there is one.
    pub open spec fn approval(&self, invoice_id: u64) -> Option<InvoiceApproval> {
        if self.approvals@.contains_key(invoice_id) {
            Some(self.approvals@[invoice_id])
        } else {
            None
        }
    }

    /// The status of `invoice_id`, if a record is kept of it.
    pub open spec fn status_of(&self, invoice_id: u64) -> Option<InvoiceStatus> {
        match self.approval(invoice_id) {
            Some(a) => Some(a.status),
            None => None,
        }
    }

    /// The payment recorded for `invoice_id`, if there is one.
    pub open spec fn payment(&self, invoice_id: u64) -> Option<PaymentRecord> {
        if self.payments@.contains_key(invoice_id) {
            Some(self.payments@[invoice_id])
        } else {
            None
        }
    }

    /// Each of the four lists is free of repetitions and holds exactly the
    /// invoices whose status it is named after.
    pub open spec fn index_consistent(&self) -> bool {
        &&& lists_exactly(self.pending@, self.approvals@, InvoiceStatus::Pending)
        &&& lists_exactly(self.approved@, self.approvals@, InvoiceStatus::Approved)
        &&& lists_exactly(self.funded@, self.approvals@, InvoiceStatus::Funded)
        &&& lists_exactly(self.completed@, self.approvals@, InvoiceStatus::Completed)
    }

    /// Whether `invoice_id` stands on one of the four lists by its status.
    pub open spec fn is_listed(&self, invoice_id: u64) -> bool {
        match self.status_of(invoice_id) {
            Some(status) => is_listed_status(status),
            None => false,
        }
    }

    /// The parts of the marketplace that only its initialization and the
    /// update of its settings touch are the same in `self` and `other`.
    pub open spec fn same_setup(&self, other: &Self) -> bool {
        &&& self.settings == other.settings
        &&& self.invoice_nft_contract == other.invoice_nft_contract
        &&& self.liquidity_pool_contract == other.liquidity_pool_contract
    }

    /// A marketplace run by `admin`, with the default settings, zeroed
    /// statistics and four empty lists.
    pub fn initialize(
        env: &soroban_sdk::Env,
        admin: Principal,
        invoice_nft_contract: Principal,
        liquidity_pool_contract: Principal,
        authorized: bool,
    ) -> (result: Result<Self, Error>)
        ensures
            match result {
                Ok(market) => {
                    &&& authorized
                    &&& market.wf()
                    &&& market.index_consistent()
                    &&& market.settings == default_settings(admin)
                    &&& market.invoice_nft_contract == invoice_nft_contract
                    &&& market.liquidity_pool_contract == liquidity_pool_contract
                    &&& market.stats == zero_stats()
                    &&& market.approvals@ == Map::<u64, InvoiceApproval>::empty()
                    &&& market.payments@ == Map::<u64, PaymentRecord>::empty()
                    &&& market.pending@ == Seq::<u64>::empty()
                    &&& market.approved@ == Seq::<u64>::empty()
                    &&& market.funded@ == Seq::<u64>::empty()
                    &&& market.completed@ == Seq::<u64>::empty()
                    &&& market.events@ == seq![
                        MarketEvent::Initialized {
                            admin,
                            invoice_nft_contract,
                            liquidity_pool_contract,
                        },
                    ]
                },
                Err(e) => !authorized && e == Error::Unauthorized,
            },
    {
        if !authorized {
            return Err(Error::Unauthorized);
        }
        let settings = MarketplaceSettings {
            admin,
            platform_fee: 50,
            max_funding_ratio: 95,
            min_invoice_amount: 1000000000,
            max_invoice_amount: 1000000000000,
            auto_approval_threshold: 10000000000,
            early_payment_bonus: 300,
            min_days_until_due: 7,
            max_days_until_due: 365,
        };
        let stats = MarketplaceStats {
            total_invoices_processed: 0,
            total_volume_processed: 0,
            total_fees_collected: 0,
            active_invoices: 0,
            success_rate: 0,
            average_funding_time: 0,
            total_liquidity_provided: 0,
        };
        let mut events: Vec<MarketEvent> = Vec::new();
        events.push(
            MarketEvent::Initialized { admin, invoice_nft_contract, liquidity_pool_contract },
        );
        let market = MarketplaceContract {
            settings,
            invoice_nft_contract,
            liquidity_pool_contract,
            stats,
            approvals: HashMap::new(),
            payments: HashMap::new(),
            pending: IdList::new(env),
            approved: IdList::new(env),
            funded: IdList::new(env),
            completed: IdList::new(env),
            events,
        };
        assert(market.events@ =~= seq![
            MarketEvent::Initialized { admin, invoice_nft_contract, liquidity_pool_contract },
        ]);
        Ok(market)
    }

    /// Discount, in basis points, for a receivable that falls due in
    /// `days_until_due` days.
    pub fn calculate_discount_rate(days_until_due: u64) -> (rate: u32)
        ensures
            rate as int == tiered_discount_bp(days_until_due as int),
    {
        let base_rate: u32 = 500;
        if days_until_due <= 30 {
            base_rate + 200
        } else if days_until_due <= 90 {
            base_rate + 100
        } else {
            base_rate
        }
    }

    /// Funds `approval` where an amount has been approved: the record
    /// becomes funded at time `now` for the configured share of the
    /// approved amount, and the invoice moves from the list of approved
    /// invoices to the list of funded ones. No liquidity pool is asked.
    /// Where no amount has been approved nothing changes.
    fn try_fund_invoice(&mut self, invoice_id: u64, approval: &mut InvoiceApproval, now: u64)
        requires
            old(approval).approved_amount.is_some() ==> {
                &&& funding_fits(
                    old(approval).approved_amount.unwrap(),
                    old(self).settings.max_funding_ratio,
                    old(approval).discount_rate,
                    old(approval).due_date,
                    now,
                )
                &&& old(self).funded@.len() < u32::MAX
            },
        ensures
            final(self).same_setup(old(self)),
            final(self).stats == old(self).stats,
            final(self).approvals == old(self).approvals,
            final(self).payments == old(self).payments,
            final(self).pending == old(self).pending,
            final(self).completed == old(self).completed,
            match old(approval).approved_amount {
                Some(_) => {
                    &&& *final(approval) == funded_record(
                        *old(approval),
                        old(self).settings.max_funding_ratio,
                        now,
                    )
                    &&& final(self).approved@ == without_first(old(self).approved@, invoice_id)
                    &&& final(self).funded@ == old(self).funded@.push(invoice_id)
                    &&& final(self).events@ == old(self).events@.push(
                        funded_event(
                            invoice_id,
                            *old(approval),
                            old(self).settings.max_funding_ratio,
                            now,
                        ),
                    )
                },
                None => {
                    &&& *final(approval) == *old(approval)
                    &&& final(self).approved == old(self).approved
                    &&& final(self).funded == old(self).funded
                    &&& final(self).events == old(self).events
                },
            },
    {
        if let Some(approved_amount) = approval.approved_amount {
            proof {
                lemma_trunc_div_bounds(
                    approved_amount * self.settings.max_funding_ratio,
                    100,
                );
            }
            let funding_amount = percent_of(approved_amount, self.settings.max_funding_ratio);
            let days = days_until(now, approval.due_date);
            let expected = expected_return(funding_amount, approval.discount_rate, days);
            approval.status = InvoiceStatus::Funded;
            approval.funding_date = Some(now);
            approval.funded_amount = Some(funding_amount);
            move_invoice_between_lists(&mut self.approved, &mut self.funded, invoice_id);
            self.events.push(
                MarketEvent::Funded { invoice_id, funding_amount, expected_return: expected },
            );
        }
    }

    /// The machine can carry out a submission that is not refused.
    pub open spec fn submission_fits(
        &self,
        invoice_id: u64,
        amount: i128,
        due_date: u64,
        now: u64,
    ) -> bool {
        submission_refusal(
            self.settings,
            self.approval(invoice_id),
            amount,
            due_date,
            now,
            true,
        ).is_none() ==> {
            if auto_approved(self.settings, amount) {
                &&& funding_fits(
                    amount,
                    self.settings.max_funding_ratio,
                    tiered_discount_bp(days_between(now as int, due_date as int)) as u32,
                    due_date,
                    now,
                )
                &&& self.approved@.len() < u32::MAX
                &&& self.funded@.len() < u32::MAX
            } else {
                self.pending@.len() < u32::MAX
            }
        }
    }

    /// Whether the machine can carry out a submission that is not refused.
    pub fn can_submit_invoice(&self, invoice_id: u64, amount: i128, due_date: u64, now: u64) -> (fits:
        bool)
        ensures
            fits == self.submission_fits(invoice_id, amount, due_date, now),
    {
        if amount < self.settings.min_invoice_amount || amount > self.settings.max_invoice_amount {
            return true;
        }
        if due_date <= now {
            return true;
        }
        let days = days_until(now, due_date);
        if days < self.settings.min_days_until_due || days > self.settings.max_days_until_due {
            return true;
        }
        if self.approvals.get(&invoice_id).is_some() {
            return true;
        }
        if amount <= self.settings.auto_approval_threshold {
            let rate = Self::calculate_discount_rate(days);
            can_fund(amount, self.settings.max_funding_ratio, rate, due_date, now)
                && self.approved.len() < u32::MAX && self.funded.len() < u32::MAX
        } else {
            self.pending.len() < u32::MAX
        }
    }

    /// The funding that the submission of an automatically approved invoice
    /// reports.
    pub open spec fn submission_funding(
        &self,
        invoice_id: u64,
        amount: i128,
        due_date: u64,
        now: u64,
    ) -> MarketEvent {
        let funding = funding_amount_for(amount as int, self.settings.max_funding_ratio as int);
        let days = days_between(now as int, due_date as int);
        MarketEvent::Funded {
            invoice_id,
            funding_amount: funding as i128,
            expected_return: expected_return_for(funding, tiered_discount_bp(days), days) as i128,
        }
    }

    /// Whether `after` and `result` are what the submission of the invoice
    /// `invoice_id` by `creator` at time `now` makes of the marketplace
    /// `before`.
    pub open spec fn submits(
        before: Self,
        after: Self,
        creator: Principal,
        invoice_id: u64,
        amount: i128,
        due_date: u64,
        now: u64,
        authorized: bool,
        result: Result<InvoiceStatus, Error>,
    ) -> bool {
        match result {
            Ok(status) => {
                &&& submission_refusal(
                    before.settings,
                    before.approval(invoice_id),
                    amount,
                    due_date,
                    now,
                    authorized,
                ).is_none()
                &&& before.approval(invoice_id).is_none()
                &&& status == if auto_approved(before.settings, amount) {
                    InvoiceStatus::Funded
                } else {
                    InvoiceStatus::Pending
                }
                &&& after.approval(invoice_id).is_some()
                &&& is_submitted_record(
                    after.approval(invoice_id).unwrap(),
                    before.settings,
                    invoice_id,
                    creator,
                    amount,
                    due_date,
                    now,
                )
                &&& after.approvals@.dom() == before.approvals@.dom().insert(invoice_id)
                &&& forall|other: u64|
                    other != invoice_id ==> #[trigger] after.approval(other) == before.approval(other)
                &&& if auto_approved(before.settings, amount) {
                    &&& after.pending@ == before.pending@
                    &&& after.approved@ == without_first(
                        before.approved@.push(invoice_id),
                        invoice_id,
                    )
                    &&& !before.approved@.contains(invoice_id) ==> after.approved@
                        == before.approved@
                    &&& before.index_consistent() ==> after.approved@ == before.approved@
                    &&& after.funded@ == before.funded@.push(invoice_id)
                    &&& after.events@ == before.events@.push(
                        before.submission_funding(invoice_id, amount, due_date, now),
                    ).push(MarketEvent::Submitted { invoice_id, creator, amount, status })
                } else {
                    &&& after.pending@ == before.pending@.push(invoice_id)
                    &&& after.approved@ == before.approved@
                    &&& after.funded@ == before.funded@
                    &&& after.events@ == before.events@.push(
                        MarketEvent::Submitted { invoice_id, creator, amount, status },
                    )
                }
                &&& after.completed@ == before.completed@
                &&& after.same_setup(&before)
                &&& after.stats == before.stats
                &&& after.payments == before.payments
            },
            Err(e) => {
                &&& submission_refusal(
                    before.settings,
                    before.approval(invoice_id),
                    amount,
                    due_date,
                    now,
                    authorized,
                ) == Some(e)
                &&& after == before
            },
        }
    }

    /// Submits the invoice `invoice_id` of `creator` for approval and
    /// returns the status it ends in. An amount within the threshold of
    /// automatic approval is approved in full and funded at once; a larger
    /// one waits on the list of pending invoices. An invoice is submitted
    /// once: an identifier of which a record is kept already is refused,
    /// and the record and the lists stay as they are.
    pub fn submit_invoice(
        &mut self,
        creator: Principal,
        invoice_id: u64,
        amount: i128,
        due_date: u64,
        now: u64,
        authorized: bool,
    ) -> (result: Result<InvoiceStatus, Error>)
        requires
            old(self).submission_fits(invoice_id, amount, due_date, now),
        ensures
            old(self).wf() ==> final(self).wf(),
            old(self).index_consistent() ==> final(self).index_consistent(),
            Self::submits(
                *old(self),
                *final(self),
                creator,
                invoice_id,
                amount,
                due_date,
                now,
                authorized,
                result,
            ),
    {
        if !authorized {
            return Err(Error::Unauthorized);
        }
        if amount < self.settings.min_invoice_amount || amount > self.settings.max_invoice_amount {
            return Err(Error::OutOfRange);
        }
        if due_date <= now {
            return Err(Error::InvalidDueDate);
        }
        let days_until_due = days_until(now, due_date);
        if days_until_due < self.settings.min_days_until_due || days_until_due
            > self.settings.max_days_until_due {
            return Err(Error::OutOfRange);
        }
        if self.approvals.get(&invoice_id).is_some() {
            return Err(Error::InvalidState);
        }
        let discount_rate = Self::calculate_discount_rate(days_until_due);
        let mut approval = InvoiceApproval {
            invoice_id,
            creator,
            amount,
            due_date,
            status: InvoiceStatus::Pending,
            approved_amount: None,
            approval_date: None,
            funding_date: None,
            completion_date: None,
            risk_score: "C".to_string(),
            discount_rate,
            funded_amount: None,
        };
        if amount <= self.settings.auto_approval_threshold {
            approval.status = InvoiceStatus::Approved;
            approval.approved_amount = Some(amount);
            approval.approval_date = Some(now);
            self.approved.push(invoice_id);
            self.try_fund_invoice(invoice_id, &mut approval, now);
        } else {
            self.pending.push(invoice_id);
        }
        let status = approval.status;
        self.approvals.insert(invoice_id, approval);
        self.events.push(MarketEvent::Submitted { invoice_id, creator, amount, status });
        proof {
            assert(self.approvals@.dom() =~= old(self).approvals@.dom().insert(invoice_id));
            if !old(self).approved@.contains(invoice_id) {
                lemma_push_then_remove(old(self).approved@, invoice_id);
            }
            if old(self).index_consistent() {
                Self::lemma_unlisted(*old(self), invoice_id);
                lemma_push_then_remove(old(self).approved@, invoice_id);
                Self::lemma_relisted(*old(self), *self, invoice_id);
            }
        }
        Ok(status)
    }

    /// Every record is kept under its own identifier.
    pub open spec fn wf(&self) -> bool {
        &&& forall|id: u64| #[trigger]
            self.approvals@.contains_key(id) ==> self.approvals@[id].invoice_id == id
        &&& forall|id: u64| #[trigger]
            self.payments@.contains_key(id) ==> self.payments@[id].invoice_id == id
    }

    /// The machine can carry out an approval that is not refused.
    pub open spec fn approval_fits(&self, invoice_id: u64, approved_amount: i128, now: u64) -> bool {
        approval_refusal(
            self.settings,
            self.approval(invoice_id),
            self.settings.admin,
            approved_amount,
            true,
        ).is_none() ==> {
            let a = self.approval(invoice_id).unwrap();
            &&& funding_fits(
                approved_amount,
                self.settings.max_funding_ratio,
                a.discount_rate,
                a.due_date,
                now,
            )
            &&& self.approved@.len() < u32::MAX
            &&& self.funded@.len() < u32::MAX
        }
    }

    /// Whether the machine can carry out an approval that is not refused.
    pub fn can_approve_invoice(&self, invoice_id: u64, approved_amount: i128, now: u64) -> (fits:
        bool)
        ensures
            fits == self.approval_fits(invoice_id, approved_amount, now),
    {
        match self.approvals.get(&invoice_id) {
            None => true,
            Some(found) => {
                if found.status != InvoiceStatus::Pending || approved_amount > found.amount {
                    true
                } else {
                    can_fund(
                        approved_amount,
                        self.settings.max_funding_ratio,
                        found.discount_rate,
                        found.due_date,
                        now,
                    ) && self.approved.len() < u32::MAX && self.funded.len() < u32::MAX
                }
            },
        }
    }

    /// Submits an invoice as `submit_invoice` does, on every input: where the
    /// machine cannot carry the submission out, nothing is returned and the
    /// marketplace stays as it is.
    pub fn checked_submit_invoice(
        &mut self,
        creator: Principal,
        invoice_id: u64,
        amount: i128,
        due_date: u64,
        now: u64,
        authorized: bool,
    ) -> (outcome: Option<Result<InvoiceStatus, Error>>)
        ensures
            old(self).wf() ==> final(self).wf(),
            old(self).index_consistent() ==> final(self).index_consistent(),
            match outcome {
                Some(result) => {
                    &&& old(self).submission_fits(invoice_id, amount, due_date, now)
                    &&& Self::submits(
                        *old(self),
                        *final(self),
                        creator,
                        invoice_id,
                        amount,
                        due_date,
                        now,
                        authorized,
                        result,
                    )
                },
                None => {
                    &&& !(old(self).submission_fits(invoice_id, amount, due_date, now))
                    &&& *final(self) == *old(self)
                },
            },
    {
        if self.can_submit_invoice(invoice_id, amount, due_date, now) {
            Some(self.submit_invoice(creator, invoice_id, amount, due_date, now, authorized))
        } else {
            None
        }
    }

    /// Whether `after` and `result` are what the approval of
    /// `approved_amount` of the invoice `invoice_id` by `admin` at time `now`
    /// makes of the marketplace `before`.
    pub open spec fn approves(
        before: Self,
        after: Self,
        admin: Principal,
        invoice_id: u64,
        approved_amount: i128,
        risk_score: String,
        now: u64,
        authorized: bool,
        result: Result<bool, Error>,
    ) -> bool {
        match result {
            Ok(done) => {
                let record = approved_record(
                    before.approval(invoice_id).unwrap(),
                    approved_amount,
                    risk_score,
                    before.settings.max_funding_ratio,
                    now,
                );
                &&& done
                &&& approval_refusal(
                    before.settings,
                    before.approval(invoice_id),
                    admin,
                    approved_amount,
                    authorized,
                ).is_none()
                &&& after.approvals@ == before.approvals@.insert(invoice_id, record)
                &&& after.pending@ == without_first(before.pending@, invoice_id)
                &&& after.approved@ == without_first(
                    before.approved@.push(invoice_id),
                    invoice_id,
                )
                &&& after.funded@ == before.funded@.push(invoice_id)
                &&& after.completed@ == before.completed@
                &&& after.events@ == before.events@.push(
                    funded_event(
                        invoice_id,
                        record,
                        before.settings.max_funding_ratio,
                        now,
                    ),
                ).push(MarketEvent::Approved { invoice_id, approved_amount })
                &&& after.same_setup(&before)
                &&& after.stats == before.stats
                &&& after.payments == before.payments
                &&& before.index_consistent() ==> after.index_consistent()
            },
            Err(e) => {
                &&& approval_refusal(
                    before.settings,
                    before.approval(invoice_id),
                    admin,
                    approved_amount,
                    authorized,
                ) == Some(e)
                &&& after == before
            },
        }
    }

    /// Approves `approved_amount` of the pending invoice `invoice_id`, at
    /// most the amount requested, and funds it at once: the invoice leaves
    /// the list of pending invoices and ends on the list of funded ones.
    /// Only the marketplace's administrator may do so.
    pub fn approve_invoice(
        &mut self,
        admin: Principal,
        invoice_id: u64,
        approved_amount: i128,
        risk_score: String,
        now: u64,
        authorized: bool,
    ) -> (result: Result<bool, Error>)
        requires
            old(self).approval_fits(invoice_id, approved_amount, now),
        ensures
            old(self).wf() ==> final(self).wf(),
            Self::approves(
                *old(self),
                *final(self),
                admin,
                invoice_id,
                approved_amount,
                risk_score,
                now,
                authorized,
                result,
            ),
    {
        if !authorized || !admin.same(&self.settings.admin) {
            return Err(Error::Unauthorized);
        }
        match self.approvals.get(&invoice_id) {
            None => {
                return Err(Error::NotFound);
            },
            Some(found) => {
                if found.status != InvoiceStatus::Pending {
                    return Err(Error::InvalidState);
                }
                if approved_amount > found.amount {
                    return Err(Error::OutOfRange);
                }
            },
        }
        let mut approval = self.approvals.remove(&invoice_id).unwrap();
        approval.status = InvoiceStatus::Approved;
        approval.approved_amount = Some(approved_amount);
        approval.approval_date = Some(now);
        approval.risk_score = risk_score;
        move_invoice_between_lists(&mut self.pending, &mut self.approved, invoice_id);
        self.try_fund_invoice(invoice_id, &mut approval, now);
        self.approvals.insert(invoice_id, approval);
        self.events.push(MarketEvent::Approved { invoice_id, approved_amount });
        proof {
            let record = approved_record(
                old(self).approval(invoice_id).unwrap(),
                approved_amount,
                risk_score,
                old(self).settings.max_funding_ratio,
                now,
            );
            assert(self.approvals@ =~= old(self).approvals@.insert(invoice_id, record));
            if old(self).index_consistent() {
                Self::lemma_listed_once(*old(self), invoice_id);
                lemma_push_then_remove(old(self).approved@, invoice_id);
                assert(self.approvals@.dom() =~= old(self).approvals@.dom().insert(invoice_id));
                Self::lemma_relisted(*old(self), *self, invoice_id);
            }
        }
        Ok(true)
    }

    /// Rejects the pending invoice `invoice_id`: it leaves the list of
    /// pending invoices and joins no other. Only the marketplace's
    /// administrator may do so.
    pub fn reject_invoice(
        &mut self,
        admin: Principal,
        invoice_id: u64,
        reason: String,
        authorized: bool,
    ) -> (result: Result<bool, Error>)
        ensures
            old(self).wf() ==> final(self).wf(),
            match result {
                Ok(done) => {
                    &&& done
                    &&& decision_refusal(
                        old(self).settings,
                        old(self).approval(invoice_id),
                        admin,
                        authorized,
                    ).is_none()
                    &&& final(self).approvals@ == old(self).approvals@.insert(
                        invoice_id,
                        InvoiceApproval {
                            status: InvoiceStatus::Rejected,
                            ..old(self).approval(invoice_id).unwrap()
                        },
                    )
                    &&& final(self).pending@ == without_first(old(self).pending@, invoice_id)
                    &&& final(self).approved@ == old(self).approved@
                    &&& final(self).funded@ == old(self).funded@
                    &&& final(self).completed@ == old(self).completed@
                    &&& final(self).events@ == old(self).events@.push(
                        MarketEvent::Rejected { invoice_id, reason },
                    )
                    &&& final(self).same_setup(old(self))
                    &&& final(self).stats == old(self).stats
                    &&& final(self).payments == old(self).payments
                    &&& old(self).index_consistent() ==> final(self).index_consistent()
                },
                Err(e) => {
                    &&& decision_refusal(
                        old(self).settings,
                        old(self).approval(invoice_id),
                        admin,
                        authorized,
                    ) == Some(e)
                    &&& *final(self) == *old(self)
                },
            },
    {
        if !authorized || !admin.same(&self.settings.admin) {
            return Err(Error::Unauthorized);
        }
        match self.approvals.get(&invoice_id) {
            None => {
                return Err(Error::NotFound);
            },
            Some(found) => {
                if found.status != InvoiceStatus::Pending {
                    return Err(Error::InvalidState);
                }
            },
        }
        let mut approval = self.approvals.remove(&invoice_id).unwrap();
        approval.status = InvoiceStatus::Rejected;
        self.pending.remove_first(invoice_id);
        self.approvals.insert(invoice_id, approval);
        self.events.push(MarketEvent::Rejected { invoice_id, reason });
        proof {
            assert(self.approvals@ =~= old(self).approvals@.insert(
                invoice_id,
                InvoiceApproval {
                    status: InvoiceStatus::Rejected,
                    ..old(self).approval(invoice_id).unwrap()
                },
            ));
            if old(self).index_consistent() {
                Self::lemma_listed_once(*old(self), invoice_id);
                assert(self.approvals@.dom() =~= old(self).approvals@.dom().insert(invoice_id));
                Self::lemma_relisted(*old(self), *self, invoice_id);
            }
        }
        Ok(true)
    }

    /// Approves an invoice as `approve_invoice` does, on every input: where
    /// the machine cannot carry the approval out, nothing is returned and the
    /// marketplace stays as it is.
    pub fn checked_approve_invoice(
        &mut self,
        admin: Principal,
        invoice_id: u64,
        approved_amount: i128,
        risk_score: String,
        now: u64,
        authorized: bool,
    ) -> (outcome: Option<Result<bool, Error>>)
        ensures
            old(self).wf() ==> final(self).wf(),
            match outcome {
                Some(result) => {
                    &&& old(self).approval_fits(invoice_id, approved_amount, now)
                    &&& Self::approves(
                        *old(self),
                        *final(self),
                        admin,
                        invoice_id,
                        approved_amount,
                        risk_score,
                        now,
                        authorized,
                        result,
                    )
                },
                None => {
                    &&& !(old(self).approval_fits(invoice_id, approved_amount, now))
                    &&& *final(self) == *old(self)
                },
            },
    {
        if self.can_approve_invoice(invoice_id, approved_amount, now) {
            Some(self.approve_invoice(admin, invoice_id, approved_amount, risk_score, now, authorized))
        } else {
            None
        }
    }

    /// The machine can carry out a payment that is not refused.
    pub open spec fn payment_fits(&self, invoice_id: u64, payment_amount: i128) -> bool {
        payment_refusal(self.approval(invoice_id), true).is_none() ==> {
            let fee = bp_of(payment_amount as int, self.settings.platform_fee as int);
            &&& fits_i128(payment_amount * self.settings.early_payment_bonus)
            &&& fits_i128(payment_amount * self.settings.platform_fee)
            &&& self.stats.total_invoices_processed < u64::MAX
            &&& fits_i128(self.stats.total_volume_processed + payment_amount)
            &&& fits_i128(self.stats.total_fees_collected + fee)
            &&& self.completed@.len() < u32::MAX
        }
    }

    /// Whether the machine can carry out a payment that is not refused.
    pub fn can_process_payment(&self, invoice_id: u64, payment_amount: i128) -> (fits: bool)
        ensures
            fits == self.payment_fits(invoice_id, payment_amount),
    {
        match self.approvals.get(&invoice_id) {
            None => true,
            Some(found) => {
                if found.status != InvoiceStatus::Funded {
                    return true;
                }
                if payment_amount.checked_mul(self.settings.early_payment_bonus as i128).is_none() {
                    return false;
                }
                let fee: i128 = match payment_amount.checked_mul(
                    self.settings.platform_fee as i128,
                ) {
                    Some(product) => product / 10000,
                    None => {
                        return false;
                    },
                };
                if self.stats.total_invoices_processed == u64::MAX {
                    return false;
                }
                if self.stats.total_volume_processed.checked_add(payment_amount).is_none() {
                    return false;
                }
                if self.stats.total_fees_collected.checked_add(fee).is_none() {
                    return false;
                }
                self.completed.len() < u32::MAX
            },
        }
    }

    /// Counts a settled payment in the statistics.
    fn update_platform_stats(stats: &mut MarketplaceStats, payment_amount: i128, platform_fee: i128)
        requires
            old(stats).total_invoices_processed < u64::MAX,
            fits_i128(old(stats).total_volume_processed + payment_amount),
            fits_i128(old(stats).total_fees_collected + platform_fee),
        ensures
            *final(stats) == stats_after_payment(*old(stats), payment_amount, platform_fee),
    {
        stats.total_invoices_processed = stats.total_invoices_processed + 1;
        stats.total_volume_processed = stats.total_volume_processed + payment_amount;
        stats.total_fees_collected = stats.total_fees_collected + platform_fee;
    }

    /// Whether `after` and `result` are what the payment of `payment_amount`
    /// for the invoice `invoice_id` by `payer` at time `now` makes of the
    /// marketplace `before`.
    pub open spec fn settles(
        before: Self,
        after: Self,
        payer: Principal,
        invoice_id: u64,
        payment_amount: i128,
        payment_method: PaymentMethod,
        now: u64,
        authorized: bool,
        result: Result<PaymentRecord, Error>,
    ) -> bool {
        match result {
            Ok(record) => {
                let approval = before.approval(invoice_id).unwrap();
                &&& payment_refusal(before.approval(invoice_id), authorized).is_none()
                &&& record == payment_record_for(
                    before.settings,
                    approval.due_date,
                    invoice_id,
                    payer,
                    payment_amount,
                    payment_method,
                    now,
                )
                &&& record.cashback_amount == cashback_for(
                    payment_amount,
                    before.settings.early_payment_bonus,
                    approval.due_date,
                    now,
                )
                &&& record.platform_fee == bp_of(
                    payment_amount as int,
                    before.settings.platform_fee as int,
                )
                &&& after.approvals@ == before.approvals@.insert(
                    invoice_id,
                    InvoiceApproval {
                        status: InvoiceStatus::Completed,
                        completion_date: Some(now),
                        ..approval
                    },
                )
                &&& after.payments@ == before.payments@.insert(invoice_id, record)
                &&& after.pending@ == before.pending@
                &&& after.approved@ == before.approved@
                &&& after.funded@ == without_first(before.funded@, invoice_id)
                &&& after.completed@ == before.completed@.push(invoice_id)
                &&& after.stats == stats_after_payment(
                    before.stats,
                    payment_amount,
                    record.platform_fee,
                )
                &&& after.events@ == before.events@.push(
                    MarketEvent::Payment {
                        invoice_id,
                        payer,
                        amount: payment_amount,
                        is_early: record.is_early_payment,
                        cashback: record.cashback_amount,
                    },
                )
                &&& after.same_setup(&before)
                &&& before.index_consistent() ==> after.index_consistent()
            },
            Err(e) => {
                &&& payment_refusal(before.approval(invoice_id), authorized) == Some(e)
                &&& after == before
            },
        }
    }

    /// Settles the funded invoice `invoice_id` with a payment of
    /// `payment_amount` and returns the record of it. A payment before the
    /// due date earns the early-payment bonus as cashback. The invoice is
    /// completed at time `now` and moves from the list of funded invoices
    /// to the list of completed ones; the statistics count the payment.
    pub fn process_payment(
        &mut self,
        payer: Principal,
        invoice_id: u64,
        payment_amount: i128,
        payment_method: PaymentMethod,
        now: u64,
        authorized: bool,
    ) -> (result: Result<PaymentRecord, Error>)
        requires
            old(self).payment_fits(invoice_id, payment_amount),
        ensures
            old(self).wf() ==> final(self).wf(),
            Self::settles(
                *old(self),
                *final(self),
                payer,
                invoice_id,
                payment_amount,
                payment_method,
                now,
                authorized,
                result,
            ),
    {
        if !authorized {
            return Err(Error::Unauthorized);
        }
        let due_date: u64 = match self.approvals.get(&invoice_id) {
            None => {
                return Err(Error::NotFound);
            },
            Some(found) => {
                if found.status != InvoiceStatus::Funded {
                    return Err(Error::InvalidState);
                }
                found.due_date
            },
        };
        let is_early_payment = now < due_date;
        proof {
            lemma_trunc_div_bounds(payment_amount * self.settings.early_payment_bonus, 10000);
            lemma_trunc_div_bounds(payment_amount * self.settings.platform_fee, 10000);
        }
        let cashback_amount: i128 = if is_early_payment {
            basis_points_of(payment_amount, self.settings.early_payment_bonus)
        } else {
            0
        };
        let platform_fee = basis_points_of(payment_amount, self.settings.platform_fee);
        let payment_record = PaymentRecord {
            invoice_id,
            payer,
            amount: payment_amount,
            payment_method,
            payment_date: now,
            is_early_payment,
            cashback_amount,
            platform_fee,
        };
        let mut approval = self.approvals.remove(&invoice_id).unwrap();
        approval.status = InvoiceStatus::Completed;
        approval.completion_date = Some(now);
        move_invoice_between_lists(&mut self.funded, &mut self.completed, invoice_id);
        self.approvals.insert(invoice_id, approval);
        self.payments.insert(invoice_id, payment_record);
        Self::update_platform_stats(&mut self.stats, payment_amount, platform_fee);
        self.events.push(
            MarketEvent::Payment {
                invoice_id,
                payer,
                amount: payment_amount,
                is_early: is_early_payment,
                cashback: cashback_amount,
            },
        );
        proof {
            assert(self.approvals@ =~= old(self).approvals@.insert(
                invoice_id,
                InvoiceApproval {
                    status: InvoiceStatus::Completed,
                    completion_date: Some(now),
                    ..old(self).approval(invoice_id).unwrap()
                },
            ));
            if old(self).index_consistent() {
                Self::lemma_listed_once(*old(self), invoice_id);
                assert(self.approvals@.dom() =~= old(self).approvals@.dom().insert(invoice_id));
                Self::lemma_relisted(*old(self), *self, invoice_id);
            }
        }
        Ok(payment_record)
    }

    /// The machine can carry out a request for funding that is not refused.
    pub open spec fn funding_request_fits(&self, invoice_id: u64, now: u64) -> bool {
        self.approval(invoice_id).is_some() && self.approval(invoice_id).unwrap().status
            == InvoiceStatus::Approved && self.approval(
            invoice_id,
        ).unwrap().approved_amount.is_some() ==> {
            let a = self.approval(invoice_id).unwrap();
            &&& funding_fits(
                a.approved_amount.unwrap(),
                self.settings.max_funding_ratio,
                a.discount_rate,
                a.due_date,
                now,
            )
            &&& self.funded@.len() < u32::MAX
        }
    }

    /// Whether the machine can carry out a request for funding that is not
    /// refused.
    pub fn can_request_funding(&self, invoice_id: u64, now: u64) -> (fits: bool)
        ensures
            fits == self.funding_request_fits(invoice_id, now),
    {
        match self.approvals.get(&invoice_id) {
            None => true,
            Some(found) => {
                if found.status != InvoiceStatus::Approved {
                    return true;
                }
                match found.approved_amount {
                    None => true,
                    Some(approved_amount) => can_fund(
                        approved_amount,
                        self.settings.max_funding_ratio,
                        found.discount_rate,
                        found.due_date,
                        now,
                    ) && self.funded.len() < u32::MAX,
                }
            },
        }
    }

    /// Settles a payment as `process_payment` does, on every input: where the
    /// machine cannot carry the settlement out, nothing is returned and the
    /// marketplace stays as it is.
    pub fn checked_process_payment(
        &mut self,
        payer: Principal,
        invoice_id: u64,
        payment_amount: i128,
        payment_method: PaymentMethod,
        now: u64,
        authorized: bool,
    ) -> (outcome: Option<Result<PaymentRecord, Error>>)
        ensures
            old(self).wf() ==> final(self).wf(),
            match outcome {
                Some(result) => {
                    &&& old(self).payment_fits(invoice_id, payment_amount)
                    &&& Self::settles(
                        *old(self),
                        *final(self),
                        payer,
                        invoice_id,
                        payment_amount,
                        payment_method,
                        now,
                        authorized,
                        result,
                    )
                },
                None => {
                    &&& !(old(self).payment_fits(invoice_id, payment_amount))
                    &&& *final(self) == *old(self)
                },
            },
    {
        if self.can_process_payment(invoice_id, payment_amount) {
            Some(self.process_payment(payer, invoice_id, payment_amount, payment_method, now, authorized))
        } else {
            None
        }
    }

    /// Whether `after` and `result` are what a request of `creator` to fund
    /// the invoice `invoice_id` at time `now` makes of the marketplace
    /// `before`.
    pub open spec fn funds_on_request(
        before: Self,
        after: Self,
        creator: Principal,
        invoice_id: u64,
        now: u64,
        authorized: bool,
        result: Result<bool, Error>,
    ) -> bool {
        match result {
            Ok(done) => {
                let approval = before.approval(invoice_id).unwrap();
                &&& done
                &&& funding_request_refusal(before.approval(invoice_id), creator, authorized).is_none()
                &&& if approval.approved_amount.is_some() {
                    &&& after.approvals@ == before.approvals@.insert(
                        invoice_id,
                        funded_record(approval, before.settings.max_funding_ratio, now),
                    )
                    &&& after.pending@ == before.pending@
                    &&& after.approved@ == without_first(
                        before.approved@,
                        invoice_id,
                    )
                    &&& after.funded@ == before.funded@.push(invoice_id)
                    &&& after.completed@ == before.completed@
                    &&& after.events@ == before.events@.push(
                        funded_event(
                            invoice_id,
                            approval,
                            before.settings.max_funding_ratio,
                            now,
                        ),
                    )
                    &&& after.same_setup(&before)
                    &&& after.stats == before.stats
                    &&& after.payments == before.payments
                } else {
                    after == before
                }
                &&& before.index_consistent() ==> after.index_consistent()
            },
            Err(e) => {
                &&& funding_request_refusal(before.approval(invoice_id), creator, authorized)
                    == Some(e)
                &&& after == before
            },
        }
    }

    /// Funds the approved invoice `invoice_id` at the request of its
    /// creator. An invoice in any other status, a funded one among them, is
    /// refused. Where the record holds no approved amount the request
    /// succeeds and changes nothing.
    pub fn request_funding(&mut self, creator: Principal, invoice_id: u64, now: u64, authorized: bool) -> (result:
        Result<bool, Error>)
        requires
            old(self).funding_request_fits(invoice_id, now),
        ensures
            old(self).wf() ==> final(self).wf(),
            Self::funds_on_request(
                *old(self),
                *final(self),
                creator,
                invoice_id,
                now,
                authorized,
                result,
            ),
    {
        if !authorized {
            return Err(Error::Unauthorized);
        }
        match self.approvals.get(&invoice_id) {
            None => {
                return Err(Error::NotFound);
            },
            Some(found) => {
                if found.status != InvoiceStatus::Approved {
                    return Err(Error::InvalidState);
                }
                if !found.creator.same(&creator) {
                    return Err(Error::Unauthorized);
                }
                if found.approved_amount.is_none() {
                    return Ok(true);
                }
            },
        }
        let mut approval = self.approvals.remove(&invoice_id).unwrap();
        self.try_fund_invoice(invoice_id, &mut approval, now);
        self.approvals.insert(invoice_id, approval);
        proof {
            assert(self.approvals@ =~= old(self).approvals@.insert(
                invoice_id,
                funded_record(
                    old(self).approval(invoice_id).unwrap(),
                    old(self).settings.max_funding_ratio,
                    now,
                ),
            ));
            if old(self).index_consistent() {
                Self::lemma_listed_once(*old(self), invoice_id);
                assert(self.approvals@.dom() =~= old(self).approvals@.dom().insert(invoice_id));
                Self::lemma_relisted(*old(self), *self, invoice_id);
            }
        }
        Ok(true)
    }

    /// The record kept of `invoice_id`.
    pub fn get_invoice_approval(&self, invoice_id: u64) -> (approval: Option<&InvoiceApproval>)
        ensures
            match approval {
                Some(found) => self.approval(invoice_id) == Some(*found),
                None => self.approval(invoice_id).is_none(),
            },
    {
        self.approvals.get(&invoice_id)
    }

    /// Funds on request as `request_funding` does, on every input: where the
    /// machine cannot carry the funding out, nothing is returned and the
    /// marketplace stays as it is.
    pub fn checked_request_funding(
        &mut self,
        creator: Principal,
        invoice_id: u64,
        now: u64,
        authorized: bool,
    ) -> (outcome: Option<Result<bool, Error>>)
        ensures
            old(self).wf() ==> final(self).wf(),
            match outcome {
                Some(result) => {
                    &&& old(self).funding_request_fits(invoice_id, now)
                    &&& Self::funds_on_request(
                        *old(self),
                        *final(self),
                        creator,
                        invoice_id,
                        now,
                        authorized,
                        result,
                    )
                },
                None => {
                    &&& !(old(self).funding_request_fits(invoice_id, now))
                    &&& *final(self) == *old(self)
                },
            },
    {
        if self.can_request_funding(invoice_id, now) {
            Some(self.request_funding(creator, invoice_id, now, authorized))
        } else {
            None
        }
    }

    /// The payment recorded for `invoice_id`.
    pub fn get_payment_record(&self, invoice_id: u64) -> (record: Option<PaymentRecord>)
        ensures
            record == self.payment(invoice_id),
    {
        match self.payments.get(&invoice_id) {
            Some(found) => Some(*found),
            None => None,
        }
    }

    /// The invoices that wait for a decision, for the administrator only.
    pub fn get_pending_invoices(&self, admin: Principal, authorized: bool) -> (result: Result<
        IdList,
        Error,
    >)
        ensures
            match result {
                Ok(ids) => authorized && admin == self.settings.admin && ids@ == self.pending@,
                Err(e) => e == Error::Unauthorized && (!authorized || admin != self.settings.admin),
            },
    {
        if !authorized || !admin.same(&self.settings.admin) {
            return Err(Error::Unauthorized);
        }
        Ok(self.pending.duplicate())
    }

    /// The invoices that are approved and not yet funded.
    pub fn get_approved_invoices(&self) -> (ids: IdList)
        ensures
            ids@ == self.approved@,
    {
        self.approved.duplicate()
    }

    /// The invoices that are funded and not yet paid.
    pub fn get_funded_invoices(&self) -> (ids: IdList)
        ensures
            ids@ == self.funded@,
    {
        self.funded.duplicate()
    }

    /// The invoices that are paid.
    pub fn get_completed_invoices(&self) -> (ids: IdList)
        ensures
            ids@ == self.completed@,
    {
        self.completed.duplicate()
    }

    /// The statistics of the payments settled so far.
    pub fn get_marketplace_stats(&self) -> (stats: MarketplaceStats)
        ensures
            stats == self.stats,
    {
        self.stats
    }

    /// The settings in force.
    pub fn get_settings(&self) -> (settings: MarketplaceSettings)
        ensures
            settings == self.settings,
    {
        self.settings
    }

    /// Replaces the settings for which a value is given. The platform fee
    /// and the early-payment bonus may be at most 1000 basis points, the
    /// funding ratio at most 100 percent; one value out of range refuses
    /// the whole update. Only the marketplace's administrator may do so.
    pub fn update_settings(
        &mut self,
        admin: Principal,
        platform_fee: Option<u32>,
        max_funding_ratio: Option<u32>,
        early_payment_bonus: Option<u32>,
        auto_approval_threshold: Option<i128>,
        authorized: bool,
    ) -> (result: Result<(), Error>)
        ensures
            old(self).wf() ==> final(self).wf(),
            old(self).index_consistent() ==> final(self).index_consistent(),
            match result {
                Ok(_) => {
                    &&& settings_refusal(
                        old(self).settings,
                        admin,
                        platform_fee,
                        max_funding_ratio,
                        early_payment_bonus,
                        authorized,
                    ).is_none()
                    &&& final(self).settings == updated_settings(
                        old(self).settings,
                        platform_fee,
                        max_funding_ratio,
                        early_payment_bonus,
                        auto_approval_threshold,
                    )
                    &&& final(self).invoice_nft_contract == old(self).invoice_nft_contract
                    &&& final(self).liquidity_pool_contract == old(self).liquidity_pool_contract
                    &&& final(self).stats == old(self).stats
                    &&& final(self).approvals == old(self).approvals
                    &&& final(self).payments == old(self).payments
                    &&& final(self).pending == old(self).pending
                    &&& final(self).approved == old(self).approved
                    &&& final(self).funded == old(self).funded
                    &&& final(self).completed == old(self).completed
                    &&& final(self).events@ == old(self).events@.push(
                        MarketEvent::SettingsUpdated { admin },
                    )
                },
                Err(e) => {
                    &&& settings_refusal(
                        old(self).settings,
                        admin,
                        platform_fee,
                        max_funding_ratio,
                        early_payment_bonus,
                        authorized,
                    ) == Some(e)
                    &&& *final(self) == *old(self)
                },
            },
    {
        if !authorized || !admin.same(&self.settings.admin) {
            return Err(Error::Unauthorized);
        }
        let mut settings = self.settings;
        if let Some(fee) = platform_fee {
            if fee > 1000 {
                return Err(Error::OutOfRange);
            }
            settings.platform_fee = fee;
        }
        if let Some(ratio) = max_funding_ratio {
            if ratio > 100 {
                return Err(Error::OutOfRange);
            }
            settings.max_funding_ratio = ratio;
        }
        if let Some(bonus) = early_payment_bonus {
            if bonus > 1000 {
                return Err(Error::OutOfRange);
            }
            settings.early_payment_bonus = bonus;
        }
        if let Some(threshold) = auto_approval_threshold {
            settings.auto_approval_threshold = threshold;
        }
        self.settings = settings;
        self.events.push(MarketEvent::SettingsUpdated { admin });
        Ok(())
    }

    /// Hands out the events emitted since the last call and empties the log.
    pub fn take_events(&mut self) -> (events: Vec<MarketEvent>)
        ensures
            events@ == old(self).events@,
            final(self).events@.len() == 0,
            final(self).same_setup(old(self)),
            final(self).stats == old(self).stats,
            final(self).approvals == old(self).approvals,
            final(self).payments == old(self).payments,
            final(self).pending == old(self).pending,
            final(self).approved == old(self).approved,
            final(self).funded == old(self).funded,
            final(self).completed == old(self).completed,
    {
        let mut events: Vec<MarketEvent> = Vec::new();
        std::mem::swap(&mut events, &mut self.events);
        events
    }

    /// Whether `after` is `before` with the first occurrence of `id` taken
    /// off and, where `listed` holds, `id` put at its end.
    pub open spec fn list_follows(before: Seq<u64>, after: Seq<u64>, id: u64, listed: bool) -> bool {
        after == if listed {
            without_first(before, id).push(id)
        } else {
            without_first(before, id)
        }
    }

    /// An invoice that no list is due to hold stands on none of them.
    proof fn lemma_unlisted(market: Self, id: u64)
        requires
            market.index_consistent(),
            !market.is_listed(id),
        ensures
            !market.pending@.contains(id),
            !market.approved@.contains(id),
            !market.funded@.contains(id),
            !market.completed@.contains(id),
            without_first(market.pending@, id) == market.pending@,
            without_first(market.approved@, id) == market.approved@,
            without_first(market.funded@, id) == market.funded@,
            without_first(market.completed@, id) == market.completed@,
    {
    }

    /// An invoice stands on no list but the one of its status.
    proof fn lemma_listed_once(market: Self, id: u64)
        requires
            market.index_consistent(),
        ensures
            market.pending@.contains(id) <==> market.status_of(id) == Some(InvoiceStatus::Pending),
            market.approved@.contains(id) <==> market.status_of(id) == Some(
                InvoiceStatus::Approved,
            ),
            market.funded@.contains(id) <==> market.status_of(id) == Some(InvoiceStatus::Funded),
            market.completed@.contains(id) <==> market.status_of(id) == Some(
                InvoiceStatus::Completed,
            ),
            market.status_of(id) != Some(InvoiceStatus::Pending) ==> without_first(
                market.pending@,
                id,
            ) == market.pending@,
            market.status_of(id) != Some(InvoiceStatus::Approved) ==> without_first(
                market.approved@,
                id,
            ) == market.approved@,
            market.status_of(id) != Some(InvoiceStatus::Funded) ==> without_first(
                market.funded@,
                id,
            ) == market.funded@,
            market.status_of(id) != Some(InvoiceStatus::Completed) ==> without_first(
                market.completed@,
                id,
            ) == market.completed@,
    {
        assert(market.pending@.contains(id) <==> market.status_of(id) == Some(
            InvoiceStatus::Pending,
        ));
        assert(market.approved@.contains(id) <==> market.status_of(id) == Some(
            InvoiceStatus::Approved,
        ));
        assert(market.funded@.contains(id) <==> market.status_of(id) == Some(
            InvoiceStatus::Funded,
        ));
        assert(market.completed@.contains(id) <==> market.status_of(id) == Some(
            InvoiceStatus::Completed,
        ));
    }

    /// One list stays consistent when it follows the change of one record.
    proof fn lemma_list_follows(
        before: Seq<u64>,
        after: Seq<u64>,
        old_approvals: Map<u64, InvoiceApproval>,
        new_approvals: Map<u64, InvoiceApproval>,
        id: u64,
        status: InvoiceStatus,
    )
        requires
            lists_exactly(before, old_approvals, status),
            new_approvals.dom() == old_approvals.dom().insert(id),
            forall|other: u64|
                other != id && old_approvals.contains_key(other) ==> #[trigger] new_approvals[other]
                    == old_approvals[other],
            Self::list_follows(before, after, id, new_approvals[id].status == status),
        ensures
            lists_exactly(after, new_approvals, status),
    {
        let without = without_first(before, id);
        lemma_without_first_members(before, id);
        lemma_push_members(without, id);
        assert forall|x: u64| #[trigger]
            after.contains(x) <==> (new_approvals.contains_key(x) && new_approvals[x].status
                == status) by {
            assert(before.contains(x) <==> (old_approvals.contains_key(x) && old_approvals[x].status
                == status));
            assert(new_approvals.contains_key(id));
            if x != id {
                assert(new_approvals.contains_key(x) <==> old_approvals.contains_key(x));
                assert(without.contains(x) <==> before.contains(x));
            }
        }
    }

    /// The lists stay consistent when the record of one invoice changes and
    /// each list follows: the invoice leaves the list it stood on and joins
    /// the list of its new status, where that status has one.
    proof fn lemma_relisted(before: Self, after: Self, id: u64)
        requires
            before.index_consistent(),
            after.approvals@.dom() == before.approvals@.dom().insert(id),
            forall|other: u64|
                other != id ==> #[trigger] after.approval(other) == before.approval(other),
            Self::list_follows(
                before.pending@,
                after.pending@,
                id,
                after.status_of(id) == Some(InvoiceStatus::Pending),
            ),
            Self::list_follows(
                before.approved@,
                after.approved@,
                id,
                after.status_of(id) == Some(InvoiceStatus::Approved),
            ),
            Self::list_follows(
                before.funded@,
                after.funded@,
                id,
                after.status_of(id) == Some(InvoiceStatus::Funded),
            ),
            Self::list_follows(
                before.completed@,
                after.completed@,
                id,
                after.status_of(id) == Some(InvoiceStatus::Completed),
            ),
        ensures
            after.index_consistent(),
    {
        assert(after.approvals@.contains_key(id));
        assert forall|other: u64|
            other != id && before.approvals@.contains_key(other) implies #[trigger] after.approvals@[other]
            == before.approvals@[other] by {
            assert(after.approval(other) == before.approval(other));
        }
        Self::lemma_list_follows(
            before.pending@,
            after.pending@,
            before.approvals@,
            after.approvals@,
            id,
            InvoiceStatus::Pending,
        );
        Self::lemma_list_follows(
            before.approved@,
            after.approved@,
            before.approvals@,
            after.approvals@,
            id,
            InvoiceStatus::Approved,
        );
        Self::lemma_list_follows(
            before.funded@,
            after.funded@,
            before.approvals@,
            after.approvals@,
            id,
            InvoiceStatus::Funded,
        );
        Self::lemma_list_follows(
            before.completed@,
            after.completed@,
            before.approvals@,
            after.approvals@,
            id,
            InvoiceStatus::Completed,
        );
    }
}

/// The tiered discount takes one of three values and never rises as the
/// term grows; the tiers end at thirty and at ninety days, both included.
pub proof fn law_discount_tiers(days: int, later: int)
    ensures
        days <= 30 <==> tiered_discount_bp(days) == 700,
        30 < days <= 90 <==> tiered_discount_bp(days) == 600,
        days > 90 <==> tiered_discount_bp(days) == 500,
        days <= later ==> tiered_discount_bp(days) >= tiered_discount_bp(later),
{
}

/// The record of an invoice that was approved automatically is funded,
/// for the configured share of the whole amount; with a share of at most
/// one hundred percent of an amount that is not negative, that is between
/// nothing and the amount.
pub proof fn law_auto_approval_funds(
    approval: InvoiceApproval,
    settings: MarketplaceSettings,
    invoice_id: u64,
    creator: Principal,
    amount: i128,
    due_date: u64,
    now: u64,
)
    requires
        is_submitted_record(approval, settings, invoice_id, creator, amount, due_date, now),
        amount <= settings.auto_approval_threshold,
        fits_i128(amount * settings.max_funding_ratio),
    ensures
        approval.status == InvoiceStatus::Funded,
        approval.approved_amount == Some(amount),
        approval.funded_amount.is_some(),
        approval.funded_amount.unwrap() == funding_amount_for(
            amount as int,
            settings.max_funding_ratio as int,
        ),
        amount >= 0 ==> approval.funded_amount.unwrap() == (amount * settings.max_funding_ratio)
            / 100,
        amount >= 0 && settings.max_funding_ratio <= 100 ==> 0 <= approval.funded_amount.unwrap()
            <= amount,
{
    let product = amount * settings.max_funding_ratio;
    lemma_trunc_div_bounds(product, 100);
    if amount >= 0 {
        assert(product >= 0) by (nonlinear_arith)
            requires
                amount >= 0,
                settings.max_funding_ratio >= 0,
                product == amount * settings.max_funding_ratio,
        ;
        if settings.max_funding_ratio <= 100 {
            assert(product <= amount * 100) by (nonlinear_arith)
                requires
                    amount >= 0,
                    settings.max_funding_ratio <= 100,
                    product == amount * settings.max_funding_ratio,
            ;
            assert(product / 100 <= amount) by (nonlinear_arith)
                requires
                    0 <= product <= amount * 100,
            ;
        }
    }
}

/// An invoice is submitted once: whatever has become of its record, a
/// further submission under the same identifier that passes every test of
/// its amount and its due date is refused as out of state, so no record is
/// replaced and no identifier is listed a second time.
pub proof fn law_submitted_once(
    settings: MarketplaceSettings,
    record: InvoiceApproval,
    amount: i128,
    due_date: u64,
    now: u64,
)
    ensures
        submission_refusal(settings, Some(record), amount, due_date, now, true).is_some(),
        submission_refusal(settings, None, amount, due_date, now, true).is_none()
            ==> submission_refusal(settings, Some(record), amount, due_date, now, true) == Some(
            Error::InvalidState,
        ),
{
}

/// A payment before the due date earns the bonus as cashback, which is
/// positive where the bonus on the payment comes to at least one unit; a
/// payment at or after the due date earns none.
pub proof fn law_cashback(payment_amount: i128, bonus_bp: u32, due_date: u64, now: u64)
    ensures
        now < due_date ==> cashback_for(payment_amount, bonus_bp, due_date, now) == bp_of(
            payment_amount as int,
            bonus_bp as int,
        ),
        now < due_date && payment_amount * bonus_bp >= 10000 ==> cashback_for(
            payment_amount,
            bonus_bp,
            due_date,
            now,
        ) > 0,
        now >= due_date ==> cashback_for(payment_amount, bonus_bp, due_date, now) == 0,
{
    let product = payment_amount * bonus_bp;
    if product >= 10000 {
        assert(product / 10000 >= 1) by (nonlinear_arith)
            requires
                product >= 10000,
        ;
    }
}

/// Only a pending invoice can be approved or rejected: whatever its record
/// has become, a funded one after an approval among them, the
/// administrator's next decision on it is refused as out of state.
pub proof fn law_decided_once(
    settings: MarketplaceSettings,
    approval: InvoiceApproval,
    approved_amount: i128,
)
    requires
        approval.status != InvoiceStatus::Pending,
    ensures
        decision_refusal(settings, Some(approval), settings.admin, true) == Some(
            Error::InvalidState,
        ),
        approval_refusal(settings, Some(approval), settings.admin, approved_amount, true) == Some(
            Error::InvalidState,
        ),
{
}

/// An approval is funded at once, so its record is no longer pending and a
/// second approval of the same invoice is refused.
pub proof fn law_second_approval_refused(
    settings: MarketplaceSettings,
    approval: InvoiceApproval,
    first_amount: i128,
    risk_score: String,
    now: u64,
    second_amount: i128,
)
    ensures
        approval_refusal(
            settings,
            Some(approved_record(approval, first_amount, risk_score, settings.max_funding_ratio, now)),
            settings.admin,
            second_amount,
            true,
        ) == Some(Error::InvalidState),
{
}

impl MarketplaceContract {
    /// A payment that succeeds settles a funded invoice. Its record says
    /// whether it came before the due date and holds the cashback, which is
    /// above nothing exactly where the payment is early and the bonus on it
    /// comes to a unit. The record is kept, the invoice is completed at the
    /// time of the payment, and in a consistent marketplace it stands on the
    /// list of completed invoices and on no other.
    pub proof fn law_payment_outcome(
        before: Self,
        after: Self,
        payer: Principal,
        invoice_id: u64,
        payment_amount: i128,
        payment_method: PaymentMethod,
        now: u64,
        authorized: bool,
        result: Result<PaymentRecord, Error>,
    )
        requires
            Self::settles(
                before,
                after,
                payer,
                invoice_id,
                payment_amount,
                payment_method,
                now,
                authorized,
                result,
            ),
            result.is_ok(),
        ensures
            authorized,
            before.status_of(invoice_id) == Some(InvoiceStatus::Funded),
            ({
                let due_date = before.approval(invoice_id).unwrap().due_date;
                let bonus = before.settings.early_payment_bonus;
                let record = result.unwrap();
                &&& record.is_early_payment == (now < due_date)
                &&& record.cashback_amount == cashback_for(payment_amount, bonus, due_date, now)
                &&& record.cashback_amount > 0 <==> now < due_date && payment_amount * bonus
                    >= 10000
                &&& now >= due_date ==> record.cashback_amount == 0
                &&& after.payment(invoice_id) == Some(record)
            }),
            after.status_of(invoice_id) == Some(InvoiceStatus::Completed),
            after.approval(invoice_id).unwrap().completion_date == Some(now),
            before.index_consistent() ==> {
                &&& after.index_consistent()
                &&& after.completed@.contains(invoice_id)
                &&& !after.funded@.contains(invoice_id)
                &&& !after.pending@.contains(invoice_id)
                &&& !after.approved@.contains(invoice_id)
            },
    {
        let bonus = before.settings.early_payment_bonus;
        let product = payment_amount * bonus;
        if product >= 10000 {
            assert(product / 10000 >= 1) by (nonlinear_arith)
                requires
                    product >= 10000,
            ;
        }
        if 0 <= product < 10000 {
            assert(product / 10000 == 0) by (nonlinear_arith)
                requires
                    0 <= product < 10000,
            ;
        }
        if product < 0 {
            let m = -product;
            assert(m / 10000 >= 0) by (nonlinear_arith)
                requires
                    m > 0,
            ;
        }
        assert(after.approvals@.contains_key(invoice_id));
        if before.index_consistent() {
            Self::lemma_listed_once(after, invoice_id);
        }
    }

    /// In a consistent marketplace an invoice stands on the list of its
    /// status, once, and on none of the other three; a rejected, overdue or
    /// cancelled invoice, and one that was never submitted, stands on none.
    pub proof fn law_one_list_per_invoice(&self, id: u64)
        requires
            self.index_consistent(),
        ensures
            self.pending@.contains(id) <==> self.status_of(id) == Some(InvoiceStatus::Pending),
            self.approved@.contains(id) <==> self.status_of(id) == Some(InvoiceStatus::Approved),
            self.funded@.contains(id) <==> self.status_of(id) == Some(InvoiceStatus::Funded),
            self.completed@.contains(id) <==> self.status_of(id) == Some(
                InvoiceStatus::Completed,
            ),
            self.pending@.no_duplicates(),
            self.approved@.no_duplicates(),
            self.funded@.no_duplicates(),
            self.completed@.no_duplicates(),
            !self.is_listed(id) ==> !self.pending@.contains(id) && !self.approved@.contains(id)
                && !self.funded@.contains(id) && !self.completed@.contains(id),
    {
        Self::lemma_listed_once(*self, id);
    }
}

} // verus!
