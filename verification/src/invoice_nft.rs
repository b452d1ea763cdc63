//! The invoice registry: tokenized receivables, indexed by creator and by
//! status.

use crate::error::Error;
use crate::id_list::lemma_push_members;
use crate::id_list::lemma_without_first_len;
use crate::id_list::lemma_without_first_members;
use crate::id_list::without_first;
use crate::id_list::IdList;
use crate::money::basis_points_of;
use crate::money::bp_of;
use crate::money::days_between;
use crate::money::days_until;
use crate::money::fits_i128;
use crate::principal::Principal;
use vstd::prelude::*;

verus! {

/// Where an invoice stands in its life.
#[derive(Clone, Copy, Debug, PartialEq, Eq, Structural)]
pub enum InvoiceStatus {
    Pending,
    Open,
    Funded,
    Completed,
    Overdue,
}

/// The business that issued an invoice.
#[derive(Clone, Debug, PartialEq, Eq)]
pub struct CreatorInfo {
    pub business_name: String,
    pub location: String,
    /// Between 0 and 100.
    pub trust_score: u32,
    pub verification_level: String,
}

/// What an invoice claims, from whom and until when.
#[derive(Clone, Debug, PartialEq, Eq)]
pub struct InvoiceDetails {
    pub amount: i128,
    pub currency: String,
    pub due_date: u64,
    pub customer_name: String,
    pub customer_email: String,
    pub description: String,
    /// In basis points.
    pub tax_rate: Option<u32>,
    /// In basis points.
    pub early_discount: u32,
}

/// The terms on which an invoice is offered for funding.
#[derive(Clone, Debug, PartialEq, Eq)]
pub struct FinancialTerms {
    pub offer_amount: i128,
    /// In basis points.
    pub discount_rate: u32,
    /// In basis points.
    pub expected_yield: u32,
    pub collateral_type: Option<String>,
    pub is_recurring: bool,
}

/// How the risk of an invoice is graded.
#[derive(Clone, Debug, PartialEq, Eq)]
pub struct RiskAssessment {
    pub risk_score: String,
    pub esg_compliant: Option<bool>,
    pub verification_method: String,
}

/// The times at which an invoice was created, funded, falls due and was
/// completed; the second and the last are unset until they are reached.
#[derive(Clone, Copy, Debug, PartialEq, Eq, Structural)]
pub struct Timestamps {
    pub created_at: u64,
    pub funded_at: Option<u64>,
    pub due_date: u64,
    pub completed_at: Option<u64>,
}

/// What a creator states of a receivable to register it.
#[derive(Clone, Debug, PartialEq, Eq)]
pub struct InvoiceCreationParams {
    pub title: String,
    pub business_name: String,
    pub location: String,
    pub amount: i128,
    pub currency: String,
    pub due_date: u64,
    pub customer_name: String,
    pub customer_email: String,
    pub description: String,
    pub tax_rate: Option<u32>,
    pub early_discount: u32,
    pub collateral_type: Option<String>,
    pub is_recurring: bool,
    pub esg_compliant: Option<bool>,
    pub proof_hash: Option<[u8; 32]>,
}

/// A registered receivable. Its amount is positive and it falls due after
/// it was created.
#[derive(Clone, Debug, PartialEq, Eq)]
pub struct Invoice {
    pub id: u64,
    pub title: String,
    pub symbol: String,
    pub status: InvoiceStatus,
    pub creator: Principal,
    pub creator_info: CreatorInfo,
    pub invoice_details: InvoiceDetails,
    pub financial_terms: FinancialTerms,
    pub risk_assessment: RiskAssessment,
    pub timestamps: Timestamps,
    pub proof_hash: Option<[u8; 32]>,
}

/// What the registry reports of an operation that took effect.
#[derive(Clone, Copy, Debug, PartialEq, Eq, Structural)]
pub enum RegistryEvent {
    Created { invoice_id: u64, creator: Principal },
    StatusChanged { invoice_id: u64, new_status: InvoiceStatus },
    Paid { invoice_id: u64, payer: Principal, is_early: bool },
    TrustScore { creator: Principal, new_score: u32 },
}

/// The invoices that one creator has registered, oldest first.
pub struct CreatorIndex {
    pub creator: Principal,
    pub ids: IdList,
}

/// One list of invoice identifiers per status.
pub struct StatusIndex {
    pub pending: IdList,
    pub open: IdList,
    pub funded: IdList,
    pub completed: IdList,
    pub overdue: IdList,
}

/// The registry of invoices. Identifiers are handed out from 1 upward and
/// the invoice numbered `n` is the `n`-th of `invoices`.
pub struct InvoiceNFTContract {
    pub counter: u64,
    pub invoices: Vec<Invoice>,
    pub by_creator: Vec<CreatorIndex>,
    pub by_status: StatusIndex,
    pub events: Vec<RegistryEvent>,
}

/// Discount, in basis points, offered on a receivable that falls due in
/// `days` days: two percent plus a tenth of a percent per day, and never
/// more than fifteen percent.
pub open spec fn discount_rate_bp(days: int) -> int {
    if 200 + days * 10 > 1500 {
        1500
    } else {
        200 + days * 10
    }
}

/// Whether the entry at position `i` belongs to `creator`.
pub open spec fn is_entry_of(entries: Seq<CreatorIndex>, creator: Principal, i: int) -> bool {
    0 <= i < entries.len() && entries[i].creator == creator
}

/// No creator has two entries.
pub open spec fn distinct_creators(entries: Seq<CreatorIndex>) -> bool {
    forall|i: int, j: int|
        0 <= i < entries.len() && 0 <= j < entries.len() && i != j ==> entries[i].creator
            != entries[j].creator
}

/// The identifiers listed under `creator`; none where the creator has no
/// entry.
pub open spec fn ids_of(entries: Seq<CreatorIndex>, creator: Principal) -> Seq<u64> {
    if exists|i: int| is_entry_of(entries, creator, i) {
        entries[choose|i: int| is_entry_of(entries, creator, i)].ids@
    } else {
        Seq::empty()
    }
}

/// What a status list holds after `id` went from the list of `from` to the
/// list of `to`: the first occurrence of `id` leaves the former, then `id`
/// joins the end of the latter.
pub open spec fn bucket_after_move(
    bucket: Seq<u64>,
    status: InvoiceStatus,
    id: u64,
    from: InvoiceStatus,
    to: InvoiceStatus,
) -> Seq<u64> {
    let left = if status == from {
        without_first(bucket, id)
    } else {
        bucket
    };
    if status == to {
        left.push(id)
    } else {
        left
    }
}

/// The error, if any, that refuses the creation of an invoice.
pub open spec fn creation_refusal(authorized: bool, amount: i128, due_date: u64, now: u64) -> Option<
    Error,
> {
    if !authorized {
        Some(Error::Unauthorized)
    } else if due_date <= now {
        Some(Error::InvalidDueDate)
    } else if amount <= 0 {
        Some(Error::InvalidAmount)
    } else {
        None
    }
}

/// The amount offered for a receivable of `amount` that falls due at
/// `due_date`: the amount less the discount.
pub open spec fn offer_for(amount: i128, due_date: u64, now: u64) -> int {
    bp_of(amount as int, 10000 - discount_rate_bp(days_between(now as int, due_date as int)))
}

/// Whether `invoice` is the record that the registry writes when `creator`
/// registers `params` at time `now` under the identifier `id`.
pub open spec fn is_new_invoice(
    invoice: Invoice,
    id: u64,
    creator: Principal,
    params: InvoiceCreationParams,
    now: u64,
) -> bool {
    &&& invoice.id == id
    &&& invoice.title == params.title
    &&& invoice.symbol@ == "INV"@
    &&& invoice.status == InvoiceStatus::Pending
    &&& invoice.creator == creator
    &&& invoice.creator_info.business_name == params.business_name
    &&& invoice.creator_info.location == params.location
    &&& invoice.creator_info.trust_score == 50
    &&& invoice.creator_info.verification_level@ == "pending"@
    &&& invoice.invoice_details.amount == params.amount
    &&& invoice.invoice_details.currency == params.currency
    &&& invoice.invoice_details.due_date == params.due_date
    &&& invoice.invoice_details.customer_name == params.customer_name
    &&& invoice.invoice_details.customer_email == params.customer_email
    &&& invoice.invoice_details.description == params.description
    &&& invoice.invoice_details.tax_rate == params.tax_rate
    &&& invoice.invoice_details.early_discount == params.early_discount
    &&& invoice.financial_terms.offer_amount == offer_for(params.amount, params.due_date, now)
    &&& invoice.financial_terms.discount_rate == discount_rate_bp(
        days_between(now as int, params.due_date as int),
    )
    &&& invoice.financial_terms.expected_yield == 1000
    &&& invoice.financial_terms.collateral_type == params.collateral_type
    &&& invoice.financial_terms.is_recurring == params.is_recurring
    &&& invoice.risk_assessment.risk_score@ == "C"@
    &&& invoice.risk_assessment.esg_compliant == params.esg_compliant
    &&& invoice.risk_assessment.verification_method@ == "manual"@
    &&& invoice.timestamps == (Timestamps {
        created_at: now,
        funded_at: None,
        due_date: params.due_date,
        completed_at: None,
    })
    &&& invoice.proof_hash == params.proof_hash
}

/// The timestamps of an invoice after it took the status `status` at time
/// `now`.
pub open spec fn stamped(t: Timestamps, status: InvoiceStatus, now: u64) -> Timestamps {
    match status {
        InvoiceStatus::Funded => Timestamps { funded_at: Some(now), ..t },
        InvoiceStatus::Completed => Timestamps { completed_at: Some(now), ..t },
        _ => t,
    }
}

/// `invoice` with the status `status`, taken at time `now`.
pub open spec fn with_status(invoice: Invoice, status: InvoiceStatus, now: u64) -> Invoice {
    Invoice { status: status, timestamps: stamped(invoice.timestamps, status, now), ..invoice }
}

impl StatusIndex {
    /// The identifiers listed under `status`.
    pub open spec fn bucket(&self, status: InvoiceStatus) -> Seq<u64> {
        match status {
            InvoiceStatus::Pending => self.pending@,
            InvoiceStatus::Open => self.open@,
            InvoiceStatus::Funded => self.funded@,
            InvoiceStatus::Completed => self.completed@,
            InvoiceStatus::Overdue => self.overdue@,
        }
    }

    /// Five empty lists.
    pub fn new(env: &soroban_sdk::Env) -> (index: Self)
        ensures
            forall|s: InvoiceStatus| #[trigger] index.bucket(s) == Seq::<u64>::empty(),
    {
        StatusIndex {
            pending: IdList::new(env),
            open: IdList::new(env),
            funded: IdList::new(env),
            completed: IdList::new(env),
            overdue: IdList::new(env),
        }
    }

    /// Appends `id` to the list of `status`.
    pub fn insert(&mut self, status: InvoiceStatus, id: u64)
        requires
            old(self).bucket(status).len() < u32::MAX,
        ensures
            forall|s: InvoiceStatus| #[trigger]
                final(self).bucket(s) == if s == status {
                    old(self).bucket(s).push(id)
                } else {
                    old(self).bucket(s)
                },
    {
        match status {
            InvoiceStatus::Pending => self.pending.push(id),
            InvoiceStatus::Open => self.open.push(id),
            InvoiceStatus::Funded => self.funded.push(id),
            InvoiceStatus::Completed => self.completed.push(id),
            InvoiceStatus::Overdue => self.overdue.push(id),
        }
    }

    /// Takes the first occurrence of `id` off the list of `status`.
    pub fn remove(&mut self, status: InvoiceStatus, id: u64)
        ensures
            forall|s: InvoiceStatus| #[trigger]
                final(self).bucket(s) == if s == status {
                    without_first(old(self).bucket(s), id)
                } else {
                    old(self).bucket(s)
                },
    {
        match status {
            InvoiceStatus::Pending => {
                self.pending.remove_first(id);
            },
            InvoiceStatus::Open => {
                self.open.remove_first(id);
            },
            InvoiceStatus::Funded => {
                self.funded.remove_first(id);
            },
            InvoiceStatus::Completed => {
                self.completed.remove_first(id);
            },
            InvoiceStatus::Overdue => {
                self.overdue.remove_first(id);
            },
        }
    }

    /// The list of `status`.
    pub fn list(&self, status: InvoiceStatus) -> (list: &IdList)
        ensures
            list@ == self.bucket(status),
    {
        match status {
            InvoiceStatus::Pending => &self.pending,
            InvoiceStatus::Open => &self.open,
            InvoiceStatus::Funded => &self.funded,
            InvoiceStatus::Completed => &self.completed,
            InvoiceStatus::Overdue => &self.overdue,
        }
    }
}

/// The position of the entry of `creator`, if it has one.
fn find_creator(entries: &Vec<CreatorIndex>, creator: Principal) -> (slot: Option<usize>)
    ensures
        match slot {
            Some(i) => is_entry_of(entries@, creator, i as int),
            None => forall|i: int| !is_entry_of(entries@, creator, i),
        },
{
    let mut i: usize = 0;
    while i < entries.len()
        invariant
            i <= entries@.len(),
            forall|j: int| 0 <= j < i ==> entries@[j].creator != creator,
        decreases entries@.len() - i,
    {
        if entries[i].creator.same(&creator) {
            return Some(i);
        }
        i += 1;
    }
    None
}

/// Whether no creator has two entries.
fn has_distinct_creators(entries: &Vec<CreatorIndex>) -> (distinct: bool)
    ensures
        distinct == distinct_creators(entries@),
{
    let mut i: usize = 0;
    while i < entries.len()
        invariant
            i <= entries@.len(),
            forall|a: int, b: int|
                0 <= a < i && 0 <= b < entries@.len() && a != b ==> entries@[a].creator
                    != entries@[b].creator,
        decreases entries@.len() - i,
    {
        let mut j: usize = 0;
        while j < entries.len()
            invariant
                i < entries@.len(),
                j <= entries@.len(),
                forall|b: int|
                    0 <= b < j && b != i ==> entries@[i as int].creator != entries@[b].creator,
            decreases entries@.len() - j,
        {
            if j != i && entries[i].creator.same(&entries[j].creator) {
                return false;
            }
            j += 1;
        }
        i += 1;
    }
    true
}

/// Where creators are distinct, the entry found for a creator is the one
/// that `ids_of` reads.
proof fn lemma_ids_of_entry(entries: Seq<CreatorIndex>, creator: Principal, i: int)
    requires
        distinct_creators(entries),
        is_entry_of(entries, creator, i),
    ensures
        ids_of(entries, creator) == entries[i].ids@,
{
    let k = choose|k: int| is_entry_of(entries, creator, k);
    assert(k == i);
}

/// Lists `id` under `creator`, opening an entry for a creator that has none.
fn list_under_creator(
    entries: &mut Vec<CreatorIndex>,
    env: &soroban_sdk::Env,
    creator: Principal,
    id: u64,
)
    requires
        distinct_creators(old(entries)@),
        ids_of(old(entries)@, creator).len() < u32::MAX,
    ensures
        distinct_creators(final(entries)@),
        ids_of(final(entries)@, creator) == ids_of(old(entries)@, creator).push(id),
        forall|other: Principal|
            other != creator ==> #[trigger] ids_of(final(entries)@, other) == ids_of(
                old(entries)@,
                other,
            ),
{
    let ghost before = entries@;
    match find_creator(entries, creator) {
        Some(i) => {
            proof {
                lemma_ids_of_entry(before, creator, i as int);
            }
            let entry = &mut entries[i];
            entry.ids.push(id);
            proof {
                let after = entries@;
                assert(after.len() == before.len());
                assert forall|k: int| 0 <= k < after.len() implies #[trigger] after[k].creator
                    == before[k].creator && (k != i ==> after[k] == before[k]) by {}
                assert(is_entry_of(after, creator, i as int));
                lemma_ids_of_entry(after, creator, i as int);
                assert forall|other: Principal| other != creator implies #[trigger] ids_of(
                    after,
                    other,
                ) == ids_of(before, other) by {
                    if exists|k: int| is_entry_of(before, other, k) {
                        let k = choose|k: int| is_entry_of(before, other, k);
                        assert(is_entry_of(after, other, k));
                        lemma_ids_of_entry(before, other, k);
                        lemma_ids_of_entry(after, other, k);
                    } else {
                        assert forall|k: int| !is_entry_of(after, other, k) by {
                            if is_entry_of(after, other, k) {
                                assert(is_entry_of(before, other, k));
                            }
                        }
                    }
                }
            }
        },
        None => {
            let mut ids = IdList::new(env);
            ids.push(id);
            entries.push(CreatorIndex { creator, ids });
            proof {
                let after = entries@;
                let last = before.len() as int;
                assert(ids_of(before, creator) == Seq::<u64>::empty()) by {
                    if exists|k: int| is_entry_of(before, creator, k) {
                        let k = choose|k: int| is_entry_of(before, creator, k);
                        assert(!is_entry_of(before, creator, k));
                    }
                }
                assert(distinct_creators(after)) by {
                    assert forall|a: int, b: int|
                        0 <= a < after.len() && 0 <= b < after.len() && a != b implies after[a].creator
                        != after[b].creator by {
                        if a == last {
                            assert(!is_entry_of(before, creator, b));
                        } else if b == last {
                            assert(!is_entry_of(before, creator, a));
                        } else {
                            assert(after[a] == before[a]);
                            assert(after[b] == before[b]);
                        }
                    }
                }
                assert(is_entry_of(after, creator, last));
                lemma_ids_of_entry(after, creator, last);
                assert(Seq::<u64>::empty().push(id) == after[last].ids@);
                assert forall|other: Principal| other != creator implies #[trigger] ids_of(
                    after,
                    other,
                ) == ids_of(before, other) by {
                    if exists|k: int| is_entry_of(before, other, k) {
                        let k = choose|k: int| is_entry_of(before, other, k);
                        assert(after[k] == before[k]);
                        assert(is_entry_of(after, other, k));
                        lemma_ids_of_entry(before, other, k);
                        lemma_ids_of_entry(after, other, k);
                    } else {
                        assert forall|k: int| !is_entry_of(after, other, k) by {
                            if is_entry_of(after, other, k) {
                                assert(k != last);
                                assert(after[k] == before[k]);
                                assert(is_entry_of(before, other, k));
                            }
                        }
                    }
                }
            }
        },
    }
}

impl InvoiceNFTContract {
    /// The invoice registered under `id`, if there is one.
    pub open spec fn invoice(&self, id: u64) -> Option<Invoice> {
        if 1 <= id <= self.invoices@.len() {
            Some(self.invoices@[id - 1])
        } else {
            None
        }
    }

    /// The status of the invoice registered under `id`.
    pub open spec fn status_of(&self, id: u64) -> Option<InvoiceStatus> {
        match self.invoice(id) {
            Some(invoice) => Some(invoice.status),
            None => None,
        }
    }

    /// The identifiers listed under `creator`.
    pub open spec fn creator_ids(&self, creator: Principal) -> Seq<u64> {
        ids_of(self.by_creator@, creator)
    }

    /// The identifiers listed under `status`.
    pub open spec fn bucket(&self, status: InvoiceStatus) -> Seq<u64> {
        self.by_status.bucket(status)
    }

    /// The registry is well formed: as many invoices as the counter says,
    /// each under its own identifier, with a positive amount and a due date
    /// after its creation, and at most one index entry per creator.
    pub open spec fn wf(&self) -> bool {
        &&& self.counter == self.invoices@.len()
        &&& forall|i: int|
            0 <= i < self.invoices@.len() ==> {
                &&& (#[trigger] self.invoices@[i]).id == i + 1
                &&& self.invoices@[i].invoice_details.amount > 0
                &&& self.invoices@[i].timestamps.due_date > self.invoices@[i].timestamps.created_at
            }
        &&& distinct_creators(self.by_creator@)
    }

    /// What one operation does to the counter. An operation that registers
    /// an invoice hands out the identifier `id` that follows the counter and
    /// leaves the counter at `id`; every other operation, and every refused
    /// one, leaves the counter as it is.
    pub open spec fn step(before: Self, after: Self, issued: Option<u64>) -> bool {
        match issued {
            Some(id) => id == before.counter + 1 && after.counter == id,
            None => after.counter == before.counter,
        }
    }

    /// Whether `history` holds the states that a registry went through, one
    /// operation after the other, and `issued` what each operation handed
    /// out.
    pub open spec fn is_history(history: Seq<Self>, issued: Seq<Option<u64>>) -> bool {
        &&& history.len() == issued.len() + 1
        &&& forall|k: int|
            0 <= k < issued.len() ==> Self::step(history[k], history[k + 1], #[trigger] issued[k])
    }

    /// How many identifiers the first `k` operations handed out.
    pub open spec fn issued_before(issued: Seq<Option<u64>>, k: int) -> int
        decreases k,
    {
        if k <= 0 || k > issued.len() {
            0
        } else {
            Self::issued_before(issued, k - 1) + if issued[k - 1].is_some() {
                1int
            } else {
                0int
            }
        }
    }

    /// Whether the registry is well formed.
    pub fn is_well_formed(&self) -> (ok: bool)
        ensures
            ok == self.wf(),
    {
        let total: usize = self.invoices.len();
        if self.counter != total as u64 {
            return false;
        }
        let mut i: usize = 0;
        while i < total
            invariant
                total == self.invoices@.len(),
                i <= total,
                forall|k: int|
                    0 <= k < i ==> {
                        &&& (#[trigger] self.invoices@[k]).id == k + 1
                        &&& self.invoices@[k].invoice_details.amount > 0
                        &&& self.invoices@[k].timestamps.due_date
                            > self.invoices@[k].timestamps.created_at
                    },
            decreases total - i,
        {
            let invoice = &self.invoices[i];
            if invoice.id != i as u64 + 1 || invoice.invoice_details.amount <= 0
                || invoice.timestamps.due_date <= invoice.timestamps.created_at {
                assert(!self.wf()) by {
                    if self.wf() {
                        assert(self.invoices@[i as int].id == i + 1);
                    }
                }
                return false;
            }
            i += 1;
        }
        has_distinct_creators(&self.by_creator)
    }

    /// Every status list is free of repetitions and holds exactly the
    /// invoices whose status it is named after.
    pub open spec fn index_consistent(&self) -> bool {
        forall|s: InvoiceStatus| #[trigger]
            self.bucket(s).no_duplicates() && forall|id: u64| #[trigger]
                self.bucket(s).contains(id) <==> self.status_of(id) == Some(s)
    }

    /// An empty registry, whose counter stands at zero.
    pub fn initialize(env: &soroban_sdk::Env) -> (registry: Self)
        ensures
            registry.wf(),
            registry.index_consistent(),
            registry.counter == 0,
            registry.invoices@.len() == 0,
            registry.by_creator@.len() == 0,
            registry.events@.len() == 0,
            forall|s: InvoiceStatus| #[trigger] registry.bucket(s) == Seq::<u64>::empty(),
    {
        let registry = InvoiceNFTContract {
            counter: 0,
            invoices: Vec::new(),
            by_creator: Vec::new(),
            by_status: StatusIndex::new(env),
            events: Vec::new(),
        };
        proof {
            assert forall|s: InvoiceStatus| #[trigger]
                registry.bucket(s).no_duplicates() && forall|id: u64| #[trigger]
                    registry.bucket(s).contains(id) <==> registry.status_of(id) == Some(s) by {
                assert(registry.bucket(s) == Seq::<u64>::empty());
            }
        }
        registry
    }

    /// Discount, in basis points, for a receivable that falls due in
    /// `days_until_due` days.
    pub fn calculate_discount_rate(days_until_due: u64) -> (rate: u32)
        ensures
            rate as int == discount_rate_bp(days_until_due as int),
            200 <= rate <= 1500,
    {
        if days_until_due >= 130 {
            1500
        } else {
            let days: u32 = days_until_due as u32;
            200 + days * 10
        }
    }

    /// The machine can carry out the creation of an invoice: the counter
    /// and the two lists have room for one more, and the offer amount can
    /// be computed.
    pub open spec fn creation_fits(
        &self,
        creator: Principal,
        amount: i128,
        due_date: u64,
        now: u64,
    ) -> bool {
        &&& self.counter < u64::MAX
        &&& self.bucket(InvoiceStatus::Pending).len() < u32::MAX
        &&& self.creator_ids(creator).len() < u32::MAX
        &&& due_date > now && amount > 0 ==> fits_i128(
            amount * (10000 - discount_rate_bp(days_between(now as int, due_date as int))),
        )
    }

    /// Whether the machine can carry out the creation of an invoice.
    pub fn can_create_invoice(&self, creator: Principal, amount: i128, due_date: u64, now: u64) -> (fits:
        bool)
        requires
            self.wf(),
        ensures
            fits == self.creation_fits(creator, amount, due_date, now),
    {
        if self.counter == u64::MAX {
            return false;
        }
        if self.by_status.pending.len() == u32::MAX {
            return false;
        }
        match find_creator(&self.by_creator, creator) {
            Some(i) => {
                proof {
                    lemma_ids_of_entry(self.by_creator@, creator, i as int);
                }
                if self.by_creator[i].ids.len() == u32::MAX {
                    return false;
                }
            },
            None => {},
        }
        if due_date > now && amount > 0 {
            let days = days_until(now, due_date);
            let rate = Self::calculate_discount_rate(days);
            let kept: i128 = (10000 - rate) as i128;
            amount.checked_mul(kept).is_some()
        } else {
            true
        }
    }

    /// Whether the list of `status` has room for one more invoice.
    pub fn has_room(&self, status: InvoiceStatus) -> (room: bool)
        ensures
            room == (self.bucket(status).len() < u32::MAX),
    {
        self.by_status.list(status).len() < u32::MAX
    }

    /// Whether `after` and `result` are what the registration of `params` for
    /// `creator` at time `now` makes of the registry `before`.
    pub open spec fn registers(
        before: Self,
        after: Self,
        creator: Principal,
        params: InvoiceCreationParams,
        now: u64,
        authorized: bool,
        result: Result<u64, Error>,
    ) -> bool {
        match result {
            Ok(id) => {
                &&& creation_refusal(authorized, params.amount, params.due_date, now).is_none()
                &&& id == before.counter + 1
                &&& after.counter == id
                &&& after.invoices@.len() == id
                &&& after.invoices@.drop_last() == before.invoices@
                &&& is_new_invoice(after.invoices@.last(), id, creator, params, now)
                &&& after.creator_ids(creator) == before.creator_ids(creator).push(id)
                &&& forall|other: Principal|
                    other != creator ==> #[trigger] after.creator_ids(other) == before.creator_ids(other)
                &&& forall|s: InvoiceStatus| #[trigger]
                    after.bucket(s) == if s == InvoiceStatus::Pending {
                        before.bucket(s).push(id)
                    } else {
                        before.bucket(s)
                    }
                &&& after.events@ == before.events@.push(
                    RegistryEvent::Created { invoice_id: id, creator },
                )
            },
            Err(e) => {
                &&& creation_refusal(authorized, params.amount, params.due_date, now) == Some(e)
                &&& after == before
            },
        }
    }

    /// Registers the receivable described by `params` for `creator` and
    /// returns its identifier, the counter's next value. The invoice starts
    /// as pending and is listed under its creator and under that status.
    pub fn create_invoice(
        &mut self,
        env: &soroban_sdk::Env,
        creator: Principal,
        params: InvoiceCreationParams,
        now: u64,
        authorized: bool,
    ) -> (result: Result<u64, Error>)
        requires
            old(self).wf(),
            old(self).creation_fits(creator, params.amount, params.due_date, now),
        ensures
            final(self).wf(),
            old(self).index_consistent() ==> final(self).index_consistent(),
            Self::step(
                *old(self),
                *final(self),
                match result {
                    Ok(id) => Some(id),
                    Err(_) => None,
                },
            ),
            Self::registers(
                *old(self),
                *final(self),
                creator,
                params,
                now,
                authorized,
                result,
            ),
    {
        if !authorized {
            return Err(Error::Unauthorized);
        }
        if params.due_date <= now {
            return Err(Error::InvalidDueDate);
        }
        if params.amount <= 0 {
            return Err(Error::InvalidAmount);
        }
        let id: u64 = self.counter + 1;
        self.counter = id;

        let days_until_due = days_until(now, params.due_date);
        let discount_rate = Self::calculate_discount_rate(days_until_due);
        let offer_amount = basis_points_of(params.amount, 10000 - discount_rate);

        let invoice = Invoice {
            id,
            title: params.title,
            symbol: "INV".to_string(),
            status: InvoiceStatus::Pending,
            creator,
            creator_info: CreatorInfo {
                business_name: params.business_name,
                location: params.location,
                trust_score: 50,
                verification_level: "pending".to_string(),
            },
            invoice_details: InvoiceDetails {
                amount: params.amount,
                currency: params.currency,
                due_date: params.due_date,
                customer_name: params.customer_name,
                customer_email: params.customer_email,
                description: params.description,
                tax_rate: params.tax_rate,
                early_discount: params.early_discount,
            },
            financial_terms: FinancialTerms {
                offer_amount,
                discount_rate,
                expected_yield: 1000,
                collateral_type: params.collateral_type,
                is_recurring: params.is_recurring,
            },
            risk_assessment: RiskAssessment {
                risk_score: "C".to_string(),
                esg_compliant: params.esg_compliant,
                verification_method: "manual".to_string(),
            },
            timestamps: Timestamps {
                created_at: now,
                funded_at: None,
                due_date: params.due_date,
                completed_at: None,
            },
            proof_hash: params.proof_hash,
        };
        self.invoices.push(invoice);
        list_under_creator(&mut self.by_creator, env, creator, id);
        self.by_status.insert(InvoiceStatus::Pending, id);
        self.events.push(RegistryEvent::Created { invoice_id: id, creator });

        proof {
            assert(self.invoices@.drop_last() == old(self).invoices@);
            if old(self).index_consistent() {
                Self::lemma_created_keeps_index(*old(self), *self, id);
            }
        }
        Ok(id)
    }

    /// Listing a freshly registered pending invoice keeps the status index
    /// consistent.
    proof fn lemma_created_keeps_index(before: Self, after: Self, id: u64)
        requires
            before.index_consistent(),
            id == before.invoices@.len() + 1,
            after.invoices@.len() == id,
            after.invoices@.drop_last() == before.invoices@,
            after.invoices@.last().status == InvoiceStatus::Pending,
            forall|s: InvoiceStatus| #[trigger]
                after.bucket(s) == if s == InvoiceStatus::Pending {
                    before.bucket(s).push(id)
                } else {
                    before.bucket(s)
                },
        ensures
            after.index_consistent(),
    {
        assert forall|x: u64| x != id implies after.status_of(x) == before.status_of(x) by {
            if 1 <= x <= before.invoices@.len() {
                assert(after.invoices@.drop_last()[x - 1] == after.invoices@[x - 1]);
            }
        }
        assert(before.status_of(id).is_none());
        assert(after.status_of(id) == Some(InvoiceStatus::Pending));
        assert forall|s: InvoiceStatus| #[trigger]
            after.bucket(s).no_duplicates() && forall|x: u64| #[trigger]
                after.bucket(s).contains(x) <==> after.status_of(x) == Some(s) by {
            let b = before.bucket(s);
            assert(b.no_duplicates());
            assert(!b.contains(id));
            lemma_push_members(b, id);
            assert forall|x: u64| #[trigger]
                after.bucket(s).contains(x) <==> after.status_of(x) == Some(s) by {
                assert(b.contains(x) <==> before.status_of(x) == Some(s));
            }
        }
    }

    /// Registers a receivable as `create_invoice` does, on every input: where
    /// the machine cannot carry the registration out, nothing is returned and
    /// the registry stays as it is.
    pub fn checked_create_invoice(
        &mut self,
        env: &soroban_sdk::Env,
        creator: Principal,
        params: InvoiceCreationParams,
        now: u64,
        authorized: bool,
    ) -> (outcome: Option<Result<u64, Error>>)
        requires
            old(self).wf(),
        ensures
            final(self).wf(),
            old(self).index_consistent() ==> final(self).index_consistent(),
            Self::step(
                *old(self),
                *final(self),
                match outcome {
                    Some(Ok(id)) => Some(id),
                    _ => None,
                },
            ),
            match outcome {
                Some(result) => {
                    &&& old(self).creation_fits(creator, params.amount, params.due_date, now)
                    &&& Self::registers(
                        *old(self),
                        *final(self),
                        creator,
                        params,
                        now,
                        authorized,
                        result,
                    )
                },
                None => {
                    &&& !(old(self).creation_fits(creator, params.amount, params.due_date, now))
                    &&& *final(self) == *old(self)
                },
            },
    {
        if self.can_create_invoice(creator, params.amount, params.due_date, now) {
            Some(self.create_invoice(env, creator, params, now, authorized))
        } else {
            None
        }
    }

    /// Moves `invoice_id` from the list of `old_status` to the list of
    /// `new_status`.
    fn update_status_index(
        &mut self,
        invoice_id: u64,
        old_status: InvoiceStatus,
        new_status: InvoiceStatus,
    )
        requires
            old(self).bucket(new_status).len() < u32::MAX,
        ensures
            final(self).counter == old(self).counter,
            final(self).invoices == old(self).invoices,
            final(self).by_creator == old(self).by_creator,
            final(self).events == old(self).events,
            forall|s: InvoiceStatus| #[trigger]
                final(self).bucket(s) == bucket_after_move(
                    old(self).bucket(s),
                    s,
                    invoice_id,
                    old_status,
                    new_status,
                ),
    {
        self.by_status.remove(old_status, invoice_id);
        proof {
            if old_status == new_status {
                lemma_without_first_len(old(self).bucket(old_status), invoice_id);
            }
        }
        self.by_status.insert(new_status, invoice_id);
    }

    /// Moving an invoice to the list of its new status, from the list of the
    /// status it had, keeps the status index consistent.
    proof fn lemma_moved_keeps_index(
        before: Self,
        after: Self,
        id: u64,
        from: InvoiceStatus,
        to: InvoiceStatus,
    )
        requires
            before.index_consistent(),
            before.status_of(id) == Some(from),
            after.status_of(id) == Some(to),
            forall|x: u64| x != id ==> after.status_of(x) == before.status_of(x),
            forall|s: InvoiceStatus| #[trigger]
                after.bucket(s) == bucket_after_move(before.bucket(s), s, id, from, to),
        ensures
            after.index_consistent(),
    {
        assert forall|s: InvoiceStatus| #[trigger]
            after.bucket(s).no_duplicates() && forall|x: u64| #[trigger]
                after.bucket(s).contains(x) <==> after.status_of(x) == Some(s) by {
            let b = before.bucket(s);
            assert(b.no_duplicates());
            let left = if s == from {
                without_first(b, id)
            } else {
                b
            };
            lemma_without_first_members(b, id);
            assert(b.contains(id) <==> s == from);
            assert(!left.contains(id));
            assert(left.no_duplicates());
            lemma_push_members(left, id);
            assert forall|x: u64| #[trigger]
                after.bucket(s).contains(x) <==> after.status_of(x) == Some(s) by {
                assert(b.contains(x) <==> before.status_of(x) == Some(s));
            }
        }
    }

    /// Whether `after` and `result` are what giving the invoice `invoice_id`
    /// the status `new_status` at time `now` makes of the registry `before`.
    pub open spec fn changes_status(
        before: Self,
        after: Self,
        invoice_id: u64,
        new_status: InvoiceStatus,
        now: u64,
        authorized: bool,
        result: Result<(), Error>,
    ) -> bool {
        match result {
            Ok(_) => {
                &&& authorized
                &&& before.invoice(invoice_id).is_some()
                &&& after.counter == before.counter
                &&& after.invoices@ == before.invoices@.update(
                    invoice_id - 1,
                    with_status(before.invoice(invoice_id).unwrap(), new_status, now),
                )
                &&& after.by_creator == before.by_creator
                &&& forall|s: InvoiceStatus| #[trigger]
                    after.bucket(s) == bucket_after_move(
                        before.bucket(s),
                        s,
                        invoice_id,
                        before.status_of(invoice_id).unwrap(),
                        new_status,
                    )
                &&& after.events@ == before.events@.push(
                    RegistryEvent::StatusChanged { invoice_id, new_status },
                )
            },
            Err(e) => {
                &&& after == before
                &&& e == if !authorized {
                    Error::Unauthorized
                } else {
                    Error::NotFound
                }
                &&& !authorized || before.invoice(invoice_id).is_none()
            },
        }
    }

    /// Gives the invoice `invoice_id` the status `new_status` and moves it
    /// to the list of that status. Taking the status funded or completed
    /// stamps the time.
    pub fn update_status(
        &mut self,
        invoice_id: u64,
        new_status: InvoiceStatus,
        caller: Principal,
        now: u64,
        authorized: bool,
    ) -> (result: Result<(), Error>)
        requires
            old(self).bucket(new_status).len() < u32::MAX,
        ensures
            old(self).wf() ==> final(self).wf(),
            old(self).index_consistent() ==> final(self).index_consistent(),
            Self::step(*old(self), *final(self), None),
            Self::changes_status(
                *old(self),
                *final(self),
                invoice_id,
                new_status,
                now,
                authorized,
                result,
            ),
    {
        if !authorized {
            return Err(Error::Unauthorized);
        }
        let total: usize = self.invoices.len();
        if invoice_id < 1 || invoice_id > total as u64 {
            return Err(Error::NotFound);
        }
        let slot: usize = (invoice_id - 1) as usize;
        let old_status = self.invoices[slot].status;
        let invoice = &mut self.invoices[slot];
        invoice.status = new_status;
        match new_status {
            InvoiceStatus::Funded => {
                invoice.timestamps.funded_at = Some(now);
            },
            InvoiceStatus::Completed => {
                invoice.timestamps.completed_at = Some(now);
            },
            _ => {},
        }
        self.update_status_index(invoice_id, old_status, new_status);
        let ghost moved = *self;
        self.events.push(RegistryEvent::StatusChanged { invoice_id, new_status });
        proof {
            assert forall|s: InvoiceStatus| #[trigger]
                self.bucket(s) == bucket_after_move(
                    old(self).bucket(s),
                    s,
                    invoice_id,
                    old_status,
                    new_status,
                ) by {
                assert(self.bucket(s) == moved.bucket(s));
            }
            assert(self.invoices@ =~= old(self).invoices@.update(
                invoice_id - 1,
                with_status(old(self).invoice(invoice_id).unwrap(), new_status, now),
            ));
            if old(self).index_consistent() {
                Self::lemma_moved_keeps_index(
                    *old(self),
                    *self,
                    invoice_id,
                    old_status,
                    new_status,
                );
            }
        }
        Ok(())
    }

    /// The invoice registered under `invoice_id`.
    pub fn get_invoice(&self, invoice_id: u64) -> (invoice: Option<&Invoice>)
        ensures
            match invoice {
                Some(found) => self.invoice(invoice_id) == Some(*found),
                None => self.invoice(invoice_id).is_none(),
            },
    {
        let total: usize = self.invoices.len();
        if invoice_id < 1 || invoice_id > total as u64 {
            None
        } else {
            let slot: usize = (invoice_id - 1) as usize;
            Some(&self.invoices[slot])
        }
    }

    /// Changes a status as `update_status` does, on every input: where the
    /// list of the new status has no room, nothing is returned and the registry
    /// stays as it is.
    pub fn checked_update_status(
        &mut self,
        invoice_id: u64,
        new_status: InvoiceStatus,
        caller: Principal,
        now: u64,
        authorized: bool,
    ) -> (outcome: Option<Result<(), Error>>)
        ensures
            old(self).wf() ==> final(self).wf(),
            old(self).index_consistent() ==> final(self).index_consistent(),
            Self::step(*old(self), *final(self), None),
            match outcome {
                Some(result) => {
                    &&& old(self).bucket(new_status).len() < u32::MAX
                    &&& Self::changes_status(
                        *old(self),
                        *final(self),
                        invoice_id,
                        new_status,
                        now,
                        authorized,
                        result,
                    )
                },
                None => {
                    &&& !(old(self).bucket(new_status).len() < u32::MAX)
                    &&& *final(self) == *old(self)
                },
            },
    {
        if self.has_room(new_status) {
            Some(self.update_status(invoice_id, new_status, caller, now, authorized))
        } else {
            None
        }
    }

    /// The invoices that `creator` has registered, oldest first.
    pub fn get_invoices_by_creator(&self, env: &soroban_sdk::Env, creator: Principal) -> (ids:
        IdList)
        requires
            self.wf(),
        ensures
            ids@ == self.creator_ids(creator),
    {
        match find_creator(&self.by_creator, creator) {
            Some(i) => {
                proof {
                    lemma_ids_of_entry(self.by_creator@, creator, i as int);
                }
                self.by_creator[i].ids.duplicate()
            },
            None => IdList::new(env),
        }
    }

    /// The invoices listed under `status`.
    pub fn get_invoices_by_status(&self, status: InvoiceStatus) -> (ids: IdList)
        ensures
            ids@ == self.bucket(status),
    {
        self.by_status.list(status).duplicate()
    }

    /// Whether `after` and `result` are what the settlement of the invoice
    /// `invoice_id` by `payer` at time `now` makes of the registry `before`.
    pub open spec fn pays(
        before: Self,
        after: Self,
        invoice_id: u64,
        payer: Principal,
        now: u64,
        authorized: bool,
        result: Result<(), Error>,
    ) -> bool {
        match result {
            Ok(_) => {
                &&& Self::payment_refusal(before.status_of(invoice_id), authorized).is_none()
                &&& after.counter == before.counter
                &&& after.invoices@ == before.invoices@.update(
                    invoice_id - 1,
                    with_status(
                        before.invoice(invoice_id).unwrap(),
                        InvoiceStatus::Completed,
                        now,
                    ),
                )
                &&& after.by_creator == before.by_creator
                &&& forall|s: InvoiceStatus| #[trigger]
                    after.bucket(s) == bucket_after_move(
                        before.bucket(s),
                        s,
                        invoice_id,
                        InvoiceStatus::Funded,
                        InvoiceStatus::Completed,
                    )
                &&& after.events@ == before.events@.push(
                    RegistryEvent::Paid {
                        invoice_id,
                        payer,
                        is_early: now < before.invoice(invoice_id).unwrap().timestamps.due_date,
                    },
                )
            },
            Err(e) => {
                &&& after == before
                &&& Self::payment_refusal(before.status_of(invoice_id), authorized) == Some(e)
            },
        }
    }

    /// Settles the invoice `invoice_id`, which must be funded or open: it
    /// becomes completed at time `now`, leaves the list of funded invoices
    /// if it stands there, and joins the list of completed ones. An open
    /// invoice stays on the list of open invoices.
    pub fn mark_as_paid(&mut self, invoice_id: u64, payer: Principal, now: u64, authorized: bool) -> (result:
        Result<(), Error>)
        requires
            old(self).bucket(InvoiceStatus::Completed).len() < u32::MAX,
        ensures
            old(self).wf() ==> final(self).wf(),
            Self::step(*old(self), *final(self), None),
            old(self).index_consistent() && old(self).status_of(invoice_id) == Some(
                InvoiceStatus::Funded,
            ) ==> final(self).index_consistent(),
            Self::pays(
                *old(self),
                *final(self),
                invoice_id,
                payer,
                now,
                authorized,
                result,
            ),
    {
        if !authorized {
            return Err(Error::Unauthorized);
        }
        let total: usize = self.invoices.len();
        if invoice_id < 1 || invoice_id > total as u64 {
            return Err(Error::NotFound);
        }
        let slot: usize = (invoice_id - 1) as usize;
        let old_status = self.invoices[slot].status;
        if old_status != InvoiceStatus::Funded && old_status != InvoiceStatus::Open {
            return Err(Error::InvalidState);
        }
        let invoice = &mut self.invoices[slot];
        invoice.status = InvoiceStatus::Completed;
        invoice.timestamps.completed_at = Some(now);
        let is_early = now < invoice.timestamps.due_date;
        self.update_status_index(invoice_id, InvoiceStatus::Funded, InvoiceStatus::Completed);
        let ghost moved = *self;
        self.events.push(RegistryEvent::Paid { invoice_id, payer, is_early });
        proof {
            assert forall|s: InvoiceStatus| #[trigger]
                self.bucket(s) == bucket_after_move(
                    old(self).bucket(s),
                    s,
                    invoice_id,
                    InvoiceStatus::Funded,
                    InvoiceStatus::Completed,
                ) by {
                assert(self.bucket(s) == moved.bucket(s));
            }
            assert(self.invoices@ =~= old(self).invoices@.update(
                invoice_id - 1,
                with_status(old(self).invoice(invoice_id).unwrap(), InvoiceStatus::Completed, now),
            ));
            if old(self).index_consistent() && old_status == InvoiceStatus::Funded {
                Self::lemma_moved_keeps_index(
                    *old(self),
                    *self,
                    invoice_id,
                    InvoiceStatus::Funded,
                    InvoiceStatus::Completed,
                );
            }
        }
        Ok(())
    }

    /// The error, if any, that refuses the settlement of an invoice whose
    /// status is `status`.
    pub open spec fn payment_refusal(status: Option<InvoiceStatus>, authorized: bool) -> Option<
        Error,
    > {
        if !authorized {
            Some(Error::Unauthorized)
        } else {
            match status {
                None => Some(Error::NotFound),
                Some(InvoiceStatus::Funded) | Some(InvoiceStatus::Open) => None,
                Some(_) => Some(Error::InvalidState),
            }
        }
    }

    /// Reports a new trust score for `creator`. The score is announced and
    /// kept nowhere.
    pub fn update_trust_score(
        &mut self,
        creator: Principal,
        new_score: u32,
        admin: Principal,
        authorized: bool,
    ) -> (result: Result<(), Error>)
        ensures
            Self::step(*old(self), *final(self), None),
            match result {
                Ok(_) => {
                    &&& authorized
                    &&& new_score <= 100
                    &&& final(self).counter == old(self).counter
                    &&& final(self).invoices == old(self).invoices
                    &&& final(self).by_creator == old(self).by_creator
                    &&& final(self).by_status == old(self).by_status
                    &&& final(self).events@ == old(self).events@.push(
                        RegistryEvent::TrustScore { creator, new_score },
                    )
                },
                Err(e) => {
                    &&& *final(self) == *old(self)
                    &&& e == if !authorized {
                        Error::Unauthorized
                    } else {
                        Error::OutOfRange
                    }
                    &&& !authorized || new_score > 100
                },
            },
    {
        if !authorized {
            return Err(Error::Unauthorized);
        }
        if new_score > 100 {
            return Err(Error::OutOfRange);
        }
        self.events.push(RegistryEvent::TrustScore { creator, new_score });
        Ok(())
    }

    /// Settles an invoice as `mark_as_paid` does, on every input: where the
    /// list of completed invoices has no room, nothing is returned and the
    /// registry stays as it is.
    pub fn checked_mark_as_paid(
        &mut self,
        invoice_id: u64,
        payer: Principal,
        now: u64,
        authorized: bool,
    ) -> (outcome: Option<Result<(), Error>>)
        ensures
            old(self).wf() ==> final(self).wf(),
            Self::step(*old(self), *final(self), None),
            old(self).index_consistent() && old(self).status_of(invoice_id) == Some(
                InvoiceStatus::Funded,
            ) ==> final(self).index_consistent(),
            match outcome {
                Some(result) => {
                    &&& old(self).bucket(InvoiceStatus::Completed).len() < u32::MAX
                    &&& Self::pays(
                        *old(self),
                        *final(self),
                        invoice_id,
                        payer,
                        now,
                        authorized,
                        result,
                    )
                },
                None => {
                    &&& !(old(self).bucket(InvoiceStatus::Completed).len() < u32::MAX)
                    &&& *final(self) == *old(self)
                },
            },
    {
        if self.has_room(InvoiceStatus::Completed) {
            Some(self.mark_as_paid(invoice_id, payer, now, authorized))
        } else {
            None
        }
    }

    /// The number of invoices registered so far.
    pub fn get_total_invoices(&self) -> (total: u64)
        ensures
            total == self.counter,
    {
        self.counter
    }

    /// Hands out the events emitted since the last call and empties the log.
    pub fn take_events(&mut self) -> (events: Vec<RegistryEvent>)
        ensures
            Self::step(*old(self), *final(self), None),
            events@ == old(self).events@,
            final(self).events@.len() == 0,
            final(self).counter == old(self).counter,
            final(self).invoices == old(self).invoices,
            final(self).by_creator == old(self).by_creator,
            final(self).by_status == old(self).by_status,
    {
        let mut events: Vec<RegistryEvent> = Vec::new();
        std::mem::swap(&mut events, &mut self.events);
        events
    }
}

/// The discount never exceeds fifteen percent, starts at two percent and
/// never falls as the term grows.
pub proof fn law_discount_is_capped(days: int, later: int)
    ensures
        discount_rate_bp(days) <= 1500,
        days >= 0 ==> discount_rate_bp(days) >= 200,
        days >= 130 ==> discount_rate_bp(days) == 1500,
        0 <= days < 130 ==> discount_rate_bp(days) == 200 + 10 * days,
        days <= later ==> discount_rate_bp(days) <= discount_rate_bp(later),
{
}

/// For a positive amount the offer is never negative and never more than
/// the amount.
pub proof fn law_offer_within_amount(amount: i128, due_date: u64, now: u64)
    requires
        amount > 0,
        due_date > now,
    ensures
        0 <= offer_for(amount, due_date, now) <= amount,
{
    let days = days_between(now as int, due_date as int);
    let kept = 10000 - discount_rate_bp(days);
    assert(days >= 0);
    assert(8500 <= kept <= 9800);
    assert(0 <= amount * kept <= amount * 10000) by (nonlinear_arith)
        requires
            amount > 0,
            0 <= kept <= 10000,
    ;
    assert((amount * kept) / 10000 <= amount) by (nonlinear_arith)
        requires
            0 <= amount * kept <= amount * 10000,
    ;
    assert((amount * kept) / 10000 >= 0) by (nonlinear_arith)
        requires
            0 <= amount * kept,
    ;
}

impl InvoiceNFTContract {
    /// Through any sequence of operations the counter stands at where it
    /// started plus the number of identifiers handed out since.
    pub proof fn law_counter_counts_identifiers(
        history: Seq<Self>,
        issued: Seq<Option<u64>>,
        k: int,
    )
        requires
            Self::is_history(history, issued),
            0 <= k <= issued.len(),
        ensures
            history[k].counter == history[0].counter + Self::issued_before(issued, k),
        decreases k,
    {
        if k > 0 {
            Self::law_counter_counts_identifiers(history, issued, k - 1);
            assert(Self::step(history[k - 1], history[k - 1 + 1], issued[k - 1]));
        }
    }

    /// Through any sequence of operations the counter never falls.
    pub proof fn law_counter_never_falls(
        history: Seq<Self>,
        issued: Seq<Option<u64>>,
        i: int,
        j: int,
    )
        requires
            Self::is_history(history, issued),
            0 <= i <= j <= issued.len(),
        ensures
            history[i].counter <= history[j].counter,
        decreases j - i,
    {
        if i < j {
            Self::law_counter_never_falls(history, issued, i, j - 1);
            assert(Self::step(history[j - 1], history[j - 1 + 1], issued[j - 1]));
        }
    }

    /// Identifiers are handed out in strictly increasing order: of two
    /// identifiers that a registry handed out, in whatever sequence of
    /// operations, the later one is the larger.
    pub proof fn law_identifiers_increase(
        history: Seq<Self>,
        issued: Seq<Option<u64>>,
        i: int,
        j: int,
    )
        requires
            Self::is_history(history, issued),
            0 <= i < j < issued.len(),
            issued[i].is_some(),
            issued[j].is_some(),
        ensures
            issued[i].unwrap() < issued[j].unwrap(),
    {
        assert(Self::step(history[i], history[i + 1], issued[i]));
        assert(Self::step(history[j], history[j + 1], issued[j]));
        Self::law_counter_never_falls(history, issued, i + 1, j);
    }

    /// A registry that starts with its counter at zero hands out 1, 2, 3
    /// and so on without a gap: each identifier is one more than the number
    /// of identifiers handed out before it.
    pub proof fn law_identifiers_count_from_one(
        history: Seq<Self>,
        issued: Seq<Option<u64>>,
        k: int,
    )
        requires
            Self::is_history(history, issued),
            history[0].counter == 0,
            0 <= k < issued.len(),
            issued[k].is_some(),
        ensures
            issued[k].unwrap() == Self::issued_before(issued, k) + 1,
            issued[k].unwrap() >= 1,
            Self::issued_before(issued, k) == 0 ==> issued[k].unwrap() == 1,
    {
        Self::law_counter_counts_identifiers(history, issued, k);
        assert(Self::step(history[k], history[k + 1], issued[k]));
        Self::lemma_issued_before_is_a_count(issued, k);
    }

    /// A count is not negative.
    proof fn lemma_issued_before_is_a_count(issued: Seq<Option<u64>>, k: int)
        ensures
            Self::issued_before(issued, k) >= 0,
        decreases k,
    {
        if 0 < k <= issued.len() {
            Self::lemma_issued_before_is_a_count(issued, k - 1);
        }
    }

    /// A registration succeeds exactly where the creator authorized it, the
    /// amount is positive and the due date lies ahead. It then hands out the
    /// identifier that follows the counter and leaves the counter at it; a
    /// refused one hands out none and leaves the counter.
    pub proof fn law_registration_issues_next(
        before: Self,
        after: Self,
        creator: Principal,
        params: InvoiceCreationParams,
        now: u64,
        authorized: bool,
        result: Result<u64, Error>,
    )
        requires
            Self::registers(before, after, creator, params, now, authorized, result),
        ensures
            result.is_ok() <==> authorized && params.amount > 0 && params.due_date > now,
            Self::step(
                before,
                after,
                match result {
                    Ok(id) => Some(id),
                    Err(_) => None,
                },
            ),
            result.is_ok() ==> result.unwrap() == before.counter + 1 && after.counter
                == result.unwrap() && after.invoices@.len() == result.unwrap(),
    {
    }

    /// A change of status keeps a consistent index consistent, whatever the
    /// invoice, the status and the outcome. Where it succeeds, the invoice
    /// has the new status and stands on the list of that status and on no
    /// other, also where it had that status before.
    pub proof fn law_status_change_keeps_index(
        before: Self,
        after: Self,
        invoice_id: u64,
        new_status: InvoiceStatus,
        now: u64,
        authorized: bool,
        result: Result<(), Error>,
    )
        requires
            Self::changes_status(before, after, invoice_id, new_status, now, authorized, result),
            before.index_consistent(),
        ensures
            after.index_consistent(),
            result.is_ok() ==> after.status_of(invoice_id) == Some(new_status),
            result.is_ok() ==> after.bucket(new_status).contains(invoice_id),
            result.is_ok() ==> forall|other: InvoiceStatus|
                other != new_status ==> !(#[trigger] after.bucket(other)).contains(invoice_id),
    {
        if result.is_ok() {
            let from = before.status_of(invoice_id).unwrap();
            assert(after.invoices@[invoice_id - 1].status == new_status);
            assert forall|x: u64| x != invoice_id implies after.status_of(x) == before.status_of(
                x,
            ) by {
                if 1 <= x <= before.invoices@.len() {
                    assert(after.invoices@[x - 1] == before.invoices@[x - 1]);
                }
            }
            Self::lemma_moved_keeps_index(before, after, invoice_id, from, new_status);
            assert(after.bucket(new_status).no_duplicates());
            assert(after.bucket(new_status).contains(invoice_id) <==> after.status_of(invoice_id)
                == Some(new_status));
            assert forall|other: InvoiceStatus| other != new_status implies !(
            #[trigger] after.bucket(other)).contains(invoice_id) by {
                assert(after.bucket(other).no_duplicates());
                assert(after.bucket(other).contains(invoice_id) <==> after.status_of(invoice_id)
                    == Some(other));
            }
        }
    }

    /// In a consistent registry an invoice stands on the list of its
    /// status, once, and on no other list; an identifier that was never
    /// handed out stands on none.
    pub proof fn law_one_bucket_per_invoice(&self, id: u64, status: InvoiceStatus)
        requires
            self.wf(),
            self.index_consistent(),
        ensures
            self.bucket(status).contains(id) <==> self.status_of(id) == Some(status),
            self.bucket(status).no_duplicates(),
            self.bucket(status).contains(id) ==> 1 <= id <= self.counter,
            forall|other: InvoiceStatus|
                self.bucket(status).contains(id) && self.bucket(other).contains(id) ==> other
                    == status,
    {
        assert(self.bucket(status).no_duplicates());
        assert(self.bucket(status).contains(id) <==> self.status_of(id) == Some(status));
        assert forall|other: InvoiceStatus|
            self.bucket(status).contains(id) && self.bucket(other).contains(id) implies other
            == status by {
            assert(self.bucket(other).no_duplicates());
            assert(self.bucket(other).contains(id) <==> self.status_of(id) == Some(other));
        }
    }
}

} // verus!
