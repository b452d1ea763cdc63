//! Ledgers of an invoice-factoring marketplace: a registry of tokenized
//! receivables, a staking pool that supplies working capital, and the
//! marketplace that approves, funds and settles invoices.
//!
//! Each ledger is a value that owns its records, its indices and the log of
//! the events it has emitted. An operation takes the current time and
//! whether the acting principal has authorized it, and either returns an
//! error and leaves the ledger as it was, or applies all of its effects.
//!
//! Amounts are signed integers scaled by seven decimal places, rates are
//! basis points, and quotients are rounded toward zero. Where an operation
//! asks that its sums fit the machine's integers, the ledger has a function
//! whose name starts with `can_` that tells whether they do, and one whose
//! name starts with `checked_` that carries the operation out on every
//! input: it returns nothing, and changes nothing, where they do not.

pub mod error;
pub mod id_list;
pub mod invoice_nft;
pub mod liquidity_pool;
pub mod marketplace;
pub mod money;
pub mod principal;
