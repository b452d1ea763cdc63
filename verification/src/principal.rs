use vstd::prelude::*;

verus! {

/// The two kinds of party that can hold an address on the ledger.
#[derive(Clone, Copy, Debug, PartialEq, Eq, Structural)]
pub enum PrincipalKind {
    Account,
    Contract,
}

/// A party to an operation, identified by the kind of its address and the
/// 256-bit key behind it, kept as two halves.
#[derive(Clone, Copy, Debug, PartialEq, Eq, Structural)]
pub struct Principal {
    pub kind: PrincipalKind,
    pub key_hi: u128,
    pub key_lo: u128,
}

impl Principal {
    /// The account whose key is `key`, zero-extended.
    pub fn account(key: u128) -> (p: Principal)
        ensures
            p == (Principal { kind: PrincipalKind::Account, key_hi: 0, key_lo: key }),
    {
        Principal { kind: PrincipalKind::Account, key_hi: 0, key_lo: key }
    }

    /// The contract whose key is `key`, zero-extended.
    pub fn contract(key: u128) -> (p: Principal)
        ensures
            p == (Principal { kind: PrincipalKind::Contract, key_hi: 0, key_lo: key }),
    {
        Principal { kind: PrincipalKind::Contract, key_hi: 0, key_lo: key }
    }

    /// Whether two principals are the same party.
    pub fn same(&self, other: &Principal) -> (r: bool)
        ensures
            r == (*self == *other),
    {
        self.kind == other.kind && self.key_hi == other.key_hi && self.key_lo == other.key_lo
    }
}

} // verus!
