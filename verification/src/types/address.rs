use vstd::prelude::*;

verus! {

/// Identity of a participant, of the administrator or of an asset.
///
/// An address is a kind (account or contract) and a 256-bit key, held as two
/// big-endian halves. Addresses are ordered by kind first (accounts before
/// contracts), then by key.
#[derive(Clone, Copy, Debug, PartialEq, Eq, Structural, Hash)]
pub struct Address {
    pub is_contract: bool,
    pub hi: u128,
    pub lo: u128,
}

impl Address {
    /// Strict order on addresses: kind, then high half, then low half.
    pub open spec fn lt(self, other: Address) -> bool {
        if self.is_contract != other.is_contract {
            !self.is_contract
        } else if self.hi != other.hi {
            self.hi < other.hi
        } else {
            self.lo < other.lo
        }
    }

    /// The address of the account with the given key.
    pub fn account(hi: u128, lo: u128) -> (a: Address)
        ensures
            a == (Address { is_contract: false, hi, lo }),
    {
        Address { is_contract: false, hi, lo }
    }

    /// The address of the contract with the given key.
    pub fn contract(hi: u128, lo: u128) -> (a: Address)
        ensures
            a == (Address { is_contract: true, hi, lo }),
    {
        Address { is_contract: true, hi, lo }
    }

    /// Whether `self` comes strictly before `other`.
    pub fn precedes(&self, other: &Address) -> (b: bool)
        ensures
            b == self.lt(*other),
    {
        if self.is_contract != other.is_contract {
            !self.is_contract
        } else if self.hi != other.hi {
            self.hi < other.hi
        } else {
            self.lo < other.lo
        }
    }

    /// The order is total: of two different addresses one precedes the other.
    pub proof fn lemma_lt_total(a: Address, b: Address)
        ensures
            a == b || a.lt(b) || b.lt(a),
            !(a.lt(b) && b.lt(a)),
            !a.lt(a),
    {
    }

    /// The order is transitive.
    pub proof fn lemma_lt_transitive(a: Address, b: Address, c: Address)
        requires
            a.lt(b),
            b.lt(c),
        ensures
            a.lt(c),
    {
    }
}

} // verus!
