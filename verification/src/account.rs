//! Account identifiers: opaque values of twenty bytes.

use crate::table::Key;
use vstd::prelude::*;

verus! {

/// An opaque, fixed-width account identifier. The ledger only ever copies
/// identifiers and compares them for equality.
#[derive(Clone, Copy, Debug, PartialEq, Eq, Hash)]
pub struct AccountId {
    pub bytes: [u8; 20],
}

impl View for AccountId {
    type V = Seq<u8>;

    open spec fn view(&self) -> Seq<u8> {
        self.bytes@
    }
}

/// Two identifiers with the same bytes are the same identifier.
pub proof fn lemma_account_ext_equal(a: AccountId, b: AccountId)
    ensures
        (a == b) <==> (a@ =~= b@),
{
    broadcast use vstd::array::group_array_axioms;
    if a@ =~= b@ {
        assert forall|i: int| 0 <= i < 20 implies a.bytes[i] == b.bytes[i] by {
            assert(a@[i] == b@[i]);
        }
        assert(a.bytes =~= b.bytes);
    }
}

impl AccountId {
    /// Makes an identifier out of its bytes.
    pub fn new(bytes: [u8; 20]) -> (id: AccountId)
        ensures
            id.bytes == bytes,
            id@ == bytes@,
    {
        AccountId { bytes }
    }

    /// The identifier's bytes.
    pub fn to_bytes(&self) -> (bytes: [u8; 20])
        ensures
            bytes == self.bytes,
    {
        self.bytes
    }
}

impl Key for AccountId {
    /// Whether `self` and `other` are the same identifier.
    fn same(&self, other: &AccountId) -> (r: bool) {
        let mut i: usize = 0;
        while i < 20
            invariant
                i <= 20,
                forall|j: int| 0 <= j < i ==> self.bytes[j] == other.bytes[j],
            decreases 20 - i,
        {
            if self.bytes[i] != other.bytes[i] {
                return false;
            }
            i += 1;
        }
        proof {
            lemma_account_ext_equal(*self, *other);
            assert(self@ =~= other@);
        }
        true
    }
}

/// An owner and a spender: the key under which an allowance is stored.
#[derive(Clone, Copy, Debug, PartialEq, Eq, Hash)]
pub struct AllowanceKey {
    pub owner: AccountId,
    pub spender: AccountId,
}

impl Key for AllowanceKey {
    /// Whether `self` and `other` name the same owner and the same spender.
    fn same(&self, other: &AllowanceKey) -> (r: bool) {
        self.owner.same(&other.owner) && self.spender.same(&other.spender)
    }
}

} // verus!
