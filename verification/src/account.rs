//! Account identifiers: short opaque byte strings compared by value.

use vstd::prelude::*;
use vstd::std_specs::cmp::PartialEqSpecImpl;

verus! {

/// The longest identifier, in bytes, that names an account.
pub const MAX_ACCOUNT_BYTES: usize = 29;

/// An opaque account identifier. Two identifiers name the same account
/// exactly when their bytes are equal; nothing else is read from them.
#[derive(Debug)]
pub struct AccountId {
    bytes: Vec<u8>,
}

impl View for AccountId {
    type V = Seq<u8>;

    closed spec fn view(&self) -> Seq<u8> {
        self.bytes@
    }
}

/// Whether two byte strings hold the same bytes.
pub(crate) fn same_bytes(a: &[u8], b: &[u8]) -> (r: bool)
    ensures
        r == (a@ == b@),
{
    if a.len() != b.len() {
        return false;
    }
    let mut i: usize = 0;
    while i < a.len()
        invariant
            i <= a@.len(),
            a@.len() == b@.len(),
            forall|j: int| 0 <= j < i ==> a@[j] == b@[j],
        decreases a@.len() - i,
    {
        if a[i] != b[i] {
            return false;
        }
        i += 1;
    }
    assert(a@ =~= b@);
    true
}

impl AccountId {
    #[verifier::type_invariant]
    spec fn short_enough(&self) -> bool {
        self.bytes@.len() <= MAX_ACCOUNT_BYTES
    }

    /// Makes an identifier from its bytes, or `None` when there are more
    /// than [`MAX_ACCOUNT_BYTES`] of them.
    pub fn new(bytes: Vec<u8>) -> (r: Option<AccountId>)
        ensures
            r is Some <==> bytes@.len() <= MAX_ACCOUNT_BYTES,
            r matches Some(id) ==> id@ == bytes@,
    {
        if bytes.len() <= MAX_ACCOUNT_BYTES {
            Some(AccountId { bytes })
        } else {
            None
        }
    }

    /// The identifier's bytes.
    pub fn as_bytes(&self) -> (r: &Vec<u8>)
        ensures
            r@ == self@,
            r@.len() <= MAX_ACCOUNT_BYTES,
    {
        proof {
            use_type_invariant(self);
        }
        &self.bytes
    }
}

impl Clone for AccountId {
    fn clone(&self) -> (r: Self)
        ensures
            r@ == self@,
    {
        proof {
            use_type_invariant(self);
        }
        let bytes = self.bytes.clone();
        assert(bytes@ =~= self.bytes@);
        AccountId { bytes }
    }
}

impl PartialEq for AccountId {
    fn eq(&self, other: &Self) -> (r: bool) {
        same_bytes(self.bytes.as_slice(), other.bytes.as_slice())
    }
}

impl Eq for AccountId {

}

impl PartialEqSpecImpl for AccountId {
    open spec fn obeys_eq_spec() -> bool {
        true
    }

    open spec fn eq_spec(&self, other: &Self) -> bool {
        self@ == other@
    }
}

} // verus!
