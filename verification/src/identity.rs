//! Caller identities: cryptographically authenticated references (public
//! keys), opaque to the ledger core beyond equality of their bytes.

use vstd::prelude::*;

verus! {

/// The number of bytes in an identity (the size of a public key).
pub const IDENTITY_BYTES: usize = 32;

/// A caller reference that an external authentication collaborator has
/// already verified. The core compares identities for equality and feeds
/// their bytes into identifier derivation; it never inspects them otherwise.
#[derive(Clone, Copy, Debug)]
pub struct Identity {
    pub bytes: [u8; 32],
}

impl View for Identity {
    type V = Seq<u8>;

    open spec fn view(&self) -> Seq<u8> {
        self.bytes@
    }
}

impl Identity {
    pub fn new(bytes: [u8; 32]) -> (id: Identity)
        ensures
            id@ == bytes@,
    {
        Identity { bytes }
    }

    /// Whether two identities are the same caller, byte for byte.
    pub fn same_as(&self, other: &Identity) -> (r: bool)
        ensures
            r <==> self@ == other@,
    {
        let mut i: usize = 0;
        while i < IDENTITY_BYTES
            invariant
                i <= IDENTITY_BYTES,
                forall|j: int| 0 <= j < i ==> self.bytes@[j] == other.bytes@[j],
            decreases IDENTITY_BYTES - i,
        {
            if self.bytes[i] != other.bytes[i] {
                assert(self@[i as int] != other@[i as int]);
                return false;
            }
            i += 1;
        }
        proof {
            assert(self@ =~= other@);
        }
        true
    }
}

impl PartialEq for Identity {
    fn eq(&self, other: &Identity) -> (r: bool) {
        self.same_as(other)
    }
}

impl vstd::std_specs::cmp::PartialEqSpecImpl for Identity {
    open spec fn obeys_eq_spec() -> bool {
        true
    }

    open spec fn eq_spec(&self, other: &Identity) -> bool {
        self@ == other@
    }
}

} // verus!
