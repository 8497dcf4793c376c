//! Caller identities.

use vstd::prelude::*;

verus! {

/// The identity of a caller: an opaque string of bytes. Two identities name
/// the same account exactly when their bytes are equal.
#[derive(Debug)]
pub struct UserId {
    bytes: Vec<u8>,
}

impl View for UserId {
    type V = Seq<u8>;

    closed spec fn view(&self) -> Seq<u8> {
        self.bytes@
    }
}

impl UserId {
    /// The identity written by `bytes`.
    pub fn from_bytes(bytes: Vec<u8>) -> (id: UserId)
        ensures
            id@ == bytes@,
    {
        UserId { bytes }
    }

    /// The bytes that write this identity.
    pub fn as_bytes(&self) -> (bytes: &[u8])
        ensures
            bytes@ == self@,
    {
        self.bytes.as_slice()
    }
}

impl PartialEq for UserId {
    /// Whether `self` and `other` are the same identity.
    fn eq(&self, other: &UserId) -> (same: bool) {
        if self.bytes.len() != other.bytes.len() {
            return false;
        }
        let mut i: usize = 0;
        while i < self.bytes.len()
            invariant
                i <= self.bytes.len(),
                self.bytes.len() == other.bytes.len(),
                forall|k: int| 0 <= k < i ==> self.bytes[k] == other.bytes[k],
            decreases self.bytes.len() - i,
        {
            if self.bytes[i] != other.bytes[i] {
                return false;
            }
            i += 1;
        }
        assert(self.bytes@ =~= other.bytes@);
        true
    }
}

impl vstd::std_specs::cmp::PartialEqSpecImpl for UserId {
    open spec fn obeys_eq_spec() -> bool {
        true
    }

    open spec fn eq_spec(&self, other: &UserId) -> bool {
        self@ == other@
    }
}

impl Eq for UserId {

}

impl Clone for UserId {
    fn clone(&self) -> (id: UserId)
        ensures
            id@ == self@,
    {
        UserId { bytes: self.bytes.clone() }
    }
}

} // verus!
