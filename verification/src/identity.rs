//! Identities of principals and records: opaque 32-byte tags.

use vstd::prelude::*;
use vstd::std_specs::cmp::PartialEqSpecImpl;

verus! {

/// Identifies a creator, a bettor, a resolver or a stored record.
#[derive(Clone, Copy, Debug, Eq)]
pub struct Id {
    pub bytes: [u8; 32],
}

impl View for Id {
    type V = Seq<u8>;

    open spec fn view(&self) -> Seq<u8> {
        self.bytes@
    }
}

/// Whether two 32-byte tags hold the same bytes.
pub fn bytes_eq(a: &[u8; 32], b: &[u8; 32]) -> (r: bool)
    ensures
        r == (a@ == b@),
{
    let mut i: usize = 0;
    while i < 32
        invariant
            0 <= i <= 32,
            forall|j: int| 0 <= j < i ==> a[j] == b[j],
        decreases 32 - i,
    {
        if a[i] != b[i] {
            return false;
        }
        i += 1;
    }
    assert(a@ =~= b@);
    true
}

impl PartialEq for Id {
    fn eq(&self, other: &Id) -> (r: bool) {
        bytes_eq(&self.bytes, &other.bytes)
    }
}

impl PartialEqSpecImpl for Id {
    open spec fn obeys_eq_spec() -> bool {
        true
    }

    open spec fn eq_spec(&self, other: &Id) -> bool {
        self@ == other@
    }
}

impl Id {
    /// The identity made of the given bytes.
    pub fn new(bytes: [u8; 32]) -> (r: Id)
        ensures
            r@ == bytes@,
            r.bytes == bytes,
    {
        Id { bytes }
    }

    /// The bytes of the identity.
    pub fn to_bytes(&self) -> (r: [u8; 32])
        ensures
            r@ == self@,
            r == self.bytes,
    {
        self.bytes
    }
}

} // verus!
