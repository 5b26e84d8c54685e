//! Opaque byte blobs: `Bytes` carries a 32-bit length prefix in its encoded
//! form, `SmallBytes` an 8-bit one.

use vstd::prelude::*;

verus! {

/// An opaque byte blob whose encoded form carries a 32-bit length prefix.
#[derive(Debug, Clone, Hash)]
pub struct Bytes {
    pub data: Vec<u8>,
}

/// A short opaque byte blob whose encoded form carries an 8-bit length
/// prefix.
#[derive(Debug, Clone, Hash)]
pub struct SmallBytes {
    pub data: Vec<u8>,
}

impl Bytes {
    /// Wrap a byte vector.
    pub fn from_vec(vec: Vec<u8>) -> (r: Bytes)
        ensures
            r.data@ == vec@,
    {
        Bytes { data: vec }
    }
}

impl SmallBytes {
    /// Wrap a byte vector.
    pub fn from_vec(vec: Vec<u8>) -> (r: SmallBytes)
        ensures
            r.data@ == vec@,
    {
        SmallBytes { data: vec }
    }
}

impl PartialEq for Bytes {
    fn eq(&self, other: &Bytes) -> (r: bool) {
        crate::types::bytes::bytes_eq(&self.data, &other.data)
    }
}

impl Eq for Bytes {

}

impl vstd::std_specs::cmp::PartialEqSpecImpl for Bytes {
    open spec fn obeys_eq_spec() -> bool {
        true
    }

    open spec fn eq_spec(&self, other: &Bytes) -> bool {
        self.data@ == other.data@
    }
}

impl PartialEq for SmallBytes {
    fn eq(&self, other: &SmallBytes) -> (r: bool) {
        crate::types::bytes::bytes_eq(&self.data, &other.data)
    }
}

impl Eq for SmallBytes {

}

impl vstd::std_specs::cmp::PartialEqSpecImpl for SmallBytes {
    open spec fn obeys_eq_spec() -> bool {
        true
    }

    open spec fn eq_spec(&self, other: &SmallBytes) -> bool {
        self.data@ == other.data@
    }
}

impl View for Bytes {
    type V = Seq<u8>;

    open spec fn view(&self) -> Seq<u8> {
        self.data@
    }
}

impl View for SmallBytes {
    type V = Seq<u8>;

    open spec fn view(&self) -> Seq<u8> {
        self.data@
    }
}

/// Compare two byte vectors by contents.
pub fn bytes_eq(a: &Vec<u8>, b: &Vec<u8>) -> (r: bool)
    ensures
        r == (a@ == b@),
{
    if a.len() != b.len() {
        return false;
    }
    let mut i: usize = 0;
    while i < a.len()
        invariant
            a@.len() == b@.len(),
            i <= a@.len(),
            forall|j: int| 0 <= j < i ==> a@[j] == b@[j],
        decreases a@.len() - i,
    {
        if a[i] != b[i] {
            return false;
        }
        i = i + 1;
    }
    proof {
        assert(a@ =~= b@);
    }
    true
}

} // verus!
