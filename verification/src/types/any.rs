//! The arbitrary serialized blob: an opaque container whose contents only the
//! embedding host interprets.

use vstd::prelude::*;

verus! {

/// An arbitrary serialized blob. The engine carries it opaquely; the host
/// serializes into and out of it at the embedding boundary.
#[derive(Debug, Clone, Hash)]
pub struct Any {
    pub data: Vec<u8>,
}

impl View for Any {
    type V = Seq<u8>;

    open spec fn view(&self) -> Seq<u8> {
        self.data@
    }
}

impl PartialEq for Any {
    fn eq(&self, other: &Any) -> (r: bool) {
        crate::types::bytes::bytes_eq(&self.data, &other.data)
    }
}

impl Eq for Any {

}

impl vstd::std_specs::cmp::PartialEqSpecImpl for Any {
    open spec fn obeys_eq_spec() -> bool {
        true
    }

    open spec fn eq_spec(&self, other: &Any) -> bool {
        self.data@ == other.data@
    }
}

} // verus!
