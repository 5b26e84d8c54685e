//! The 128-bit opaque identifier: two 64-bit halves with a big-endian binary
//! form.

use vstd::prelude::*;

verus! {

/// A 128-bit identifier made of two 64-bit halves.
#[derive(Copy, Clone, Debug, PartialEq, Eq, Structural, PartialOrd, Ord, Hash)]
pub struct Id {
    pub higher: u64,
    pub lower: u64,
}

/// The big-endian bytes of a 64-bit value, most significant first.
pub open spec fn spec_be_bytes_u64(v: u64) -> Seq<u8> {
    seq![
        ((v >> 56u64) & 0xff) as u8,
        ((v >> 48u64) & 0xff) as u8,
        ((v >> 40u64) & 0xff) as u8,
        ((v >> 32u64) & 0xff) as u8,
        ((v >> 24u64) & 0xff) as u8,
        ((v >> 16u64) & 0xff) as u8,
        ((v >> 8u64) & 0xff) as u8,
        (v & 0xff) as u8,
    ]
}

/// The 64-bit value eight big-endian bytes denote.
pub open spec fn spec_be_u64(s: Seq<u8>) -> u64 {
    (((s[0] as u64) << 56) | ((s[1] as u64) << 48) | ((s[2] as u64) << 40) | ((s[3] as u64) << 32)
        | ((s[4] as u64) << 24) | ((s[5] as u64) << 16) | ((s[6] as u64) << 8) | (s[7] as u64))
}

/// Write the big-endian bytes of a 64-bit value.
pub fn be_bytes_u64(v: u64) -> (r: Vec<u8>)
    ensures
        r@ == spec_be_bytes_u64(v),
{
    let mut out: Vec<u8> = Vec::new();
    out.push(((v >> 56u64) & 0xff) as u8);
    out.push(((v >> 48u64) & 0xff) as u8);
    out.push(((v >> 40u64) & 0xff) as u8);
    out.push(((v >> 32u64) & 0xff) as u8);
    out.push(((v >> 24u64) & 0xff) as u8);
    out.push(((v >> 16u64) & 0xff) as u8);
    out.push(((v >> 8u64) & 0xff) as u8);
    out.push((v & 0xff) as u8);
    proof {
        assert(out@ =~= spec_be_bytes_u64(v));
    }
    out
}

/// Read a 64-bit value from eight big-endian bytes.
pub fn be_u64_from(data: &[u8], offset: usize) -> (r: u64)
    requires
        offset + 8 <= data@.len(),
    ensures
        r == spec_be_u64(data@.subrange(offset as int, offset + 8)),
{
    let b0 = data[offset] as u64;
    let b1 = data[offset + 1] as u64;
    let b2 = data[offset + 2] as u64;
    let b3 = data[offset + 3] as u64;
    let b4 = data[offset + 4] as u64;
    let b5 = data[offset + 5] as u64;
    let b6 = data[offset + 6] as u64;
    let b7 = data[offset + 7] as u64;
    let r = (b0 << 56) | (b1 << 48) | (b2 << 40) | (b3 << 32) | (b4 << 24) | (b5 << 16) | (b6
        << 8) | b7;
    proof {
        let s = data@.subrange(offset as int, offset + 8);
        assert(s[0] == data@[offset as int]);
        assert(s[1] == data@[offset + 1]);
        assert(s[2] == data@[offset + 2]);
        assert(s[3] == data@[offset + 3]);
        assert(s[4] == data@[offset + 4]);
        assert(s[5] == data@[offset + 5]);
        assert(s[6] == data@[offset + 6]);
        assert(s[7] == data@[offset + 7]);
    }
    r
}

/// The big-endian bytes of a value read back as that value.
pub proof fn lemma_be_round_trip(v: u64)
    ensures
        spec_be_u64(spec_be_bytes_u64(v)) == v,
{
    let s = spec_be_bytes_u64(v);
    let b0 = ((v >> 56u64) & 0xff) as u8;
    let b1 = ((v >> 48u64) & 0xff) as u8;
    let b2 = ((v >> 40u64) & 0xff) as u8;
    let b3 = ((v >> 32u64) & 0xff) as u8;
    let b4 = ((v >> 24u64) & 0xff) as u8;
    let b5 = ((v >> 16u64) & 0xff) as u8;
    let b6 = ((v >> 8u64) & 0xff) as u8;
    let b7 = (v & 0xff) as u8;
    assert(s[0] == b0 && s[1] == b1 && s[2] == b2 && s[3] == b3 && s[4] == b4 && s[5] == b5 && s[6]
        == b6 && s[7] == b7);
    let joined = ((b0 as u64) << 56) | ((b1 as u64) << 48) | ((b2 as u64) << 40) | ((b3 as u64)
        << 32) | ((b4 as u64) << 24) | ((b5 as u64) << 16) | ((b6 as u64) << 8) | (b7 as u64);
    assert(joined == v) by (bit_vector)
        requires
            b0 == ((v >> 56u64) & 0xff) as u8,
            b1 == ((v >> 48u64) & 0xff) as u8,
            b2 == ((v >> 40u64) & 0xff) as u8,
            b3 == ((v >> 32u64) & 0xff) as u8,
            b4 == ((v >> 24u64) & 0xff) as u8,
            b5 == ((v >> 16u64) & 0xff) as u8,
            b6 == ((v >> 8u64) & 0xff) as u8,
            b7 == (v & 0xff) as u8,
            joined == ((b0 as u64) << 56) | ((b1 as u64) << 48) | ((b2 as u64) << 40) | ((b3
                as u64) << 32) | ((b4 as u64) << 24) | ((b5 as u64) << 16) | ((b6 as u64) << 8) | (
            b7 as u64),
    ;
}

impl Id {
    /// Make an identifier from its two halves.
    pub fn new(higher: u64, lower: u64) -> (r: Id)
        ensures
            r.higher == higher && r.lower == lower,
    {
        Id { higher, lower }
    }

    /// The partial dominance test the original interface exposes: the high
    /// half weakly dominates and the low half strictly. This is not a total
    /// order; ordered containers use the derived lexicographic comparison.
    pub fn is_greater_than(&self, other: &Id) -> (r: bool)
        ensures
            r == (self.higher >= other.higher && self.lower > other.lower),
    {
        self.higher >= other.higher && self.lower > other.lower
    }

    /// The zero identifier.
    pub fn unit_id() -> (r: Id)
        ensures
            r.higher == 0 && r.lower == 0,
    {
        Id { higher: 0, lower: 0 }
    }

    /// The all-ones identifier.
    pub fn max_id() -> (r: Id)
        ensures
            r.higher == u64::MAX && r.lower == u64::MAX,
    {
        Id { higher: u64::MAX, lower: u64::MAX }
    }

    /// Whether this is the zero identifier.
    pub fn is_unit_id(&self) -> (r: bool)
        ensures
            r == (self.higher == 0 && self.lower == 0),
    {
        self.higher == 0 && self.lower == 0
    }

    /// The 16-byte big-endian binary form: the high half then the low half.
    pub fn to_binary(&self) -> (r: Vec<u8>)
        ensures
            r@ == spec_id_binary(*self),
    {
        let mut out = be_bytes_u64(self.higher);
        let mut low = be_bytes_u64(self.lower);
        out.append(&mut low);
        proof {
            assert(out@ =~= spec_id_binary(*self));
        }
        out
    }

    /// Read an identifier back from its 16-byte binary form; fewer than 16
    /// bytes is a malformed input.
    pub fn from_binary(data: &[u8]) -> (r: Option<Id>)
        ensures
            data@.len() >= 16 ==> (r matches Some(id) && id.higher == spec_be_u64(
                data@.subrange(0, 8),
            ) && id.lower == spec_be_u64(data@.subrange(8, 16))),
            data@.len() < 16 ==> r is None,
    {
        if data.len() < 16 {
            return None;
        }
        let higher = be_u64_from(data, 0);
        let lower = be_u64_from(data, 8);
        Some(Id { higher, lower })
    }
}

impl Default for Id {
    /// The zero identifier.
    fn default() -> (r: Id)
        ensures
            r.higher == 0 && r.lower == 0,
    {
        Id::unit_id()
    }
}

/// The 16-byte big-endian binary form of an identifier.
pub open spec fn spec_id_binary(id: Id) -> Seq<u8> {
    spec_be_bytes_u64(id.higher) + spec_be_bytes_u64(id.lower)
}

/// Binary round trip: an identifier read back from its binary form is itself.
pub proof fn lemma_id_binary_round_trip(id: Id)
    ensures
        spec_id_binary(id).len() == 16,
        spec_be_u64(spec_id_binary(id).subrange(0, 8)) == id.higher,
        spec_be_u64(spec_id_binary(id).subrange(8, 16)) == id.lower,
{
    assert(spec_id_binary(id).subrange(0, 8) =~= spec_be_bytes_u64(id.higher));
    assert(spec_id_binary(id).subrange(8, 16) =~= spec_be_bytes_u64(id.lower));
    lemma_be_round_trip(id.higher);
    lemma_be_round_trip(id.lower);
}

} // verus!
