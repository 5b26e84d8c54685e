//! The codec table: for each registered type, encode to bytes, decode from
//! bytes, the encoded size, and the two 8-byte digests — the
//! order-preserving feature key and the content hash. Values are encoded
//! into byte buffers at offsets the caller addresses; scalars store
//! little-endian, length prefixes included for the variable-size types.

use vstd::prelude::*;
use crate::hashing::{xxh64_of, xxh64_bytes};
use crate::types::data_type::{Type, spec_fixed_size, spec_size_of, size_of_type, fixed_size};
use crate::types::model::{ValModel, PrimArrayModel};
use crate::types::owned::{OwnedValue, OwnedPrimArray};
use crate::types::shared::SharedValue;
use crate::types::pos::{Pos2d32, Pos2d64, Pos3d32, Pos3d64};
use crate::types::id::Id;
use crate::types::bytes::{Bytes, SmallBytes};

verus! {

/// The little-endian bytes of a 16-bit value.
pub open spec fn le16(v: u16) -> Seq<u8> {
    seq![(v & 0xff) as u8, ((v >> 8u16) & 0xff) as u8]
}

/// The little-endian bytes of a 32-bit value.
pub open spec fn le32(v: u32) -> Seq<u8> {
    seq![
        (v & 0xff) as u8,
        ((v >> 8u32) & 0xff) as u8,
        ((v >> 16u32) & 0xff) as u8,
        ((v >> 24u32) & 0xff) as u8,
    ]
}

/// The little-endian bytes of a 64-bit value.
pub open spec fn le64(v: u64) -> Seq<u8> {
    seq![
        (v & 0xff) as u8,
        ((v >> 8u64) & 0xff) as u8,
        ((v >> 16u64) & 0xff) as u8,
        ((v >> 24u64) & 0xff) as u8,
        ((v >> 32u64) & 0xff) as u8,
        ((v >> 40u64) & 0xff) as u8,
        ((v >> 48u64) & 0xff) as u8,
        ((v >> 56u64) & 0xff) as u8,
    ]
}

/// The 16-bit value two little-endian bytes denote.
pub open spec fn le16_val(s: Seq<u8>) -> u16 {
    ((s[0] as u16) | ((s[1] as u16) << 8u16))
}

/// The 32-bit value four little-endian bytes denote.
pub open spec fn le32_val(s: Seq<u8>) -> u32 {
    ((s[0] as u32) | ((s[1] as u32) << 8u32) | ((s[2] as u32) << 16u32) | ((s[3] as u32)
        << 24u32))
}

/// The 64-bit value eight little-endian bytes denote.
pub open spec fn le64_val(s: Seq<u8>) -> u64 {
    ((s[0] as u64) | ((s[1] as u64) << 8u64) | ((s[2] as u64) << 16u64) | ((s[3] as u64)
        << 24u64) | ((s[4] as u64) << 32u64) | ((s[5] as u64) << 40u64) | ((s[6] as u64)
        << 48u64) | ((s[7] as u64) << 56u64))
}

/// Little-endian byte round trips.
pub proof fn lemma_le_round_trip(a: u16, b: u32, c: u64)
    ensures
        le16_val(le16(a)) == a,
        le32_val(le32(b)) == b,
        le64_val(le64(c)) == c,
{
    assert((((a & 0xff) as u8 as u16) | ((((a >> 8u16) & 0xff) as u8 as u16) << 8u16)) == a)
        by (bit_vector);
    assert((((b & 0xff) as u8 as u32) | ((((b >> 8u32) & 0xff) as u8 as u32) << 8u32) | ((((b
        >> 16u32) & 0xff) as u8 as u32) << 16u32) | ((((b >> 24u32) & 0xff) as u8 as u32)
        << 24u32)) == b) by (bit_vector);
    assert((((c & 0xff) as u8 as u64) | ((((c >> 8u64) & 0xff) as u8 as u64) << 8u64) | ((((c
        >> 16u64) & 0xff) as u8 as u64) << 16u64) | ((((c >> 24u64) & 0xff) as u8 as u64)
        << 24u64) | ((((c >> 32u64) & 0xff) as u8 as u64) << 32u64) | ((((c >> 40u64) & 0xff)
        as u8 as u64) << 40u64) | ((((c >> 48u64) & 0xff) as u8 as u64) << 48u64) | ((((c
        >> 56u64) & 0xff) as u8 as u64) << 56u64)) == c) by (bit_vector);
}

/// Whether a value model is a scalar of the given type: the shapes the
/// codec encodes directly.
pub open spec fn matches_type(t: Type, m: ValModel) -> bool {
    match m {
        ValModel::Bool(_) => t == Type::Bool,
        ValModel::Char(_) => t == Type::Char,
        ValModel::I8(_) => t == Type::I8,
        ValModel::I16(_) => t == Type::I16,
        ValModel::I32(_) => t == Type::I32,
        ValModel::I64(_) => t == Type::I64,
        ValModel::U8(_) => t == Type::U8,
        ValModel::U16(_) => t == Type::U16,
        ValModel::U32(_) => t == Type::U32,
        ValModel::U64(_) => t == Type::U64,
        ValModel::F32(_) => t == Type::F32,
        ValModel::F64(_) => t == Type::F64,
        ValModel::Pos2d32(_) => t == Type::Pos2d32,
        ValModel::Pos2d64(_) => t == Type::Pos2d64,
        ValModel::Pos3d32(_) => t == Type::Pos3d32,
        ValModel::Pos3d64(_) => t == Type::Pos3d64,
        ValModel::Id(_) => t == Type::Id,
        ValModel::String(s) => t == Type::String && vstd::utf8::encode_utf8(s).len() <= u32::MAX,
        ValModel::Bytes(b) => t == Type::Bytes && b.len() <= u32::MAX,
        ValModel::SmallBytes(b) => t == Type::SmallBytes && b.len() <= u8::MAX,
        _ => false,
    }
}

/// The encoded bytes of a scalar value of its type.
pub open spec fn spec_encode(m: ValModel) -> Seq<u8> {
    match m {
        ValModel::Bool(b) => seq![
            if b {
                1u8
            } else {
                0u8
            },
        ],
        ValModel::Char(c) => le32(c as u32),
        ValModel::I8(v) => seq![v as u8],
        ValModel::I16(v) => le16(v as u16),
        ValModel::I32(v) => le32(v as u32),
        ValModel::I64(v) => le64(v as u64),
        ValModel::U8(v) => seq![v],
        ValModel::U16(v) => le16(v),
        ValModel::U32(v) => le32(v),
        ValModel::U64(v) => le64(v),
        ValModel::F32(bits) => le32(bits),
        ValModel::F64(bits) => le64(bits),
        ValModel::Pos2d32(p) => le32(p.x) + le32(p.y),
        ValModel::Pos2d64(p) => le64(p.x) + le64(p.y),
        ValModel::Pos3d32(p) => le32(p.x) + le32(p.y) + le32(p.z),
        ValModel::Pos3d64(p) => le64(p.x) + le64(p.y) + le64(p.z),
        ValModel::Id(id) => le64(id.higher) + le64(id.lower),
        ValModel::String(s) => le32(vstd::utf8::encode_utf8(s).len() as u32)
            + vstd::utf8::encode_utf8(s),
        ValModel::Bytes(b) => le32(b.len() as u32) + b,
        ValModel::SmallBytes(b) => seq![b.len() as u8] + b,
        _ => Seq::empty(),
    }
}

/// The encoded size of a scalar value of its type.
pub open spec fn spec_val_size(m: ValModel) -> nat {
    spec_encode(m).len()
}

/// The order-preserving 8-byte feature key of a scalar value: big-endian
/// for the unsigned integers, the raw two's-complement bytes for the
/// signed ones, the first bytes for strings and blobs, degenerate zeros
/// for positions, and the folded halves for an identifier. Values are
/// left-aligned and zero-padded.
pub open spec fn spec_feature(m: ValModel) -> Seq<u8> {
    match m {
        ValModel::Bool(b) => pad8(be32(if b {
            1u32
        } else {
            0u32
        })),
        ValModel::Char(c) => pad8(be32(c as u32)),
        ValModel::I8(v) => pad8(be32(v as i32 as u32)),
        ValModel::I16(v) => pad8(be16(v as u16)),
        ValModel::I32(v) => pad8(be32(v as u32)),
        ValModel::I64(v) => be64(v as u64),
        ValModel::U8(v) => pad8(be32(v as u32)),
        ValModel::U16(v) => pad8(be16(v)),
        ValModel::U32(v) => pad8(be32(v)),
        ValModel::U64(v) => be64(v),
        ValModel::F32(bits) => pad8(be32(bits)),
        ValModel::F64(bits) => be64(bits),
        ValModel::Pos2d32(_) => zeros8(),
        ValModel::Pos2d64(_) => zeros8(),
        ValModel::Pos3d32(_) => zeros8(),
        ValModel::Pos3d64(_) => zeros8(),
        ValModel::Id(id) => be64(id.higher ^ id.lower),
        ValModel::String(s) => first8(vstd::utf8::encode_utf8(s)),
        ValModel::Bytes(b) => first8(b),
        ValModel::SmallBytes(b) => first8(b),
        _ => zeros8(),
    }
}

/// The 8-byte content hash of a scalar value: the feature key for the
/// fixed-size primitives, the xxHash64 digest of the content bytes for
/// strings, blobs, positions and identifiers.
pub open spec fn spec_hash(m: ValModel) -> Seq<u8> {
    match m {
        ValModel::Pos2d32(p) => be64(xxh64_of(pad8(be32(p.x)) + pad8(be32(p.y)))),
        ValModel::Pos2d64(p) => be64(xxh64_of(be64(p.x) + be64(p.y))),
        ValModel::Pos3d32(p) => be64(xxh64_of(pad8(be32(p.x)) + pad8(be32(p.y)) + pad8(
            be32(p.z),
        ))),
        ValModel::Pos3d64(p) => be64(xxh64_of(be64(p.x) + be64(p.y) + be64(p.z))),
        ValModel::Id(id) => be64(xxh64_of(be64(id.higher) + be64(id.lower))),
        ValModel::String(s) => be64(xxh64_of(vstd::utf8::encode_utf8(s))),
        ValModel::Bytes(b) => be64(xxh64_of(b)),
        ValModel::SmallBytes(b) => be64(xxh64_of(b)),
        _ => spec_feature(m),
    }
}

/// Eight zero bytes.
pub open spec fn zeros8() -> Seq<u8> {
    seq![0u8, 0u8, 0u8, 0u8, 0u8, 0u8, 0u8, 0u8]
}

/// The first eight bytes, zero-padded on the right.
pub open spec fn first8(b: Seq<u8>) -> Seq<u8> {
    Seq::new(8, |i: int| if i < b.len() {
        b[i]
    } else {
        0u8
    })
}

/// Big-endian bytes of a 16-bit value, padded to nothing here; the feature
/// layout pads separately.
pub open spec fn be16(v: u16) -> Seq<u8> {
    seq![((v >> 8u16) & 0xff) as u8, (v & 0xff) as u8]
}

/// Big-endian bytes of a 32-bit value.
pub open spec fn be32(v: u32) -> Seq<u8> {
    seq![
        ((v >> 24u32) & 0xff) as u8,
        ((v >> 16u32) & 0xff) as u8,
        ((v >> 8u32) & 0xff) as u8,
        (v & 0xff) as u8,
    ]
}

/// Big-endian bytes of a 64-bit value.
pub open spec fn be64(v: u64) -> Seq<u8> {
    crate::types::id::spec_be_bytes_u64(v)
}

/// A short byte string zero-padded to eight bytes.
pub open spec fn pad8(b: Seq<u8>) -> Seq<u8> {
    first8(b)
}

/// Append the little-endian bytes of a 16-bit value.
fn push_le16(buf: &mut Vec<u8>, v: u16)
    ensures
        final(buf)@ == old(buf)@ + le16(v),
{
    buf.push((v & 0xff) as u8);
    buf.push(((v >> 8u16) & 0xff) as u8);
    proof {
        assert(final(buf)@ =~= old(buf)@ + le16(v));
    }
}

/// Append the little-endian bytes of a 32-bit value.
fn push_le32(buf: &mut Vec<u8>, v: u32)
    ensures
        final(buf)@ == old(buf)@ + le32(v),
{
    buf.push((v & 0xff) as u8);
    buf.push(((v >> 8u32) & 0xff) as u8);
    buf.push(((v >> 16u32) & 0xff) as u8);
    buf.push(((v >> 24u32) & 0xff) as u8);
    proof {
        assert(final(buf)@ =~= old(buf)@ + le32(v));
    }
}

/// Append the little-endian bytes of a 64-bit value.
fn push_le64(buf: &mut Vec<u8>, v: u64)
    ensures
        final(buf)@ == old(buf)@ + le64(v),
{
    buf.push((v & 0xff) as u8);
    buf.push(((v >> 8u64) & 0xff) as u8);
    buf.push(((v >> 16u64) & 0xff) as u8);
    buf.push(((v >> 24u64) & 0xff) as u8);
    buf.push(((v >> 32u64) & 0xff) as u8);
    buf.push(((v >> 40u64) & 0xff) as u8);
    buf.push(((v >> 48u64) & 0xff) as u8);
    buf.push(((v >> 56u64) & 0xff) as u8);
    proof {
        assert(final(buf)@ =~= old(buf)@ + le64(v));
    }
}

/// Append a string's UTF-8 bytes.
fn push_str_bytes(buf: &mut Vec<u8>, s: &str)
    ensures
        final(buf)@ == old(buf)@ + vstd::utf8::encode_utf8(s@),
{
    let bs = s.as_bytes();
    let mut i: usize = 0;
    while i < bs.len()
        invariant
            bs@ == vstd::utf8::encode_utf8(s@),
            i <= bs@.len(),
            buf@ =~= old(buf)@ + bs@.subrange(0, i as int),
        decreases bs@.len() - i,
    {
        buf.push(bs[i]);
        proof {
            assert(buf@ =~= old(buf)@ + bs@.subrange(0, i + 1));
        }
        i = i + 1;
    }
    proof {
        assert(bs@.subrange(0, bs@.len() as int) =~= bs@);
    }
}

/// Append a byte vector's bytes.
fn push_bytes(buf: &mut Vec<u8>, bs: &Vec<u8>)
    ensures
        final(buf)@ == old(buf)@ + bs@,
{
    let mut i: usize = 0;
    while i < bs.len()
        invariant
            i <= bs@.len(),
            buf@ =~= old(buf)@ + bs@.subrange(0, i as int),
        decreases bs@.len() - i,
    {
        buf.push(bs[i]);
        proof {
            assert(buf@ =~= old(buf)@ + bs@.subrange(0, i + 1));
        }
        i = i + 1;
    }
    proof {
        assert(bs@.subrange(0, bs@.len() as int) =~= bs@);
    }
}

/// Encode a scalar value of its type onto the end of a buffer. Asking the
/// codec to encode a value whose variant does not match the type is a
/// programming error and is ruled out by contract, never silently
/// truncated.
#[verifier::loop_isolation(false)]
pub fn set_val(t: Type, val: &OwnedValue, buf: &mut Vec<u8>)
    requires
        matches_type(t, val@),
    ensures
        final(buf)@ == old(buf)@ + spec_encode(val@),
{
    match val {
        OwnedValue::Bool(b) => {
            buf.push(if *b {
                1
            } else {
                0
            });
            proof {
                assert(buf@ =~= old(buf)@ + spec_encode(val@));
            }
        },
        OwnedValue::Char(c) => {
            push_le32(buf, *c as u32);
        },
        OwnedValue::I8(v) => {
            buf.push(#[verifier::truncate] (*v as u8));
            proof {
                assert(buf@ =~= old(buf)@ + spec_encode(val@));
            }
        },
        OwnedValue::I16(v) => {
            push_le16(buf, #[verifier::truncate] (*v as u16));
        },
        OwnedValue::I32(v) => {
            push_le32(buf, #[verifier::truncate] (*v as u32));
        },
        OwnedValue::I64(v) => {
            push_le64(buf, #[verifier::truncate] (*v as u64));
        },
        OwnedValue::U8(v) => {
            buf.push(*v);
            proof {
                assert(buf@ =~= old(buf)@ + spec_encode(val@));
            }
        },
        OwnedValue::U16(v) => {
            push_le16(buf, *v);
        },
        OwnedValue::U32(v) => {
            push_le32(buf, *v);
        },
        OwnedValue::U64(v) => {
            push_le64(buf, *v);
        },
        OwnedValue::F32(bits) => {
            push_le32(buf, *bits);
        },
        OwnedValue::F64(bits) => {
            push_le64(buf, *bits);
        },
        OwnedValue::Pos2d32(p) => {
            push_le32(buf, p.x);
            push_le32(buf, p.y);
            proof {
                assert(buf@ =~= old(buf)@ + spec_encode(val@));
            }
        },
        OwnedValue::Pos2d64(p) => {
            push_le64(buf, p.x);
            push_le64(buf, p.y);
            proof {
                assert(buf@ =~= old(buf)@ + spec_encode(val@));
            }
        },
        OwnedValue::Pos3d32(p) => {
            push_le32(buf, p.x);
            push_le32(buf, p.y);
            push_le32(buf, p.z);
            proof {
                assert(buf@ =~= old(buf)@ + spec_encode(val@));
            }
        },
        OwnedValue::Pos3d64(p) => {
            push_le64(buf, p.x);
            push_le64(buf, p.y);
            push_le64(buf, p.z);
            proof {
                assert(buf@ =~= old(buf)@ + spec_encode(val@));
            }
        },
        OwnedValue::Id(id) => {
            push_le64(buf, id.higher);
            push_le64(buf, id.lower);
            proof {
                assert(buf@ =~= old(buf)@ + spec_encode(val@));
            }
        },
        OwnedValue::String(s) => {
            let bs = s.as_str().as_bytes();
            push_le32(buf, bs.len() as u32);
            push_str_bytes(buf, s.as_str());
            proof {
                assert(buf@ =~= old(buf)@ + spec_encode(val@));
            }
        },
        OwnedValue::Bytes(b) => {
            push_le32(buf, b.data.len() as u32);
            push_bytes(buf, &b.data);
            proof {
                assert(buf@ =~= old(buf)@ + spec_encode(val@));
            }
        },
        OwnedValue::SmallBytes(b) => {
            buf.push(b.data.len() as u8);
            push_bytes(buf, &b.data);
            proof {
                assert(buf@ =~= old(buf)@ + spec_encode(val@));
            }
        },
        _ => {
            proof {
                assert(false);
            }
        },
    }
}

/// Read one little-endian 16-bit value.
fn read_le16(data: &[u8], at: usize) -> (r: u16)
    requires
        at + 2 <= data@.len(),
    ensures
        r == le16_val(data@.subrange(at as int, at + 2)),
{
    let b0 = data[at] as u16;
    let b1 = data[at + 1] as u16;
    let r = b0 | (b1 << 8u16);
    proof {
        let s = data@.subrange(at as int, at + 2);
        assert(s[0] == data@[at as int] && s[1] == data@[at + 1]);
    }
    r
}

/// Read one little-endian 32-bit value.
fn read_le32(data: &[u8], at: usize) -> (r: u32)
    requires
        at + 4 <= data@.len(),
    ensures
        r == le32_val(data@.subrange(at as int, at + 4)),
{
    let b0 = data[at] as u32;
    let b1 = data[at + 1] as u32;
    let b2 = data[at + 2] as u32;
    let b3 = data[at + 3] as u32;
    let r = b0 | (b1 << 8u32) | (b2 << 16u32) | (b3 << 24u32);
    proof {
        let s = data@.subrange(at as int, at + 4);
        assert(s[0] == data@[at as int] && s[1] == data@[at + 1] && s[2] == data@[at + 2] && s[3]
            == data@[at + 3]);
    }
    r
}

/// Read one little-endian 64-bit value.
fn read_le64(data: &[u8], at: usize) -> (r: u64)
    requires
        at + 8 <= data@.len(),
    ensures
        r == le64_val(data@.subrange(at as int, at + 8)),
{
    let b0 = data[at] as u64;
    let b1 = data[at + 1] as u64;
    let b2 = data[at + 2] as u64;
    let b3 = data[at + 3] as u64;
    let b4 = data[at + 4] as u64;
    let b5 = data[at + 5] as u64;
    let b6 = data[at + 6] as u64;
    let b7 = data[at + 7] as u64;
    let r = b0 | (b1 << 8u64) | (b2 << 16u64) | (b3 << 24u64) | (b4 << 32u64) | (b5 << 40u64) | (
    b6 << 48u64) | (b7 << 56u64);
    proof {
        let s = data@.subrange(at as int, at + 8);
        assert(s[0] == data@[at as int] && s[1] == data@[at + 1] && s[2] == data@[at + 2] && s[3]
            == data@[at + 3] && s[4] == data@[at + 4] && s[5] == data@[at + 5] && s[6] == data@[at
            + 6] && s[7] == data@[at + 7]);
    }
    r
}

/// Relies on String::from_utf8 of std: bytes that are a valid UTF-8
/// encoding decode to the string of the characters they encode, and
/// invalid bytes are rejected.
#[verifier::external_body]
fn string_from_utf8(bytes: Vec<u8>) -> (r: Option<String>)
    ensures
        r is Some <==> vstd::utf8::valid_utf8(bytes@),
        r matches Some(s) ==> s@ == vstd::utf8::decode_utf8(bytes@),
{
    match String::from_utf8(bytes) {
        Ok(s) => Some(s),
        Err(_) => None,
    }
}

/// The size the encoding at an offset occupies: statically for a
/// fixed-size type, from the length prefix for a variable one. Nothing
/// when the prefix runs past the end.
pub open spec fn spec_size_at(t: Type, data: Seq<u8>, at: int) -> Option<int> {
    if spec_fixed_size(t) {
        Some(spec_size_of(t) as int)
    } else if t == Type::String || t == Type::Bytes {
        if at + 4 <= data.len() {
            Some(4 + le32_val(data.subrange(at, at + 4)) as int)
        } else {
            None
        }
    } else if t == Type::SmallBytes {
        if at + 1 <= data.len() {
            Some(1 + data[at] as int)
        } else {
            None
        }
    } else {
        None
    }
}

/// The size the encoding of a type at an offset occupies.
pub fn get_size(t: Type, data: &[u8], at: usize) -> (r: Option<usize>)
    ensures
        spec_size_at(t, data@, at as int) matches Some(sz) ==> (sz > usize::MAX || r == Some(
            sz as usize,
        )),
        spec_size_at(t, data@, at as int) is None ==> r is None,
{
    let n = data.len();
    if fixed_size(t) {
        Some(size_of_type(t))
    } else {
        match t {
            Type::String | Type::Bytes => {
                if at < n && n - at >= 4 {
                    let len = read_le32(data, at);
                    match (len as usize).checked_add(4) {
                        Some(sz) => Some(sz),
                        None => None,
                    }
                } else {
                    None
                }
            },
            Type::SmallBytes => {
                if at < n {
                    Some(1 + data[at] as usize)
                } else {
                    None
                }
            },
            _ => None,
        }
    }
}

/// The encoded size a scalar value will occupy.
pub fn get_vsize(t: Type, val: &OwnedValue) -> (r: usize)
    requires
        matches_type(t, val@),
        spec_val_size(val@) <= usize::MAX,
    ensures
        r == spec_val_size(val@),
{
    match val {
        OwnedValue::Bool(_) => 1,
        OwnedValue::Char(_) => 4,
        OwnedValue::I8(_) => 1,
        OwnedValue::I16(_) => 2,
        OwnedValue::I32(_) => 4,
        OwnedValue::I64(_) => 8,
        OwnedValue::U8(_) => 1,
        OwnedValue::U16(_) => 2,
        OwnedValue::U32(_) => 4,
        OwnedValue::U64(_) => 8,
        OwnedValue::F32(_) => 4,
        OwnedValue::F64(_) => 8,
        OwnedValue::Pos2d32(_) => 8,
        OwnedValue::Pos2d64(_) => 16,
        OwnedValue::Pos3d32(_) => 12,
        OwnedValue::Pos3d64(_) => 24,
        OwnedValue::Id(_) => 16,
        OwnedValue::String(s) => 4 + s.as_str().as_bytes().len(),
        OwnedValue::Bytes(b) => 4 + b.data.len(),
        OwnedValue::SmallBytes(b) => 1 + b.data.len(),
        _ => {
            proof {
                assert(false);
            }
            0
        },
    }
}

/// Decode the scalar value of a type at an offset; nothing when the bytes
/// run out or name no value of the type. The decoded value's model is
/// exactly what the bytes there encode.
#[verifier::loop_isolation(false)]
pub fn get_owned_val(t: Type, data: &[u8], at: usize) -> (r: Option<OwnedValue>)
    ensures
        r matches Some(v) ==> (matches_type(t, v@) && at + spec_val_size(v@) <= data@.len()
            && data@.subrange(at as int, at + spec_val_size(v@)) == spec_encode(v@)),
{
    let n = data.len();
    if at >= n {
        return None;
    }
    match t {
        Type::Bool => {
            let b = data[at];
            if b == 1 {
                proof {
                    assert(data@.subrange(at as int, at + 1) =~= spec_encode(
                        ValModel::Bool(true),
                    ));
                }
                Some(OwnedValue::Bool(true))
            } else if b == 0 {
                proof {
                    assert(data@.subrange(at as int, at + 1) =~= spec_encode(
                        ValModel::Bool(false),
                    ));
                }
                Some(OwnedValue::Bool(false))
            } else {
                None
            }
        },
        Type::U8 => {
            let v = data[at];
            proof {
                assert(data@.subrange(at as int, at + 1) =~= spec_encode(ValModel::U8(v)));
            }
            Some(OwnedValue::U8(v))
        },
        Type::I8 => {
            let v = #[verifier::truncate] (data[at] as i8);
            proof {
                assert(data@.subrange(at as int, at + 1) =~= spec_encode(ValModel::I8(v)))
                    by {
                    let b = data@[at as int];
                    assert((b as i8) as u8 == b) by (bit_vector);
                }
            }
            Some(OwnedValue::I8(v))
        },
        Type::U16 => {
            if n - at >= 2 {
                let v = read_le16(data, at);
                proof {
                    lemma_le_round_trip(v, 0, 0);
                    lemma_le_bytes_eq16(data@, at as int, v);
                }
                Some(OwnedValue::U16(v))
            } else {
                None
            }
        },
        Type::I16 => {
            if n - at >= 2 {
                let v = read_le16(data, at);
                let sv = #[verifier::truncate] (v as i16);
                proof {
                    assert((sv as u16) == v) by (bit_vector)
                        requires
                            sv == (v as i16),
                    ;
                    lemma_le_bytes_eq16(data@, at as int, v);
                }
                Some(OwnedValue::I16(sv))
            } else {
                None
            }
        },
        Type::U32 => {
            if n - at >= 4 {
                let v = read_le32(data, at);
                proof {
                    lemma_le_bytes_eq32(data@, at as int, v);
                }
                Some(OwnedValue::U32(v))
            } else {
                None
            }
        },
        Type::I32 => {
            if n - at >= 4 {
                let v = read_le32(data, at);
                let sv = #[verifier::truncate] (v as i32);
                proof {
                    assert((sv as u32) == v) by (bit_vector)
                        requires
                            sv == (v as i32),
                    ;
                    lemma_le_bytes_eq32(data@, at as int, v);
                }
                Some(OwnedValue::I32(sv))
            } else {
                None
            }
        },
        Type::F32 => {
            if n - at >= 4 {
                let v = read_le32(data, at);
                proof {
                    lemma_le_bytes_eq32(data@, at as int, v);
                }
                Some(OwnedValue::F32(v))
            } else {
                None
            }
        },
        Type::U64 => {
            if n - at >= 8 {
                let v = read_le64(data, at);
                proof {
                    lemma_le_bytes_eq64(data@, at as int, v);
                }
                Some(OwnedValue::U64(v))
            } else {
                None
            }
        },
        Type::I64 => {
            if n - at >= 8 {
                let v = read_le64(data, at);
                let sv = #[verifier::truncate] (v as i64);
                proof {
                    assert((sv as u64) == v) by (bit_vector)
                        requires
                            sv == (v as i64),
                    ;
                    lemma_le_bytes_eq64(data@, at as int, v);
                }
                Some(OwnedValue::I64(sv))
            } else {
                None
            }
        },
        Type::F64 => {
            if n - at >= 8 {
                let v = read_le64(data, at);
                proof {
                    lemma_le_bytes_eq64(data@, at as int, v);
                }
                Some(OwnedValue::F64(v))
            } else {
                None
            }
        },
        Type::Char => {
            if n - at >= 4 {
                let v = read_le32(data, at);
                if v < 0xD800 || (0xE000 <= v && v <= 0x10FFFF) {
                    let c = crate::lexer::lisp::char_from_u32(v);
                    proof {
                        assert((c as u32) == v);
                        lemma_le_bytes_eq32(data@, at as int, v);
                    }
                    Some(OwnedValue::Char(c))
                } else {
                    None
                }
            } else {
                None
            }
        },
        Type::Id => {
            if n - at >= 16 {
                let higher = read_le64(data, at);
                let lower = read_le64(data, at + 8);
                proof {
                    lemma_le_bytes_eq64(data@, at as int, higher);
                    lemma_le_bytes_eq64(data@, at + 8, lower);
                    assert(data@.subrange(at as int, at + 16) =~= data@.subrange(
                        at as int,
                        at + 8,
                    ) + data@.subrange(at + 8, at + 16));
                }
                Some(OwnedValue::Id(Id { higher, lower }))
            } else {
                None
            }
        },
        Type::Pos2d32 => {
            if n - at >= 8 {
                let x = read_le32(data, at);
                let y = read_le32(data, at + 4);
                proof {
                    lemma_le_bytes_eq32(data@, at as int, x);
                    lemma_le_bytes_eq32(data@, at + 4, y);
                    assert(data@.subrange(at as int, at + 8) =~= data@.subrange(at as int, at + 4)
                        + data@.subrange(at + 4, at + 8));
                }
                Some(OwnedValue::Pos2d32(Pos2d32 { x, y }))
            } else {
                None
            }
        },
        Type::Pos2d64 => {
            if n - at >= 16 {
                let x = read_le64(data, at);
                let y = read_le64(data, at + 8);
                proof {
                    lemma_le_bytes_eq64(data@, at as int, x);
                    lemma_le_bytes_eq64(data@, at + 8, y);
                    assert(data@.subrange(at as int, at + 16) =~= data@.subrange(
                        at as int,
                        at + 8,
                    ) + data@.subrange(at + 8, at + 16));
                }
                Some(OwnedValue::Pos2d64(Pos2d64 { x, y }))
            } else {
                None
            }
        },
        Type::Pos3d32 => {
            if n - at >= 12 {
                let x = read_le32(data, at);
                let y = read_le32(data, at + 4);
                let z = read_le32(data, at + 8);
                proof {
                    lemma_le_bytes_eq32(data@, at as int, x);
                    lemma_le_bytes_eq32(data@, at + 4, y);
                    lemma_le_bytes_eq32(data@, at + 8, z);
                    assert(data@.subrange(at as int, at + 12) =~= data@.subrange(
                        at as int,
                        at + 4,
                    ) + data@.subrange(at + 4, at + 8) + data@.subrange(at + 8, at + 12));
                }
                Some(OwnedValue::Pos3d32(Pos3d32 { x, y, z }))
            } else {
                None
            }
        },
        Type::Pos3d64 => {
            if n - at >= 24 {
                let x = read_le64(data, at);
                let y = read_le64(data, at + 8);
                let z = read_le64(data, at + 16);
                proof {
                    lemma_le_bytes_eq64(data@, at as int, x);
                    lemma_le_bytes_eq64(data@, at + 8, y);
                    lemma_le_bytes_eq64(data@, at + 16, z);
                    assert(data@.subrange(at as int, at + 24) =~= data@.subrange(
                        at as int,
                        at + 8,
                    ) + data@.subrange(at + 8, at + 16) + data@.subrange(at + 16, at + 24));
                }
                Some(OwnedValue::Pos3d64(Pos3d64 { x, y, z }))
            } else {
                None
            }
        },
        Type::Bytes => {
            if n - at >= 4 {
                let len = read_le32(data, at);
                if (len as usize) <= n - at - 4 {
                    let payload = copy_range(data, at + 4, len as usize);
                    proof {
                        lemma_le_bytes_eq32(data@, at as int, len);
                        assert(data@.subrange(at as int, at + 4 + len as int) =~= data@.subrange(
                            at as int,
                            at + 4,
                        ) + data@.subrange(at + 4, at + 4 + len as int));
                    }
                    Some(OwnedValue::Bytes(Bytes { data: payload }))
                } else {
                    None
                }
            } else {
                None
            }
        },
        Type::SmallBytes => {
            let len = data[at];
            if (len as usize) <= n - at - 1 {
                let payload = copy_range(data, at + 1, len as usize);
                proof {
                    assert(data@.subrange(at as int, at + 1 + len as int) =~= seq![
                        data@[at as int],
                    ] + data@.subrange(at + 1, at + 1 + len as int));
                    assert(payload@.len() == len as int);
                }
                Some(OwnedValue::SmallBytes(SmallBytes { data: payload }))
            } else {
                None
            }
        },
        Type::String => {
            if n - at >= 4 {
                let len = read_le32(data, at);
                if (len as usize) <= n - at - 4 {
                    let payload = copy_range(data, at + 4, len as usize);
                    let ghost payload_bytes = payload@;
                    match string_from_utf8(payload) {
                        Some(s) => {
                            proof {
                                lemma_le_bytes_eq32(data@, at as int, len);
                                vstd::utf8::decode_utf8_encode_utf8(payload_bytes);
                                
                                assert(data@.subrange(at as int, at + 4 + len as int)
                                    =~= data@.subrange(at as int, at + 4) + data@.subrange(
                                    at + 4,
                                    at + 4 + len as int,
                                ));
                            }
                            Some(OwnedValue::String(s))
                        },
                        None => None,
                    }
                } else {
                    None
                }
            } else {
                None
            }
        },
        _ => None,
    }
}

/// Decode the scalar value of a type at an offset into its shared form.
pub fn get_shared_val(t: Type, data: &[u8], at: usize) -> (r: Option<SharedValue>)
    ensures
        r matches Some(v) ==> (matches_type(t, v@) && at + spec_val_size(v@) <= data@.len()
            && data@.subrange(at as int, at + spec_val_size(v@)) == spec_encode(v@)),
{
    match get_owned_val(t, data, at) {
        Some(v) => Some(v.shared()),
        None => None,
    }
}

/// Copy a byte range out of a slice.
fn copy_range(data: &[u8], at: usize, len: usize) -> (r: Vec<u8>)
    requires
        at + len <= data@.len(),
    ensures
        r@ == data@.subrange(at as int, at + len),
{
    let n = data.len();
    let mut out: Vec<u8> = Vec::new();
    let mut i: usize = 0;
    while i < len
        invariant
            n == data@.len(),
            at + len <= n,
            i <= len,
            out@ =~= data@.subrange(at as int, at + i),
        decreases len - i,
    {
        out.push(data[at + i]);
        proof {
            assert(out@ =~= data@.subrange(at as int, at + i + 1));
        }
        i = i + 1;
    }
    out
}

/// The bytes at an offset are the value's encoding.
proof fn lemma_le_bytes_eq16(data: Seq<u8>, at: int, v: u16)
    requires
        0 <= at,
        at + 2 <= data.len(),
        v == le16_val(data.subrange(at, at + 2)),
    ensures
        data.subrange(at, at + 2) == le16(v),
{
    let s = data.subrange(at, at + 2);
    let b0 = s[0];
    let b1 = s[1];
    assert(((b0 as u16) | ((b1 as u16) << 8u16)) == v);
    assert(b0 == (v & 0xff) as u8 && b1 == ((v >> 8u16) & 0xff) as u8) by (bit_vector)
        requires
            ((b0 as u16) | ((b1 as u16) << 8u16)) == v,
    ;
    assert(s =~= le16(v));
}

/// The bytes at an offset are the value's encoding.
proof fn lemma_le_bytes_eq32(data: Seq<u8>, at: int, v: u32)
    requires
        0 <= at,
        at + 4 <= data.len(),
        v == le32_val(data.subrange(at, at + 4)),
    ensures
        data.subrange(at, at + 4) == le32(v),
{
    let s = data.subrange(at, at + 4);
    let b0 = s[0];
    let b1 = s[1];
    let b2 = s[2];
    let b3 = s[3];
    assert(((b0 as u32) | ((b1 as u32) << 8u32) | ((b2 as u32) << 16u32) | ((b3 as u32)
        << 24u32)) == v);
    assert(b0 == (v & 0xff) as u8 && b1 == ((v >> 8u32) & 0xff) as u8 && b2 == ((v >> 16u32)
        & 0xff) as u8 && b3 == ((v >> 24u32) & 0xff) as u8) by (bit_vector)
        requires
            ((b0 as u32) | ((b1 as u32) << 8u32) | ((b2 as u32) << 16u32) | ((b3 as u32)
                << 24u32)) == v,
    ;
    assert(s =~= le32(v));
}

/// The bytes at an offset are the value's encoding.
proof fn lemma_le_bytes_eq64(data: Seq<u8>, at: int, v: u64)
    requires
        0 <= at,
        at + 8 <= data.len(),
        v == le64_val(data.subrange(at, at + 8)),
    ensures
        data.subrange(at, at + 8) == le64(v),
{
    let s = data.subrange(at, at + 8);
    let b0 = s[0];
    let b1 = s[1];
    let b2 = s[2];
    let b3 = s[3];
    let b4 = s[4];
    let b5 = s[5];
    let b6 = s[6];
    let b7 = s[7];
    assert(((b0 as u64) | ((b1 as u64) << 8u64) | ((b2 as u64) << 16u64) | ((b3 as u64)
        << 24u64) | ((b4 as u64) << 32u64) | ((b5 as u64) << 40u64) | ((b6 as u64) << 48u64) | ((
    b7 as u64) << 56u64)) == v);
    assert(b0 == (v & 0xff) as u8 && b1 == ((v >> 8u64) & 0xff) as u8 && b2 == ((v >> 16u64)
        & 0xff) as u8 && b3 == ((v >> 24u64) & 0xff) as u8 && b4 == ((v >> 32u64) & 0xff) as u8
        && b5 == ((v >> 40u64) & 0xff) as u8 && b6 == ((v >> 48u64) & 0xff) as u8 && b7 == ((v
        >> 56u64) & 0xff) as u8) by (bit_vector)
        requires
            ((b0 as u64) | ((b1 as u64) << 8u64) | ((b2 as u64) << 16u64) | ((b3 as u64)
                << 24u64) | ((b4 as u64) << 32u64) | ((b5 as u64) << 40u64) | ((b6 as u64)
                << 48u64) | ((b7 as u64) << 56u64)) == v,
    ;
    assert(s =~= le64(v));
}

/// The scalar encoding is injective: two scalar values of one type with
/// the same encoded bytes have the same model — so the bytes a value is
/// stored as pin the value down, and what `get_owned_val` hands back for
/// them is the one value they encode.
#[verifier::rlimit(100)]
pub proof fn lemma_encode_injective(t: Type, a: ValModel, b: ValModel)
    requires
        matches_type(t, a),
        matches_type(t, b),
        spec_encode(a) == spec_encode(b),
    ensures
        a == b,
{
    lemma_le_inj();
    match (a, b) {
        (ValModel::Bool(x), ValModel::Bool(y)) => {
            assert(spec_encode(a) =~= seq![
                if x {
                    1u8
                } else {
                    0u8
                },
            ]);
            assert(spec_encode(b) =~= seq![
                if y {
                    1u8
                } else {
                    0u8
                },
            ]);
            assert((if x {
                1u8
            } else {
                0u8
            }) == (if y {
                1u8
            } else {
                0u8
            })) by {
                assert(seq![
                    if x {
                        1u8
                    } else {
                        0u8
                    },
                ][0] == seq![
                    if y {
                        1u8
                    } else {
                        0u8
                    },
                ][0]);
            }
        },
        (ValModel::U8(x), ValModel::U8(y)) => {
            assert(spec_encode(a) =~= seq![x]);
            assert(spec_encode(b) =~= seq![y]);
            assert(x == y) by {
                assert(seq![x][0] == seq![y][0]);
            }
        },
        (ValModel::Char(x), ValModel::Char(y)) => {
            assert(le32_val(le32(x as u32)) == le32_val(le32(y as u32)));
            vstd::utf8::char_u32_cast(x, x as u32);
            vstd::utf8::char_u32_cast(y, y as u32);
        },
        (ValModel::I8(x), ValModel::I8(y)) => {
            assert(spec_encode(a) =~= seq![x as u8]);
            assert(spec_encode(b) =~= seq![y as u8]);
            assert(seq![x as u8] =~= seq![y as u8]);
            assert((x as u8) == (y as u8)) by {
                assert(seq![x as u8][0] == seq![y as u8][0]);
            }
            assert(x == y) by (bit_vector)
                requires
                    (x as u8) == (y as u8),
            ;
        },
        (ValModel::I16(x), ValModel::I16(y)) => {
            assert(le16_val(le16(x as u16)) == le16_val(le16(y as u16)));
            assert(x == y) by (bit_vector)
                requires
                    (x as u16) == (y as u16),
            ;
        },
        (ValModel::I32(x), ValModel::I32(y)) => {
            assert(le32_val(le32(x as u32)) == le32_val(le32(y as u32)));
            assert(x == y) by (bit_vector)
                requires
                    (x as u32) == (y as u32),
            ;
        },
        (ValModel::I64(x), ValModel::I64(y)) => {
            assert(le64_val(le64(x as u64)) == le64_val(le64(y as u64)));
            assert(x == y) by (bit_vector)
                requires
                    (x as u64) == (y as u64),
            ;
        },
        (ValModel::U16(x), ValModel::U16(y)) => {
            assert(le16_val(le16(x)) == le16_val(le16(y)));
        },
        (ValModel::U32(x), ValModel::U32(y)) => {
            assert(le32_val(le32(x)) == le32_val(le32(y)));
        },
        (ValModel::U64(x), ValModel::U64(y)) => {
            assert(le64_val(le64(x)) == le64_val(le64(y)));
        },
        (ValModel::F32(x), ValModel::F32(y)) => {
            assert(le32_val(le32(x)) == le32_val(le32(y)));
        },
        (ValModel::F64(x), ValModel::F64(y)) => {
            assert(le64_val(le64(x)) == le64_val(le64(y)));
        },
        (ValModel::Pos2d32(x), ValModel::Pos2d32(y)) => {
            lemma_concat_parts(le32(x.x), le32(x.y), le32(y.x), le32(y.y));
            assert(le32_val(le32(x.x)) == le32_val(le32(y.x)));
            assert(le32_val(le32(x.y)) == le32_val(le32(y.y)));
        },
        (ValModel::Pos2d64(x), ValModel::Pos2d64(y)) => {
            lemma_concat_parts(le64(x.x), le64(x.y), le64(y.x), le64(y.y));
            assert(le64_val(le64(x.x)) == le64_val(le64(y.x)));
            assert(le64_val(le64(x.y)) == le64_val(le64(y.y)));
        },
        (ValModel::Pos3d32(x), ValModel::Pos3d32(y)) => {
            lemma_concat_parts3(le32(x.x), le32(x.y), le32(x.z), le32(y.x), le32(y.y), le32(y.z));
            assert(le32_val(le32(x.x)) == le32_val(le32(y.x)));
            assert(le32_val(le32(x.y)) == le32_val(le32(y.y)));
            assert(le32_val(le32(x.z)) == le32_val(le32(y.z)));
        },
        (ValModel::Pos3d64(x), ValModel::Pos3d64(y)) => {
            lemma_concat_parts3(le64(x.x), le64(x.y), le64(x.z), le64(y.x), le64(y.y), le64(y.z));
            assert(le64_val(le64(x.x)) == le64_val(le64(y.x)));
            assert(le64_val(le64(x.y)) == le64_val(le64(y.y)));
            assert(le64_val(le64(x.z)) == le64_val(le64(y.z)));
        },
        (ValModel::Id(x), ValModel::Id(y)) => {
            lemma_concat_parts(le64(x.higher), le64(x.lower), le64(y.higher), le64(y.lower));
            assert(le64_val(le64(x.higher)) == le64_val(le64(y.higher)));
            assert(le64_val(le64(x.lower)) == le64_val(le64(y.lower)));
        },
        (ValModel::String(x), ValModel::String(y)) => {
            let ex = vstd::utf8::encode_utf8(x);
            let ey = vstd::utf8::encode_utf8(y);
            assert(ex =~= spec_encode(a).subrange(4, spec_encode(a).len() as int));
            assert(ey =~= spec_encode(b).subrange(4, spec_encode(b).len() as int));
            vstd::utf8::encode_utf8_decode_utf8(x);
            vstd::utf8::encode_utf8_decode_utf8(y);
        },
        (ValModel::Bytes(x), ValModel::Bytes(y)) => {
            assert(x =~= spec_encode(a).subrange(4, spec_encode(a).len() as int));
            assert(y =~= spec_encode(b).subrange(4, spec_encode(b).len() as int));
        },
        (ValModel::SmallBytes(x), ValModel::SmallBytes(y)) => {
            assert(x =~= spec_encode(a).subrange(1, spec_encode(a).len() as int));
            assert(y =~= spec_encode(b).subrange(1, spec_encode(b).len() as int));
        },
        _ => {
        },
    }
}

/// Little-endian encodings decode back to their value.
proof fn lemma_le_inj()
    ensures
        forall|x: u16| #[trigger] le16_val(le16(x)) == x,
        forall|x: u32| #[trigger] le32_val(le32(x)) == x,
        forall|x: u64| #[trigger] le64_val(le64(x)) == x,
{
    assert forall|x: u16| #[trigger] le16_val(le16(x)) == x by {
        lemma_le_round_trip(x, 0, 0);
    }
    assert forall|x: u32| #[trigger] le32_val(le32(x)) == x by {
        lemma_le_round_trip(0, x, 0);
    }
    assert forall|x: u64| #[trigger] le64_val(le64(x)) == x by {
        lemma_le_round_trip(0, 0, x);
    }
}

/// Equal concatenations of equal-length parts have equal parts.
proof fn lemma_concat_parts(a1: Seq<u8>, a2: Seq<u8>, b1: Seq<u8>, b2: Seq<u8>)
    requires
        a1.len() == b1.len(),
        a1 + a2 == b1 + b2,
    ensures
        a1 == b1,
        a2 == b2,
{
    assert(a1 =~= (a1 + a2).subrange(0, a1.len() as int));
    assert(b1 =~= (b1 + b2).subrange(0, b1.len() as int));
    assert(a2 =~= (a1 + a2).subrange(a1.len() as int, (a1 + a2).len() as int));
    assert(b2 =~= (b1 + b2).subrange(b1.len() as int, (b1 + b2).len() as int));
}

/// Equal concatenations of three equal-length parts have equal parts.
proof fn lemma_concat_parts3(
    a1: Seq<u8>,
    a2: Seq<u8>,
    a3: Seq<u8>,
    b1: Seq<u8>,
    b2: Seq<u8>,
    b3: Seq<u8>,
)
    requires
        a1.len() == b1.len(),
        a2.len() == b2.len(),
        a1 + a2 + a3 == b1 + b2 + b3,
    ensures
        a1 == b1,
        a2 == b2,
        a3 == b3,
{
    lemma_concat_parts(a1 + a2, a3, b1 + b2, b3);
    lemma_concat_parts(a1, a2, b1, b2);
}

} // verus!

verus! {

/// Append the feature layout of a 16-bit big-endian value: two value
/// bytes, six zeros.
fn feat16(v: u16) -> (r: Vec<u8>)
    ensures
        r@ == pad8(be16(v)),
{
    let mut out: Vec<u8> = Vec::new();
    out.push(((v >> 8u16) & 0xff) as u8);
    out.push((v & 0xff) as u8);
    out.push(0);
    out.push(0);
    out.push(0);
    out.push(0);
    out.push(0);
    out.push(0);
    proof {
        assert(out@ =~= pad8(be16(v)));
    }
    out
}

/// The feature layout of a 32-bit big-endian value: four value bytes, four
/// zeros.
fn feat32(v: u32) -> (r: Vec<u8>)
    ensures
        r@ == pad8(be32(v)),
{
    let mut out: Vec<u8> = Vec::new();
    out.push(((v >> 24u32) & 0xff) as u8);
    out.push(((v >> 16u32) & 0xff) as u8);
    out.push(((v >> 8u32) & 0xff) as u8);
    out.push((v & 0xff) as u8);
    out.push(0);
    out.push(0);
    out.push(0);
    out.push(0);
    proof {
        assert(out@ =~= pad8(be32(v)));
    }
    out
}

/// The feature layout of a 64-bit big-endian value: all eight value bytes.
fn feat64(v: u64) -> (r: Vec<u8>)
    ensures
        r@ == be64(v),
{
    crate::types::id::be_bytes_u64(v)
}

/// The first eight bytes of a byte vector, zero-padded on the right.
fn first8_exec(b: &Vec<u8>) -> (r: Vec<u8>)
    ensures
        r@ == first8(b@),
{
    let mut out: Vec<u8> = Vec::new();
    let mut i: usize = 0;
    while i < 8
        invariant
            i <= 8,
            out@.len() == i,
            forall|j: int| 0 <= j < i ==> out@[j] == first8(b@)[j],
        decreases 8 - i,
    {
        if i < b.len() {
            out.push(b[i]);
        } else {
            out.push(0);
        }
        i = i + 1;
    }
    proof {
        assert(out@ =~= first8(b@));
    }
    out
}

/// The first eight UTF-8 bytes of a string, zero-padded on the right.
fn first8_str(s: &str) -> (r: Vec<u8>)
    ensures
        r@ == first8(vstd::utf8::encode_utf8(s@)),
{
    let bs = s.as_bytes();
    let mut out: Vec<u8> = Vec::new();
    let mut i: usize = 0;
    while i < 8
        invariant
            bs@ == vstd::utf8::encode_utf8(s@),
            i <= 8,
            out@.len() == i,
            forall|j: int| 0 <= j < i ==> out@[j] == first8(bs@)[j],
        decreases 8 - i,
    {
        if i < bs.len() {
            out.push(bs[i]);
        } else {
            out.push(0);
        }
        i = i + 1;
    }
    proof {
        assert(out@ =~= first8(bs@));
    }
    out
}

impl OwnedValue {
    /// The order-preserving 8-byte feature key of this scalar value.
    /// Calling it on a map or array is a contract violation; callers fan
    /// out with `features` there.
    pub fn feature(&self) -> (r: Vec<u8>)
        requires
            !(self@ is DataMap),
            !(self@ is Array),
            !(self@ is PrimArray),
        ensures
            r@ == spec_feature(self@),
    {
        match self {
            OwnedValue::Bool(b) => feat32(
                if *b {
                    1
                } else {
                    0
                },
            ),
            OwnedValue::Char(c) => feat32(*c as u32),
            OwnedValue::I8(v) => feat32(#[verifier::truncate] ((*v as i32) as u32)),
            OwnedValue::I16(v) => feat16(#[verifier::truncate] (*v as u16)),
            OwnedValue::I32(v) => feat32(#[verifier::truncate] (*v as u32)),
            OwnedValue::I64(v) => feat64(#[verifier::truncate] (*v as u64)),
            OwnedValue::U8(v) => feat32(*v as u32),
            OwnedValue::U16(v) => feat16(*v),
            OwnedValue::U32(v) => feat32(*v),
            OwnedValue::U64(v) => feat64(*v),
            OwnedValue::F32(bits) => feat32(*bits),
            OwnedValue::F64(bits) => feat64(*bits),
            OwnedValue::Pos2d32(_) => zeros8_exec(),
            OwnedValue::Pos2d64(_) => zeros8_exec(),
            OwnedValue::Pos3d32(_) => zeros8_exec(),
            OwnedValue::Pos3d64(_) => zeros8_exec(),
            OwnedValue::Id(id) => feat64(id.higher ^ id.lower),
            OwnedValue::String(s) => first8_str(s.as_str()),
            OwnedValue::Bytes(b) => first8_exec(&b.data),
            OwnedValue::SmallBytes(b) => first8_exec(&b.data),
            _ => zeros8_exec(),
        }
    }

    /// The 8-byte content hash of this scalar value. Calling it on a map
    /// or array is a contract violation; callers fan out with `hashes`.
    pub fn hash(&self) -> (r: Vec<u8>)
        requires
            !(self@ is DataMap),
            !(self@ is Array),
            !(self@ is PrimArray),
        ensures
            r@ == spec_hash(self@),
    {
        match self {
            OwnedValue::Pos2d32(p) => {
                let mut buf = feat32(p.x);
                let mut more = feat32(p.y);
                buf.append(&mut more);
                let h = xxh64_bytes(buf.as_slice());
                feat64(h)
            },
            OwnedValue::Pos2d64(p) => {
                let mut buf = feat64(p.x);
                let mut more = feat64(p.y);
                buf.append(&mut more);
                let h = xxh64_bytes(buf.as_slice());
                feat64(h)
            },
            OwnedValue::Pos3d32(p) => {
                let mut buf = feat32(p.x);
                let mut m1 = feat32(p.y);
                buf.append(&mut m1);
                let mut m2 = feat32(p.z);
                buf.append(&mut m2);
                let h = xxh64_bytes(buf.as_slice());
                feat64(h)
            },
            OwnedValue::Pos3d64(p) => {
                let mut buf = feat64(p.x);
                let mut m1 = feat64(p.y);
                buf.append(&mut m1);
                let mut m2 = feat64(p.z);
                buf.append(&mut m2);
                let h = xxh64_bytes(buf.as_slice());
                feat64(h)
            },
            OwnedValue::Id(id) => {
                let mut buf = feat64(id.higher);
                let mut more = feat64(id.lower);
                buf.append(&mut more);
                let h = xxh64_bytes(buf.as_slice());
                feat64(h)
            },
            OwnedValue::String(s) => {
                let h = xxh64_bytes(s.as_str().as_bytes());
                feat64(h)
            },
            OwnedValue::Bytes(b) => {
                let h = xxh64_bytes(b.data.as_slice());
                feat64(h)
            },
            OwnedValue::SmallBytes(b) => {
                let h = xxh64_bytes(b.data.as_slice());
                feat64(h)
            },
            other => other.feature(),
        }
    }

    /// The feature keys of every element of a heterogeneous array, in
    /// order. The elements must themselves be scalars.
    #[verifier::loop_isolation(false)]
    pub fn features(&self) -> (r: Vec<Vec<u8>>)
        requires
            self@ is Array,
            self@ matches ValModel::Array(es) ==> forall|i: int|
                0 <= i < es.len() ==> (!((#[trigger] es[i]) is DataMap) && !(es[i] is Array) && !(
                es[i] is PrimArray)),
        ensures
            self@ matches ValModel::Array(es) ==> (r@.len() == es.len() && (forall|i: int|
                0 <= i < es.len() ==> (#[trigger] r@[i])@ == spec_feature(es[i]))),
    {
        let mut out: Vec<Vec<u8>> = Vec::new();
        match self {
            OwnedValue::Array(elems) => {
                proof {
                    OwnedValue::lemma_elem_models(elems, elems@.len() as nat);
                }
                let mut i: usize = 0;
                while i < elems.len()
                    invariant
                        i <= elems@.len(),
                        out@.len() == i,
                        forall|j: int|
                            0 <= j < i ==> (#[trigger] out@[j])@ == spec_feature(
                                elems@[j].model(),
                            ),
                    decreases elems@.len() - i,
                {
                    proof {
                        let es2 = self@->Array_0;
                        assert(!((#[trigger] es2[i as int]) is DataMap) && !(
                        es2[i as int] is Array) && !(es2[i as int] is PrimArray));
                        assert(elems@[i as int].model() == es2[i as int]);
                    }
                    out.push(elems[i].feature());
                    i = i + 1;
                }
            },
            _ => {
                proof {
                    assert(false);
                }
            },
        }
        out
    }

    /// The content hashes of every element of a heterogeneous array, in
    /// order. The elements must themselves be scalars.
    #[verifier::loop_isolation(false)]
    pub fn hashes(&self) -> (r: Vec<Vec<u8>>)
        requires
            self@ is Array,
            self@ matches ValModel::Array(es) ==> forall|i: int|
                0 <= i < es.len() ==> (!((#[trigger] es[i]) is DataMap) && !(es[i] is Array) && !(
                es[i] is PrimArray)),
        ensures
            self@ matches ValModel::Array(es) ==> (r@.len() == es.len() && (forall|i: int|
                0 <= i < es.len() ==> (#[trigger] r@[i])@ == spec_hash(es[i]))),
    {
        let mut out: Vec<Vec<u8>> = Vec::new();
        match self {
            OwnedValue::Array(elems) => {
                proof {
                    OwnedValue::lemma_elem_models(elems, elems@.len() as nat);
                }
                let mut i: usize = 0;
                while i < elems.len()
                    invariant
                        i <= elems@.len(),
                        out@.len() == i,
                        forall|j: int|
                            0 <= j < i ==> (#[trigger] out@[j])@ == spec_hash(elems@[j].model()),
                    decreases elems@.len() - i,
                {
                    proof {
                        let es2 = self@->Array_0;
                        assert(!((#[trigger] es2[i as int]) is DataMap) && !(
                        es2[i as int] is Array) && !(es2[i as int] is PrimArray));
                        assert(elems@[i as int].model() == es2[i as int]);
                    }
                    out.push(elems[i].hash());
                    i = i + 1;
                }
            },
            _ => {
                proof {
                    assert(false);
                }
            },
        }
        out
    }
}

impl SharedValue {
    /// The order-preserving 8-byte feature key of this scalar value.
    pub fn feature(&self) -> (r: Vec<u8>)
        requires
            !(self@ is DataMap),
            !(self@ is Array),
            !(self@ is PrimArray),
        ensures
            r@ == spec_feature(self@),
    {
        let o = self.owned();
        o.feature()
    }

    /// The 8-byte content hash of this scalar value.
    pub fn hash(&self) -> (r: Vec<u8>)
        requires
            !(self@ is DataMap),
            !(self@ is Array),
            !(self@ is PrimArray),
        ensures
            r@ == spec_hash(self@),
    {
        let o = self.owned();
        o.hash()
    }
}

/// Eight zero bytes.
fn zeros8_exec() -> (r: Vec<u8>)
    ensures
        r@ == zeros8(),
{
    let mut out: Vec<u8> = Vec::new();
    out.push(0);
    out.push(0);
    out.push(0);
    out.push(0);
    out.push(0);
    out.push(0);
    out.push(0);
    out.push(0);
    proof {
        assert(out@ =~= zeros8());
    }
    out
}

} // verus!
