//! The type registry: every supported type with its stable numeric id, its
//! size and alignment where fixed, and the textual names it is known under.

use vstd::prelude::*;

use vstd::string::StrSliceExecFns;

verus! {

/// Every type the engine supports. The discriminant order fixes each type's
/// stable numeric id; `Map` and `Null` are non-primitive markers.
#[derive(Copy, Clone, Debug, PartialEq, Eq, Structural)]
pub enum Type {
    Null,
    DataMap,
    Bool,
    Char,
    I8,
    I16,
    I32,
    I64,
    U8,
    U16,
    U32,
    U64,
    F32,
    F64,
    Pos2d32,
    Pos2d64,
    Pos3d32,
    Pos3d64,
    Id,
    String,
    Bytes,
    SmallBytes,
    NA,
}

/// The stable numeric id of a type.
pub open spec fn spec_type_id(t: Type) -> u8 {
    match t {
        Type::Null => 0,
        Type::DataMap => 1,
        Type::Bool => 2,
        Type::Char => 3,
        Type::I8 => 4,
        Type::I16 => 5,
        Type::I32 => 6,
        Type::I64 => 7,
        Type::U8 => 8,
        Type::U16 => 9,
        Type::U32 => 10,
        Type::U64 => 11,
        Type::F32 => 12,
        Type::F64 => 13,
        Type::Pos2d32 => 14,
        Type::Pos2d64 => 15,
        Type::Pos3d32 => 16,
        Type::Pos3d64 => 17,
        Type::Id => 18,
        Type::String => 19,
        Type::Bytes => 20,
        Type::SmallBytes => 21,
        Type::NA => 22,
    }
}

/// The type a numeric id names; unknown ids name `NA`.
pub open spec fn spec_type_from_id(id: u8) -> Type {
    if id == 2 {
        Type::Bool
    } else if id == 3 {
        Type::Char
    } else if id == 4 {
        Type::I8
    } else if id == 5 {
        Type::I16
    } else if id == 6 {
        Type::I32
    } else if id == 7 {
        Type::I64
    } else if id == 8 {
        Type::U8
    } else if id == 9 {
        Type::U16
    } else if id == 10 {
        Type::U32
    } else if id == 11 {
        Type::U64
    } else if id == 12 {
        Type::F32
    } else if id == 13 {
        Type::F64
    } else if id == 14 {
        Type::Pos2d32
    } else if id == 15 {
        Type::Pos2d64
    } else if id == 16 {
        Type::Pos3d32
    } else if id == 17 {
        Type::Pos3d64
    } else if id == 18 {
        Type::Id
    } else if id == 19 {
        Type::String
    } else if id == 20 {
        Type::Bytes
    } else if id == 21 {
        Type::SmallBytes
    } else {
        Type::NA
    }
}

/// Whether a type's encoded size is known statically.
pub open spec fn spec_fixed_size(t: Type) -> bool {
    match t {
        Type::Bool | Type::Char => true,
        Type::I8 | Type::I16 | Type::I32 | Type::I64 => true,
        Type::U8 | Type::U16 | Type::U32 | Type::U64 => true,
        Type::F32 | Type::F64 => true,
        Type::Pos2d32 | Type::Pos2d64 | Type::Pos3d32 | Type::Pos3d64 => true,
        Type::Id => true,
        _ => false,
    }
}

/// The encoded size in bytes of a fixed-size type.
pub open spec fn spec_size_of(t: Type) -> usize {
    match t {
        Type::Bool => 1usize,
        Type::Char => 4usize,
        Type::I8 => 1usize,
        Type::I16 => 2usize,
        Type::I32 => 4usize,
        Type::I64 => 8usize,
        Type::U8 => 1usize,
        Type::U16 => 2usize,
        Type::U32 => 4usize,
        Type::U64 => 8usize,
        Type::F32 => 4usize,
        Type::F64 => 8usize,
        Type::Pos2d32 => 8usize,
        Type::Pos2d64 => 16usize,
        Type::Pos3d32 => 12usize,
        Type::Pos3d64 => 24usize,
        Type::Id => 16usize,
        _ => 0usize,
    }
}

impl Type {
    /// The stable numeric id of this type.
    pub fn id(self) -> (r: u8)
        ensures
            r == spec_type_id(self),
    {
        match self {
            Type::Null => 0,
            Type::DataMap => 1,
            Type::Bool => 2,
            Type::Char => 3,
            Type::I8 => 4,
            Type::I16 => 5,
            Type::I32 => 6,
            Type::I64 => 7,
            Type::U8 => 8,
            Type::U16 => 9,
            Type::U32 => 10,
            Type::U64 => 11,
            Type::F32 => 12,
            Type::F64 => 13,
            Type::Pos2d32 => 14,
            Type::Pos2d64 => 15,
            Type::Pos3d32 => 16,
            Type::Pos3d64 => 17,
            Type::Id => 18,
            Type::String => 19,
            Type::Bytes => 20,
            Type::SmallBytes => 21,
            Type::NA => 22,
        }
    }

    /// The primitive type a numeric id names; ids of the non-primitive
    /// markers and unknown ids name `NA`.
    pub fn from_id(id: u8) -> (r: Type)
        ensures
            r == spec_type_from_id(id),
    {
        if id == 2 {
            Type::Bool
        } else if id == 3 {
            Type::Char
        } else if id == 4 {
            Type::I8
        } else if id == 5 {
            Type::I16
        } else if id == 6 {
            Type::I32
        } else if id == 7 {
            Type::I64
        } else if id == 8 {
            Type::U8
        } else if id == 9 {
            Type::U16
        } else if id == 10 {
            Type::U32
        } else if id == 11 {
            Type::U64
        } else if id == 12 {
            Type::F32
        } else if id == 13 {
            Type::F64
        } else if id == 14 {
            Type::Pos2d32
        } else if id == 15 {
            Type::Pos2d64
        } else if id == 16 {
            Type::Pos3d32
        } else if id == 17 {
            Type::Pos3d64
        } else if id == 18 {
            Type::Id
        } else if id == 19 {
            Type::String
        } else if id == 20 {
            Type::Bytes
        } else if id == 21 {
            Type::SmallBytes
        } else {
            Type::NA
        }
    }

    /// The encoded size of this type, where it is fixed.
    pub fn size(&self) -> (r: Option<usize>)
        ensures
            spec_fixed_size(*self) ==> r == Some(spec_size_of(*self)),
            !spec_fixed_size(*self) ==> r is None,
    {
        if fixed_size(*self) {
            Some(size_of_type(*self))
        } else {
            None
        }
    }
}

/// A primitive type's numeric id round-trips through `from_id`.
pub proof fn lemma_type_id_round_trip(t: Type)
    ensures
        t != Type::Null && t != Type::DataMap && t != Type::NA ==> spec_type_from_id(
            spec_type_id(t),
        ) == t,
{
}

/// The numeric id of a type, widened as the original interface hands it out.
pub fn type_id_of(t: Type) -> (r: u32)
    ensures
        r == spec_type_id(t) as u32,
{
    t.id() as u32
}

/// Whether a type's encoded size is known statically.
pub fn fixed_size(t: Type) -> (r: bool)
    ensures
        r == spec_fixed_size(t),
{
    match t {
        Type::Bool | Type::Char => true,
        Type::I8 | Type::I16 | Type::I32 | Type::I64 => true,
        Type::U8 | Type::U16 | Type::U32 | Type::U64 => true,
        Type::F32 | Type::F64 => true,
        Type::Pos2d32 | Type::Pos2d64 | Type::Pos3d32 | Type::Pos3d64 => true,
        Type::Id => true,
        _ => false,
    }
}

/// The encoded size in bytes of a fixed-size type. Asking for the size of a
/// variable-size type or a marker is a contract violation.
pub fn size_of_type(t: Type) -> (r: usize)
    requires
        spec_fixed_size(t),
    ensures
        r == spec_size_of(t),
{
    match t {
        Type::Bool => 1,
        Type::Char => 4,
        Type::I8 => 1,
        Type::I16 => 2,
        Type::I32 => 4,
        Type::I64 => 8,
        Type::U8 => 1,
        Type::U16 => 2,
        Type::U32 => 4,
        Type::U64 => 8,
        Type::F32 => 4,
        Type::F64 => 8,
        Type::Pos2d32 => 8,
        Type::Pos2d64 => 16,
        Type::Pos3d32 => 12,
        Type::Pos3d64 => 24,
        Type::Id => 16,
        _ => 0,
    }
}

/// The alignment a fixed-size type asks of an encoding address.
pub open spec fn spec_align_of(t: Type) -> usize {
    match t {
        Type::Bool => 1usize,
        Type::Char => 4usize,
        Type::I8 => 1usize,
        Type::I16 => 2usize,
        Type::I32 => 4usize,
        Type::I64 => 8usize,
        Type::U8 => 1usize,
        Type::U16 => 2usize,
        Type::U32 => 4usize,
        Type::U64 => 8usize,
        Type::F32 => 4usize,
        Type::F64 => 8usize,
        Type::Pos2d32 => 4usize,
        Type::Pos2d64 => 8usize,
        Type::Pos3d32 => 4usize,
        Type::Pos3d64 => 8usize,
        Type::Id => 8usize,
        Type::String => 4usize,
        Type::Bytes => 4usize,
        Type::SmallBytes => 1usize,
        _ => 1usize,
    }
}

/// The alignment a type asks of an encoding address. Variable-size types are
/// aligned for their length prefix.
pub fn align_of_type(t: Type) -> (r: usize)
    requires
        t != Type::Null && t != Type::DataMap && t != Type::NA,
    ensures
        r == spec_align_of(t),
{
    match t {
        Type::Bool => 1,
        Type::Char => 4,
        Type::I8 => 1,
        Type::I16 => 2,
        Type::I32 => 4,
        Type::I64 => 8,
        Type::U8 => 1,
        Type::U16 => 2,
        Type::U32 => 4,
        Type::U64 => 8,
        Type::F32 => 4,
        Type::F64 => 8,
        Type::Pos2d32 => 4,
        Type::Pos2d64 => 8,
        Type::Pos3d32 => 4,
        Type::Pos3d64 => 8,
        Type::Id => 8,
        Type::String => 4,
        Type::Bytes => 4,
        Type::SmallBytes => 1,
        _ => 1,
    }
}

/// The type used for an array's length prefix.
pub const ARRAY_LEN_TYPE: Type = Type::U32;

/// The type used for an encoded type-code tag.
pub const TYPE_CODE_TYPE: Type = Type::U8;

/// Compare two string slices by their characters.
pub fn str_eq(a: &str, b: &str) -> (r: bool)
    ensures
        r == (a@ == b@),
{
    let a_len = a.unicode_len();
    let b_len = b.unicode_len();
    if a_len != b_len {
        assert(a@.len() != b@.len());
        return false;
    }
    let mut i: usize = 0;
    while i < a_len
        invariant
            a_len == a@.len(),
            b_len == b@.len(),
            a_len == b_len,
            i <= a_len,
            forall|j: int| 0 <= j < i ==> a@[j] == b@[j],
        decreases a_len - i,
    {
        if a.get_char(i) != b.get_char(i) {
            return false;
        }
        i = i + 1;
    }
    proof {
        assert(a@ =~= b@);
    }
    true
}

/// The numeric id a textual type name denotes; names outside the registry
/// give 0.
pub fn get_type_id(name: String) -> (r: u8)
    ensures
        r == spec_get_type_id(name@),
{
    let n = name.as_str();
    if str_eq(n, "bool") || str_eq(n, "bit") {
        Type::Bool.id()
    } else if str_eq(n, "char") {
        Type::Char.id()
    } else if str_eq(n, "i8") {
        Type::I8.id()
    } else if str_eq(n, "i16") || str_eq(n, "int") {
        Type::I16.id()
    } else if str_eq(n, "i32") || str_eq(n, "long") {
        Type::I32.id()
    } else if str_eq(n, "i64") || str_eq(n, "longlong") {
        Type::I64.id()
    } else if str_eq(n, "u8") || str_eq(n, "byte") {
        Type::U8.id()
    } else if str_eq(n, "u16") {
        Type::U16.id()
    } else if str_eq(n, "u32") {
        Type::U32.id()
    } else if str_eq(n, "u64") {
        Type::U64.id()
    } else if str_eq(n, "f32") || str_eq(n, "float") {
        Type::F32.id()
    } else if str_eq(n, "f64") || str_eq(n, "double") {
        Type::F64.id()
    } else if str_eq(n, "pos2d32") || str_eq(n, "pos2d") || str_eq(n, "pos") || str_eq(n, "pos32") {
        Type::Pos2d32.id()
    } else if str_eq(n, "pos2d64") || str_eq(n, "pos64") {
        Type::Pos2d64.id()
    } else if str_eq(n, "pos3d32") || str_eq(n, "pos3d") {
        Type::Pos3d32.id()
    } else if str_eq(n, "pos3d64") {
        Type::Pos3d64.id()
    } else if str_eq(n, "id") {
        Type::Id.id()
    } else if str_eq(n, "string") || str_eq(n, "str") {
        Type::String.id()
    } else if str_eq(n, "bytes") {
        Type::Bytes.id()
    } else if str_eq(n, "small_bytes") {
        Type::SmallBytes.id()
    } else {
        0
    }
}

/// The numeric id a textual type name denotes.
pub open spec fn spec_get_type_id(name: Seq<char>) -> u8 {
    if name == "bool"@ || name == "bit"@ {
        2u8
    } else if name == "char"@ {
        3u8
    } else if name == "i8"@ {
        4u8
    } else if name == "i16"@ || name == "int"@ {
        5u8
    } else if name == "i32"@ || name == "long"@ {
        6u8
    } else if name == "i64"@ || name == "longlong"@ {
        7u8
    } else if name == "u8"@ || name == "byte"@ {
        8u8
    } else if name == "u16"@ {
        9u8
    } else if name == "u32"@ {
        10u8
    } else if name == "u64"@ {
        11u8
    } else if name == "f32"@ || name == "float"@ {
        12u8
    } else if name == "f64"@ || name == "double"@ {
        13u8
    } else if name == "pos2d32"@ || name == "pos2d"@ || name == "pos"@ || name == "pos32"@ {
        14u8
    } else if name == "pos2d64"@ || name == "pos64"@ {
        15u8
    } else if name == "pos3d32"@ || name == "pos3d"@ {
        16u8
    } else if name == "pos3d64"@ {
        17u8
    } else if name == "id"@ {
        18u8
    } else if name == "string"@ || name == "str"@ {
        19u8
    } else if name == "bytes"@ {
        20u8
    } else if name == "small_bytes"@ {
        21u8
    } else {
        0u8
    }
}

/// The primary textual name of a type; the markers give "N/A".
pub fn get_type(t: Type) -> (r: &'static str)
    ensures
        t == Type::Bool ==> r@ == "bool"@,
        t == Type::U32 ==> r@ == "u32"@,
        t == Type::String ==> r@ == "string"@,
{
    match t {
        Type::Bool => "bool",
        Type::Char => "char",
        Type::I8 => "i8",
        Type::I16 => "i16",
        Type::I32 => "i32",
        Type::I64 => "i64",
        Type::U8 => "u8",
        Type::U16 => "u16",
        Type::U32 => "u32",
        Type::U64 => "u64",
        Type::F32 => "f32",
        Type::F64 => "f64",
        Type::Pos2d32 => "pos2d32",
        Type::Pos2d64 => "pos2d64",
        Type::Pos3d32 => "pos3d32",
        Type::Pos3d64 => "pos3d64",
        Type::Id => "id",
        Type::String => "string",
        Type::Bytes => "bytes",
        Type::SmallBytes => "small_bytes",
        _ => "N/A",
    }
}

} // verus!
