//! The value model: the closed type registry, owned and shared values,
//! homogeneous packed arrays, hashed-key maps, and the byte-level codec with
//! its feature keys and content hashes.

pub mod data_type;
pub mod pos;
pub mod id;
pub mod bytes;
pub mod any;
pub mod model;
pub mod owned;
pub mod shared;
pub mod owned_map;
pub mod shared_map;
pub mod codec;
pub mod value_eq;

pub use any::Any;
pub use bytes::{Bytes, SmallBytes, bytes_eq};
pub use id::{
    Id, spec_be_bytes_u64, spec_be_u64, spec_id_binary, be_bytes_u64, be_u64_from,
    lemma_be_round_trip, lemma_id_binary_round_trip,
};
pub use pos::{Pos2d32, Pos2d64, Pos3d32, Pos3d64};
pub use model::{ValModel, PrimArrayModel, MapModel, model_base_type, entries_find, entries_insert, lemma_entries_find, map_get_in, map_set_in, lemma_map_total_indexing};
pub use owned_map::{name_for, string_map_of, spec_from_pairs};
pub use codec::{le16, le32, le64, le16_val, le32_val, le64_val, matches_type, spec_encode, spec_val_size, spec_feature, spec_hash, set_val, get_owned_val, get_shared_val, get_size, get_vsize, lemma_le_round_trip, lemma_encode_injective};
pub use value_eq::{owned_value_eq, shared_value_eq, owned_map_eq, shared_map_eq, prim_array_eq, shared_prim_array_eq, eq_vec_string, eq_vec_bytes, eq_vec_small_bytes};
pub use owned::{OwnedValue, OwnedPrimArray, OwnedMap, ToValue};
pub use shared::{SharedValue, SharedPrimArray, SharedMap, copy_vec, clone_string_vec, clone_bytes_vec, clone_small_bytes_vec, lemma_owned_shared_round_trip, lemma_shared_owned_round_trip};
pub use data_type::{
    Type, spec_type_id, spec_type_from_id, spec_fixed_size, spec_size_of, spec_align_of,
    spec_get_type_id, type_id_of, fixed_size, size_of_type, align_of_type, get_type_id, get_type,
    str_eq, lemma_type_id_round_trip, ARRAY_LEN_TYPE, TYPE_CODE_TYPE,
};
