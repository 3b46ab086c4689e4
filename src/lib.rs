//! Readers for OpenStreetMap data files.
//!
//! The verified core decodes the PBF block format: frame splitting, protobuf
//! wire parsing, delta decoding of integer columns, string-table resolution and
//! dispatch over the four kinds of primitive group.

mod block;
mod changesets;
mod decode;
mod delta;
mod dense;
mod model;
mod reader;
mod strings;
mod wire;

pub use block::{classify_group, decode_block, decode_group, GroupKind};
pub use changesets::{parse_i64, parse_u64, Changeset, ChangesetBuilder, ChangesetError, TimestampFormat};
pub use decode::{decode_node, decode_relation, decode_way};
pub use delta::delta_decode;
pub use dense::{decode_dense, next_node_pairs, scale, split_node_tags, BlockParams};
pub use model::{Entity, Member, Metadata, Node, ObjType, PbfError, Relation, Way};
pub use reader::{extract, frame_length, next_payload, read_header, Action, PbfReader, PbfStream, Phase};
pub use strings::StringTable;
pub use wire::{read_varint, Field, WireValue};
