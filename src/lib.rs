//! Embedded trees of Protobuf definitions, and where they land once written out.
//!
//! A [`ProtoDir`] holds a directory tree that was embedded in the program. Writing it
//! out always places it under a fixed `proto` child of the chosen output directory;
//! [`ProtoDir::layout`] computes that destination together with the `.proto` entries
//! of the tree, as an [`ExtractedProtoDir`].

mod extracted;
mod proto_dir;

pub use extracted::ExtractedProtoDir;
pub use proto_dir::{
    destination, lemma_each_match_recorded_once, lemma_layout_idempotent, lemma_protos_exactly_proto_entries, ProtoDir,
    PROTO_GLOB, PROTO_SUBDIR,
};
