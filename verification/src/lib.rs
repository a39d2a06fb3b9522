//! Reader for game-engine asset archives whose object layout is described by a
//! runtime schema ("type tree") shipped alongside the data.
//!
//! The crate parses serialized-file headers and metadata for several
//! incompatible format revisions, reconstructs the flat, level-tagged schema
//! sequence into a tree, decodes raw object payload bytes into a navigable
//! value tree, and resolves cross-file object references against a registry.

pub mod assets;
pub mod classes;
pub mod error;
pub mod raw;
pub mod serialized_file;
pub mod strutil;
pub mod type_tree;
pub mod unity_asset_view;
pub mod until;
