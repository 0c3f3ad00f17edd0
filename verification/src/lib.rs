//! Reader for the object graph of an Advanced Authoring Format container.
//!
//! A container is a compound file: a tree of storages and streams. Each
//! storage that stands for an object holds a `properties` stream, whose
//! records either carry a value inline or point at other streams and
//! storages. This crate decodes those records and follows the references
//! between objects, strong ones by storage path and weak ones through the
//! table of referenced properties.
//!
//! The modules, from the bottom up:
//!
//! - `error`, `bytes`, `types`, `text`: errors, little-endian integers,
//!   fixed-width records, names and paths;
//! - `properties`, `references`: the layout of the property table, of the
//!   index streams and of the table of referenced properties;
//! - `storage`: the compound file, which is the `cfb` crate's;
//! - `model`, `laws`: what a container means, and what follows from it;
//! - `file`, `resolve`, `property_iterator`, `classes`: the reader.

pub mod error;
pub mod bytes;
pub mod types;
pub mod text;
pub mod interchange_object;
pub mod properties;
pub mod references;
pub mod storage;
pub mod model;
pub mod laws;
pub mod file;
pub mod resolve;
pub mod property_iterator;
pub mod classes;
