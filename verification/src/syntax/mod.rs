//! The syntactic forms of a schema source, each with the metadata of its
//! place in the source.

pub mod forms;
pub mod pos;
