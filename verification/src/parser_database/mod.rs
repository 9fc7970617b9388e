//! What a schema's sources resolve to: the attributes of its classes and
//! enums, and its type aliases.

pub mod attributes;
pub mod walkers;
