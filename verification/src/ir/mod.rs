//! The intermediate representation of a schema, and the walkers that read it.

pub mod adapter;
pub mod env;
pub mod env_vars;
pub mod error;
pub mod expression;
pub mod jinja;
pub mod repr;
pub mod walker;
