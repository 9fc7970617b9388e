//! Schema-guided coercion of loosely typed JSON-like values.
//!
//! A lenient parser hands over a [`value::Value`]; a schema says what
//! [`field_type::FieldType`] it should have. [`coercer::coerce`] makes the
//! best typed value of it that it can, a [`typed::BamlValueWithFlags`], and
//! records every liberty it took as a [`flags::Flag`] on the node where it
//! took it; it fails with a [`error::ParsingError`] only where nothing can
//! be made of the value at all.
//!
//! What coercion yields is stated in [`coercer::semantics`], and every
//! coercer is proved to yield exactly that. The laws that follow from it
//! stand beside it: which key types a map admits
//! ([`coercer::key_laws`]), which entries, items and fields survive and in
//! what order ([`coercer::map_laws`], [`coercer::list_laws`],
//! [`coercer::class_laws`]), which alternative a union takes
//! ([`coercer::union_laws`]), that a coerced value is a value of its target
//! type ([`coercer::conformance`]), and that it coerces to itself again
//! ([`coercer::idempotence`]).
//!
//! The schema comes from an intermediate representation ([`ir`]), read
//! through walkers and evaluated in an environment; [`syntax`] and
//! [`parser_database`] hold the forms and attributes of the schema's source.

pub mod coercer;
pub mod context;
pub mod error;
pub mod field_type;
pub mod flags;
pub mod ir;
pub mod lookup;
pub mod parser_database;
pub mod schema;
pub mod span;
pub mod syntax;
pub mod text;
pub mod typed;
pub mod value;
