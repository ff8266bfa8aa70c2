//! Entity extraction: turns the syntax tree of one source file into a flat,
//! ordered list of entities that describe its structs and traits.
//!
//! - [`entity`]: the entity tree and its mathematical value.
//! - [`syntax`]: the shapes of a syntax tree that the extraction reads.
//! - [`text`]: stripping, splitting and joining of type spellings.
//! - [`parser`]: the extraction, from shapes to entities.
//! - [`laws`]: what holds of the extraction on every input.
//! - [`from_syn`]: reading a `syn` tree into the shapes.

pub mod entity;
pub mod from_syn;
pub mod laws;
pub mod parser;
pub mod syntax;
pub mod text;

pub use entity::{Entity, EntityType};
