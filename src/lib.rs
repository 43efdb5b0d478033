//! Generation of `From` conversions between a source ("DTO") type and a
//! target type, from a plain-value model of the target's declaration.
//!
//! The declaration model holds what the generator reads of a parsed item:
//! its name, its generics as printed, its `#[from(...)]` annotations and its
//! shape. [`emit::from_dto_derive`] turns that model into the text of one
//! `impl From<Source> for Target` block per annotation.

pub mod model;
pub mod shape;
pub mod emit;
pub mod eval;
