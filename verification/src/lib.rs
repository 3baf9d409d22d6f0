//! Declarative validation of values and records.
//!
//! A *validator* tests one rule on one value: it is a function from a
//! reference to the value to `Ok(())` or to the [`Invalid`] that tells which
//! rule the value broke. The functions of [`validators`] make them, each closed
//! over its parameters: `length(5, 64)`, `contains("@")`, `range(12, 127)`.
//!
//! [`rules`] runs validators and gathers what they say. A field is checked
//! against a whole list of validators, and a record field by field; nothing
//! stops at the first failure, so the caller gets every broken rule of every
//! field in one report ([`MultipleError`]), grouped under the tags of the
//! fields.
//!
//! A type that knows its own rules implements [`Accord`].
//!
//! Every function states what it returns in terms of the views of
//! [`report`]. What follows from those contracts for every validation is
//! proved in [`laws`].

use vstd::prelude::*;

pub mod laws;
pub mod report;
pub mod rules;
pub mod text;
pub mod validators;

pub use report::{
    Error, Invalid, InvalidView, MultipleError, MultipleInvalid, MultipleInvalidView,
    ValidatorResult,
};

verus! {

/// What validating a record gives: `Ok`, or every failure of every field.
pub type Result = std::result::Result<(), MultipleError>;

/// A record that can be validated as a whole.
pub trait Accord {
    /// `Ok` when every field passes all its rules, else the report of every
    /// failure of every field.
    fn validate(&self) -> Result;
}

} // verus!
