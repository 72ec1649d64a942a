//! Decoder for OVSDB database schema documents (RFC 7047, section 3).
//!
//! The library models a parsed JSON document with its own [`json::Json`]
//! type and decodes it into a typed schema: tables, columns, column types,
//! constrained base types and the OVSDB set encoding. Every decoder is
//! specified by a spec-level function over the mathematical view of the
//! input, so the exact result (including which error is reported for which
//! malformed input) is pinned down by the contracts.

use vstd::prelude::*;

pub mod common;
pub mod json;
pub mod schema;
pub mod types;

verus! {

/// A decode failure, reported for the whole document.
#[derive(Clone, Copy, Debug, PartialEq, Eq, Structural)]
pub enum Error {
    /// An `enum`-style array is not a two-element `["set", [...]]` form.
    MalformedSet,
    /// A `type` discriminator string matches no known variant.
    UnknownVariant,
    /// A `refType` value other than `"strong"` or `"weak"`.
    InvalidReferenceKind,
    /// A mandatory field (such as `refTable` or `key`) is absent.
    MissingRequiredField,
    /// A `max` bound that is neither an integer nor `"unlimited"`.
    InvalidCardinalityBound,
    /// A field whose JSON value is of the wrong kind entirely.
    TypeMismatch,
}

} // verus!
