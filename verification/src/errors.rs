//! Field-scoped decode failures: a malformed numeric or identifier string, an
//! unrecognized enum text, a missing mandatory field, or a value of the wrong
//! shape. Each carries the offending field name, and the raw text where one
//! exists. No failure is ever coerced to a default.

use vstd::prelude::*;

verus! {

/// One decode failure, tied to the field on which it arose.
#[derive(Clone, PartialEq, Eq, Debug)]
pub enum DecodeError {
    /// A numeric or identifier string that does not parse.
    Format { field: String, raw: String },
    /// An enum text outside the recognized set.
    UnknownEnumValue { field: String, raw: String },
    /// A mandatory field absent from the record.
    MissingField { field: String },
    /// A field present with a value of the wrong shape.
    WrongType { field: String },
}

/// The mathematical face of a `DecodeError`.
pub enum ErrView {
    Format { field: Seq<char>, raw: Seq<char> },
    UnknownEnumValue { field: Seq<char>, raw: Seq<char> },
    MissingField { field: Seq<char> },
    WrongType { field: Seq<char> },
}

impl View for DecodeError {
    type V = ErrView;

    open spec fn view(&self) -> ErrView {
        match self {
            DecodeError::Format { field, raw } => ErrView::Format {
                field: field@,
                raw: raw@,
            },
            DecodeError::UnknownEnumValue { field, raw } => ErrView::UnknownEnumValue {
                field: field@,
                raw: raw@,
            },
            DecodeError::MissingField { field } => ErrView::MissingField { field: field@ },
            DecodeError::WrongType { field } => ErrView::WrongType { field: field@ },
        }
    }
}

} // verus!
