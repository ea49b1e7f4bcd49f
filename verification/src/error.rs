//! The decode error taxonomy. Every failure is a structured value naming the
//! offending key or field; decoding is fail-fast and whole-document, so an
//! error means no configuration is produced at all.

use crate::keys::SectionKind;
use vstd::prelude::*;

verus! {

/// Why a document failed to decode.
///
/// In `MissingField` and `TypeMismatch` the `field` names the offending field
/// of the section's table; an empty `field` means the section's value as a
/// whole had the wrong shape (it was not a table).
#[derive(Debug, PartialEq)]
pub enum DecodeError {
    /// The document root has zero keys.
    EmptyDocument,
    /// A top-level key names no recognized section.
    UnknownSection { key: String },
    /// A required field of a section is absent.
    MissingField { section: SectionKind, field: String },
    /// A value does not have the type the section's schema asks for.
    TypeMismatch { section: SectionKind, field: String },
    /// A banner `color` value names none of the recognized colors.
    UnknownColor { name: String },
}

/// The mathematical model of a [`DecodeError`].
pub ghost enum ErrorV {
    EmptyDocument,
    UnknownSection { key: Seq<char> },
    MissingField { section: SectionKind, field: Seq<char> },
    TypeMismatch { section: SectionKind, field: Seq<char> },
    UnknownColor { name: Seq<char> },
}

impl View for DecodeError {
    type V = ErrorV;

    open spec fn view(&self) -> ErrorV {
        match self {
            DecodeError::EmptyDocument => ErrorV::EmptyDocument,
            DecodeError::UnknownSection { key } => ErrorV::UnknownSection { key: key@ },
            DecodeError::MissingField { section, field } => ErrorV::MissingField {
                section: *section,
                field: field@,
            },
            DecodeError::TypeMismatch { section, field } => ErrorV::TypeMismatch {
                section: *section,
                field: field@,
            },
            DecodeError::UnknownColor { name } => ErrorV::UnknownColor { name: name@ },
        }
    }
}

} // verus!
