//! Why a derivation was refused.
use vstd::prelude::*;

use crate::decl::GetFieldError;

verus! {

/// The kinds of refusal.
#[derive(PartialEq, Eq, Structural, Debug, Clone, Copy)]
pub enum ErrorKind {
    /// A struct or a variant that holds zero or several fields.
    NotSingleField,
    /// A unit struct or a unit variant.
    UnitVariantUnsupported,
    /// Conversions through a type parameter would overlap with others once
    /// the parameter is substituted.
    GenericConflict,
    /// Two conversions would start from the same type.
    DuplicateInnerType,
    /// An attribute could not be read.
    MalformedAnnotation,
}

/// A refusal, and the enum variant it was found at (by index); `None` for a
/// struct.
#[derive(PartialEq, Eq, Structural, Debug, Clone, Copy)]
pub struct DeriveError {
    pub kind: ErrorKind,
    pub alternative: Option<usize>,
}

/// The refusal for a field list without a single field.
pub open spec fn field_error(e: GetFieldError, at: Option<usize>) -> DeriveError {
    DeriveError {
        kind: match e {
            GetFieldError::Unit => ErrorKind::UnitVariantUnsupported,
            GetFieldError::NotSingle => ErrorKind::NotSingleField,
        },
        alternative: at,
    }
}

impl DeriveError {
    /// Builds the refusal for a field list without a single field.
    pub fn from_field_error(e: GetFieldError, at: Option<usize>) -> (r: DeriveError)
        ensures
            r == field_error(e, at),
    {
        DeriveError {
            kind: match e {
                GetFieldError::Unit => ErrorKind::UnitVariantUnsupported,
                GetFieldError::NotSingle => ErrorKind::NotSingleField,
            },
            alternative: at,
        }
    }
}

} // verus!
