//! The declaration that conversions are derived for.
use vstd::prelude::*;

use crate::attrib::{StructAttributes, VariantAttributes};
use crate::ty::TypeDescriptor;

verus! {

/// A field of a struct or of an enum variant.
#[derive(Debug)]
pub struct Field {
    /// The field's name; `None` for a positional field.
    pub ident: Option<String>,
    /// The field's declared type.
    pub ty: TypeDescriptor,
    /// The field's attributes.
    pub attrs: StructAttributes,
}

/// The fields of a struct or of an enum variant.
#[derive(Debug)]
pub enum Fields {
    /// `{ a: A, ... }`
    Named(Vec<Field>),
    /// `(A, ...)`
    Unnamed(Vec<Field>),
    /// No fields at all.
    Unit,
}

/// An alternative of an enum.
#[derive(Debug)]
pub struct Variant {
    pub ident: String,
    pub fields: Fields,
    pub attrs: VariantAttributes,
}

/// A struct declaration.
#[derive(Debug)]
pub struct Struct {
    pub ident: String,
    /// The names of the struct's type parameters.
    pub generics: Vec<String>,
    pub fields: Fields,
}

/// An enum declaration.
#[derive(Debug)]
pub struct Enum {
    pub ident: String,
    /// The names of the enum's type parameters.
    pub generics: Vec<String>,
    pub variants: Vec<Variant>,
}

/// Why a field list does not hold exactly one field.
#[derive(PartialEq, Eq, Structural, Debug, Clone, Copy)]
pub enum GetFieldError {
    /// There are no fields at all.
    Unit,
    /// There are zero or several fields between braces or parentheses.
    NotSingle,
}

/// The only field of a field list, or why there is none.
pub open spec fn field_of(fields: Fields) -> Result<Field, GetFieldError> {
    match fields {
        Fields::Named(v) => if v@.len() == 1 {
            Ok(v@[0])
        } else {
            Err(GetFieldError::NotSingle)
        },
        Fields::Unnamed(v) => if v@.len() == 1 {
            Ok(v@[0])
        } else {
            Err(GetFieldError::NotSingle)
        },
        Fields::Unit => Err(GetFieldError::Unit),
    }
}

/// Returns the only field of a field list.
pub fn get_field(fields: &Fields) -> (r: Result<&Field, GetFieldError>)
    ensures
        match r {
            Ok(f) => field_of(*fields) == Ok::<Field, GetFieldError>(*f),
            Err(e) => field_of(*fields) == Err::<Field, GetFieldError>(e),
        },
{
    match fields {
        Fields::Named(v) => {
            if v.len() != 1 {
                Err(GetFieldError::NotSingle)
            } else {
                Ok(&v[0])
            }
        },
        Fields::Unnamed(v) => {
            if v.len() != 1 {
                Err(GetFieldError::NotSingle)
            } else {
                Ok(&v[0])
            }
        },
        Fields::Unit => Err(GetFieldError::Unit),
    }
}

} // verus!
