//! Synthesis of wrap (`From`) and unwrap (`From` / `TryFrom`) conversions
//! between a single-field wrapper type and the types nested inside it.
//!
//! The library works on a resolved description of the wrapper declaration:
//! its type descriptors, its per-field and per-alternative attributes, and
//! the names of its type parameters. It returns a structured description of
//! each conversion to emit, or the first error that aborts the derivation.

pub mod attrib;
pub mod chain;
pub mod decl;
pub mod derive;
pub mod error;
pub mod forward;
pub mod ty;
pub mod unwrap;
pub mod wrap;

pub use attrib::{StructAttributes, VariantAttributes};
pub use chain::subtypes_list;
pub use derive::{derive_unwrap, derive_wrap, Derive, Unwrapped};
pub use decl::{get_field, Enum, Field, Fields, GetFieldError, Struct, Variant};
pub use error::{DeriveError, ErrorKind};
pub use forward::{generate_inner_conversions, Expr};
pub use ty::{same_type, TypeDescriptor};
pub use unwrap::UnwrapImpl;
pub use wrap::{mentions_generic, WrapImpl};
