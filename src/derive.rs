//! The two derivations over a struct or an enum declaration.
use vstd::prelude::*;

use crate::chain::{lemma_unbounded_chain_peels, strip_parens};
use crate::decl::{field_of, Enum, Field, Struct};
use crate::forward::ExprView;
use crate::error::DeriveError;
use crate::unwrap::{enum_unwraps, struct_unwrap, unwrap_result_view, UnwrapImpl, UnwrapView};
use crate::wrap::{enum_wraps, struct_wraps, wrap_result_view, WrapImpl, WrapView};

verus! {

/// A declaration that conversions are derived for.
#[derive(Debug)]
pub enum Derive {
    Struct(Struct),
    Enum(Enum),
}

/// The unwrap conversions of a declaration.
#[derive(Debug)]
pub enum Unwrapped<'a> {
    /// The struct converts into the declared type of this, its only field.
    Struct(&'a Field),
    /// The enum converts fallibly into each of these targets.
    Enum(Vec<UnwrapImpl<'a>>),
}

/// The mathematical content of an [`Unwrapped`].
pub enum UnwrappedView {
    Struct(Field),
    Enum(Seq<UnwrapView>),
}

/// The view of the result of an unwrap derivation.
pub open spec fn unwrapped_view<'a>(r: Result<Unwrapped<'a>, DeriveError>) -> Result<
    UnwrappedView,
    DeriveError,
> {
    match r {
        Ok(Unwrapped::Struct(f)) => Ok(UnwrappedView::Struct(*f)),
        Ok(Unwrapped::Enum(v)) => match unwrap_result_view(Ok(v)) {
            Ok(s) => Ok(UnwrappedView::Enum(s)),
            Err(e) => Err(e),
        },
        Err(e) => Err(e),
    }
}

/// What deriving wrap conversions for a declaration gives.
pub open spec fn wraps_of(d: Derive) -> Result<Seq<WrapView>, DeriveError> {
    match d {
        Derive::Struct(s) => struct_wraps(s),
        Derive::Enum(e) => enum_wraps(e),
    }
}

/// What deriving unwrap conversions for a declaration gives.
pub open spec fn unwraps_of(d: Derive) -> Result<UnwrappedView, DeriveError> {
    match d {
        Derive::Struct(s) => match struct_unwrap(s) {
            Ok(f) => Ok(UnwrappedView::Struct(f)),
            Err(e) => Err(e),
        },
        Derive::Enum(e) => match enum_unwraps(e) {
            Ok(s) => Ok(UnwrappedView::Enum(s)),
            Err(err) => Err(err),
        },
    }
}

/// For a struct whose only field sets no wrap depth, there is exactly one
/// conversion in: from the field's declared type (without enclosing
/// parentheses), storing the input value itself in the field. The conversion
/// out yields that same field. Converting a value in and back out thus gives
/// it back.
pub proof fn lemma_round_trip_default(s: Struct)
    requires
        field_of(s.fields) is Ok,
        field_of(s.fields)->Ok_0.attrs.wrap_depth is None,
    ensures
        ({
            let f = field_of(s.fields)->Ok_0;
            &&& struct_wraps(s) == Ok::<Seq<WrapView>, DeriveError>(
                seq![WrapView { source: strip_parens(f.ty), variant: None, field: f, body: ExprView::Input }],
            )
            &&& struct_unwrap(s) == Ok::<Field, DeriveError>(f)
        }),
{
    let f = field_of(s.fields)->Ok_0;
    lemma_unbounded_chain_peels(f.ty);
    let c = crate::chain::chain(f.ty, Some(1));
    assert(c =~= seq![strip_parens(f.ty)]);
    assert(crate::wrap::forward_impls(c, None, f) =~= seq![
        WrapView { source: strip_parens(f.ty), variant: None, field: f, body: ExprView::Input },
    ]) by {
        assert(c.take(0) =~= Seq::<crate::ty::TypeDescriptor>::empty());
    }
}

impl Derive {
    /// The wrap conversions of the declaration.
    pub fn derive_wrap<'a>(&'a self) -> (r: Result<Vec<WrapImpl<'a>>, DeriveError>)
        ensures
            wrap_result_view(r) == wraps_of(*self),
    {
        match self {
            Derive::Struct(s) => s.derive_wrap(),
            Derive::Enum(e) => e.derive_wrap(),
        }
    }

    /// The unwrap conversions of the declaration.
    pub fn derive_unwrap<'a>(&'a self) -> (r: Result<Unwrapped<'a>, DeriveError>)
        ensures
            unwrapped_view(r) == unwraps_of(*self),
    {
        match self {
            Derive::Struct(s) => match s.derive_unwrap() {
                Ok(f) => Ok(Unwrapped::Struct(f)),
                Err(e) => Err(e),
            },
            Derive::Enum(e) => match e.derive_unwrap() {
                Ok(v) => Ok(Unwrapped::Enum(v)),
                Err(err) => Err(err),
            },
        }
    }
}

/// Derives the conversions into the declared type from the types nested in
/// its field (`From` impls).
pub fn derive_wrap<'a>(input: &'a Derive) -> (r: Result<Vec<WrapImpl<'a>>, DeriveError>)
    ensures
        wrap_result_view(r) == wraps_of(*input),
{
    input.derive_wrap()
}

/// Derives the conversions out of the declared type into its fields' types
/// (`From` for a struct, `TryFrom` for an enum).
pub fn derive_unwrap<'a>(input: &'a Derive) -> (r: Result<Unwrapped<'a>, DeriveError>)
    ensures
        unwrapped_view(r) == unwraps_of(*input),
{
    input.derive_unwrap()
}

} // verus!
