//! The expression that rebuilds an outer layer of a chain from a value of an
//! inner one.
use vstd::prelude::*;

use crate::chain::derefs;
use crate::ty::TypeDescriptor;

verus! {

/// A conversion expression over the input value of a conversion.
#[derive(Debug, PartialEq, Eq)]
pub enum Expr<'a> {
    /// The input value itself.
    Input,
    /// `Container::<_>::from(inner)`, the container named by a layer.
    FromInner { container: &'a String, inner: Box<Expr<'a>> },
    /// `&inner`, the address of the inner expression.
    AddressOf { inner: Box<Expr<'a>> },
}

/// The mathematical content of an [`Expr`].
pub enum ExprView {
    Input,
    FromInner { container: Seq<char>, inner: Box<ExprView> },
    AddressOf { inner: Box<ExprView> },
}

/// The view of an expression: container names as character sequences.
pub open spec fn expr_view<'a>(e: Expr<'a>) -> ExprView
    decreases e,
{
    match e {
        Expr::Input => ExprView::Input,
        Expr::FromInner { container, inner } => ExprView::FromInner {
            container: container@,
            inner: Box::new(expr_view(*inner)),
        },
        Expr::AddressOf { inner } => ExprView::AddressOf { inner: Box::new(expr_view(*inner)) },
    }
}

/// Wraps `e` in the construction step of one layer: `from` for a named
/// container, address-of for a pointer or a reference, nothing otherwise.
pub open spec fn wrap_layer(layer: TypeDescriptor, e: ExprView) -> ExprView {
    match layer {
        TypeDescriptor::NamedGeneric { name, .. } => ExprView::FromInner {
            container: name@,
            inner: Box::new(e),
        },
        TypeDescriptor::Pointer { .. } => ExprView::AddressOf { inner: Box::new(e) },
        TypeDescriptor::Reference { .. } => ExprView::AddressOf { inner: Box::new(e) },
        _ => e,
    }
}

/// The expression that builds a value of the first of `layers` from a value
/// of the type just inside the last one: the input, wrapped by each layer
/// from the innermost outward.
pub open spec fn inner_conversions(layers: Seq<TypeDescriptor>) -> ExprView
    decreases layers.len(),
{
    if layers.len() == 0 {
        ExprView::Input
    } else {
        wrap_layer(layers[0], inner_conversions(layers.drop_first()))
    }
}

/// The expression for the first `n` entries of a chain: it turns a value of
/// the entry at `n` into a value of the entry at 0.
pub fn generate_inner_conversions<'a>(types: &Vec<&'a TypeDescriptor>, n: usize) -> (e: Expr<'a>)
    requires
        n <= types.len(),
    ensures
        expr_view(e) == inner_conversions(derefs(types@).take(n as int)),
{
    let mut acc: Expr<'a> = Expr::Input;
    let mut i: usize = n;
    while i > 0
        invariant
            i <= n <= types.len(),
            expr_view(acc) == inner_conversions(derefs(types@).subrange(i as int, n as int)),
        decreases i,
    {
        i = i - 1;
        let layer: &'a TypeDescriptor = types[i];
        proof {
            assert(derefs(types@).subrange(i as int, n as int).drop_first() =~= derefs(
                types@,
            ).subrange(i + 1, n as int));
        }
        acc = match layer {
            TypeDescriptor::NamedGeneric { name, .. } => Expr::FromInner {
                container: name,
                inner: Box::new(acc),
            },
            TypeDescriptor::Pointer { .. } => Expr::AddressOf { inner: Box::new(acc) },
            TypeDescriptor::Reference { .. } => Expr::AddressOf { inner: Box::new(acc) },
            _ => acc,
        };
    }
    assert(derefs(types@).subrange(0, n as int) =~= derefs(types@).take(n as int));
    acc
}

} // verus!
