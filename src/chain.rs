//! The subtype chain of a type: the type itself, then each layer that
//! peeling uncovers, outermost first.
use vstd::prelude::*;

use crate::ty::{lemma_same_tys_prefix, same_ty, same_tys, TypeDescriptor};

verus! {

/// The type with any enclosing parentheses removed.
pub open spec fn strip_parens(t: TypeDescriptor) -> TypeDescriptor
    decreases t,
{
    match t {
        TypeDescriptor::Parenthesized { inner } => strip_parens(*inner),
        _ => t,
    }
}

/// One traversal step inward: the first type argument of a named type, the
/// pointee of a pointer, the referent of a reference. Parentheses are seen
/// through without counting as a step. `None` at a leaf.
pub open spec fn peel(t: TypeDescriptor) -> Option<TypeDescriptor>
    decreases t,
{
    match t {
        TypeDescriptor::NamedGeneric { args, .. } => if args@.len() > 0 {
            Some(args@[0])
        } else {
            None
        },
        TypeDescriptor::Pointer { inner } => Some(*inner),
        TypeDescriptor::Reference { inner } => Some(*inner),
        TypeDescriptor::Parenthesized { inner } => peel(*inner),
        TypeDescriptor::Opaque { .. } => None,
    }
}

/// Every layer of `t`, outermost first, peeled until a leaf; parenthesized
/// layers do not appear.
pub open spec fn full_chain(t: TypeDescriptor) -> Seq<TypeDescriptor>
    decreases t,
{
    match t {
        TypeDescriptor::Parenthesized { inner } => full_chain(*inner),
        TypeDescriptor::NamedGeneric { args, .. } => if args@.len() > 0 {
            seq![t] + full_chain(args@[0])
        } else {
            seq![t]
        },
        TypeDescriptor::Pointer { inner } => seq![t] + full_chain(*inner),
        TypeDescriptor::Reference { inner } => seq![t] + full_chain(*inner),
        TypeDescriptor::Opaque { .. } => seq![t],
    }
}

/// The chain of `t` bounded by `depth`: at most `d` entries for `Some(d)`,
/// the whole chain for `None`.
pub open spec fn chain(t: TypeDescriptor, depth: Option<u32>) -> Seq<TypeDescriptor> {
    match depth {
        Some(d) => if (d as int) < full_chain(t).len() {
            full_chain(t).take(d as int)
        } else {
            full_chain(t)
        },
        None => full_chain(t),
    }
}

/// A chain holds at least the type itself.
pub proof fn lemma_full_chain_nonempty(t: TypeDescriptor)
    ensures
        full_chain(t).len() >= 1,
    decreases t,
{
    if let TypeDescriptor::Parenthesized { inner } = t {
        lemma_full_chain_nonempty(*inner);
    }
}

/// A chain bounded by `n` holds at most `n` entries, at least one where
/// `n` is positive, and is the whole chain where that is no longer than `n`.
pub proof fn lemma_chain_bounded(t: TypeDescriptor, n: u32)
    ensures
        chain(t, Some(n)).len() <= n,
        n >= 1 ==> chain(t, Some(n)).len() >= 1,
        full_chain(t).len() <= n ==> chain(t, Some(n)) == full_chain(t),
        full_chain(t).len() > n ==> chain(t, Some(n)) == full_chain(t).take(n as int),
{
    lemma_full_chain_nonempty(t);
}

/// The unbounded chain starts at the type without its parentheses, takes one
/// peeling step (parentheses seen through) from each entry to the next, and
/// ends at the first entry that cannot be peeled: its length is the number
/// of steps until a leaf, plus one.
pub proof fn lemma_unbounded_chain_peels(t: TypeDescriptor)
    ensures
        chain(t, None) == full_chain(t),
        full_chain(t).len() >= 1,
        full_chain(t)[0] == strip_parens(t),
        forall|i: int|
            0 <= i < full_chain(t).len() - 1 ==> {
                &&& #[trigger] peel(full_chain(t)[i]) is Some
                &&& full_chain(t)[i + 1] == strip_parens(peel(full_chain(t)[i])->0)
            },
        peel(full_chain(t).last()) is None,
    decreases t,
{
    lemma_full_chain_nonempty(t);
    match t {
        TypeDescriptor::Parenthesized { inner } => {
            lemma_unbounded_chain_peels(*inner);
        },
        TypeDescriptor::NamedGeneric { args, .. } => {
            if args@.len() > 0 {
                let a = args@[0];
                lemma_unbounded_chain_peels(a);
                let fc = full_chain(t);
                assert(fc == seq![t] + full_chain(a));
                assert forall|i: int| 0 <= i < fc.len() - 1 implies {
                    &&& #[trigger] peel(fc[i]) is Some
                    &&& fc[i + 1] == strip_parens(peel(fc[i])->0)
                } by {
                    if i > 0 {
                        assert(fc[i] == full_chain(a)[i - 1]);
                    }
                }
            }
        },
        TypeDescriptor::Pointer { inner } => {
            lemma_unbounded_chain_peels(*inner);
            let fc = full_chain(t);
            assert forall|i: int| 0 <= i < fc.len() - 1 implies {
                &&& #[trigger] peel(fc[i]) is Some
                &&& fc[i + 1] == strip_parens(peel(fc[i])->0)
            } by {
                if i > 0 {
                    assert(fc[i] == full_chain(*inner)[i - 1]);
                }
            }
        },
        TypeDescriptor::Reference { inner } => {
            lemma_unbounded_chain_peels(*inner);
            let fc = full_chain(t);
            assert forall|i: int| 0 <= i < fc.len() - 1 implies {
                &&& #[trigger] peel(fc[i]) is Some
                &&& fc[i + 1] == strip_parens(peel(fc[i])->0)
            } by {
                if i > 0 {
                    assert(fc[i] == full_chain(*inner)[i - 1]);
                }
            }
        },
        TypeDescriptor::Opaque { .. } => {},
    }
}

/// Parentheses around a type change nothing in its chain.
pub proof fn lemma_parens_free(x: TypeDescriptor, depth: Option<u32>)
    ensures
        chain(TypeDescriptor::Parenthesized { inner: Box::new(x) }, depth) == chain(x, depth),
{
}

/// The number of peeling steps from `t` to a leaf.
pub open spec fn layers(t: TypeDescriptor) -> nat
    decreases t,
{
    match t {
        TypeDescriptor::Parenthesized { inner } => layers(*inner),
        TypeDescriptor::NamedGeneric { args, .. } => if args@.len() > 0 {
            1 + layers(args@[0])
        } else {
            0
        },
        TypeDescriptor::Pointer { inner } => 1 + layers(*inner),
        TypeDescriptor::Reference { inner } => 1 + layers(*inner),
        TypeDescriptor::Opaque { .. } => 0,
    }
}

/// Syntactically equal types have as many layers.
pub proof fn lemma_same_ty_layers(a: TypeDescriptor, b: TypeDescriptor)
    requires
        same_ty(a, b),
    ensures
        layers(a) == layers(b),
    decreases a,
{
    match a {
        TypeDescriptor::NamedGeneric { args: a1, .. } => {
            let a2 = b->NamedGeneric_args;
            assert(same_tys(a1@, a2@));
            if a1@.len() > 0 {
                if !same_ty(a1@[0], a2@[0]) {
                    lemma_same_tys_prefix(a1@, a2@, 0);
                }
                assert(decreases_to!(a => a->NamedGeneric_args));
                lemma_same_ty_layers(a1@[0], a2@[0]);
            }
        },
        TypeDescriptor::Pointer { inner } => lemma_same_ty_layers(*inner, *b->Pointer_inner),
        TypeDescriptor::Reference { inner } => lemma_same_ty_layers(*inner, *b->Reference_inner),
        TypeDescriptor::Parenthesized { inner } => lemma_same_ty_layers(
            *inner,
            *b->Parenthesized_inner,
        ),
        TypeDescriptor::Opaque { .. } => {},
    }
}

/// Each entry of a chain has one layer fewer than the entry before it.
pub proof fn lemma_chain_layers(t: TypeDescriptor)
    ensures
        full_chain(t).len() == layers(t) + 1,
        forall|i: int| 0 <= i < full_chain(t).len() ==> layers(#[trigger] full_chain(t)[i]) == layers(t) - i,
    decreases t,
{
    match t {
        TypeDescriptor::Parenthesized { inner } => lemma_chain_layers(*inner),
        TypeDescriptor::NamedGeneric { args, .. } => {
            if args@.len() > 0 {
                lemma_chain_layers(args@[0]);
                assert forall|i: int| 0 <= i < full_chain(t).len() implies layers(
                    #[trigger] full_chain(t)[i],
                ) == layers(t) - i by {
                    if i > 0 {
                        assert(full_chain(t)[i] == full_chain(args@[0])[i - 1]);
                    }
                }
            }
        },
        TypeDescriptor::Pointer { inner } => {
            lemma_chain_layers(*inner);
            assert forall|i: int| 0 <= i < full_chain(t).len() implies layers(
                #[trigger] full_chain(t)[i],
            ) == layers(t) - i by {
                if i > 0 {
                    assert(full_chain(t)[i] == full_chain(*inner)[i - 1]);
                }
            }
        },
        TypeDescriptor::Reference { inner } => {
            lemma_chain_layers(*inner);
            assert forall|i: int| 0 <= i < full_chain(t).len() implies layers(
                #[trigger] full_chain(t)[i],
            ) == layers(t) - i by {
                if i > 0 {
                    assert(full_chain(t)[i] == full_chain(*inner)[i - 1]);
                }
            }
        },
        TypeDescriptor::Opaque { .. } => {},
    }
}

/// No two entries of a chain are syntactically equal.
pub proof fn lemma_chain_distinct(t: TypeDescriptor, depth: Option<u32>)
    ensures
        forall|i: int, j: int|
            0 <= i < j < chain(t, depth).len() ==> !same_ty(
                #[trigger] chain(t, depth)[i],
                #[trigger] chain(t, depth)[j],
            ),
{
    lemma_chain_layers(t);
    let c = chain(t, depth);
    assert forall|i: int, j: int| 0 <= i < j < c.len() implies !same_ty(#[trigger] c[i], #[trigger] c[j]) by {
        assert(c[i] == full_chain(t)[i] && c[j] == full_chain(t)[j]);
        if same_ty(c[i], c[j]) {
            lemma_same_ty_layers(c[i], c[j]);
        }
    }
}

/// The descriptors that a sequence of borrowed descriptors points to.
pub open spec fn derefs<'a>(s: Seq<&'a TypeDescriptor>) -> Seq<TypeDescriptor> {
    s.map_values(|t: &'a TypeDescriptor| *t)
}

/// Builds the chain of `top`, bounded by `depth`. The entries borrow from
/// `top`.
pub fn subtypes_list<'a>(top: &'a TypeDescriptor, depth: Option<u32>) -> (r: Vec<&'a TypeDescriptor>)
    ensures
        derefs(r@) == chain(*top, depth),
{
    let mut list: Vec<&'a TypeDescriptor> = Vec::new();
    let mut current: &'a TypeDescriptor = top;
    loop
        invariant_except_break
            derefs(list@) + full_chain(*current) == full_chain(*top),
        invariant
            depth is Some ==> list.len() <= depth->0,
        ensures
            derefs(list@) == chain(*top, depth),
        decreases *current,
    {
        if let Some(d) = depth {
            if list.len() == d as usize {
                proof {
                    lemma_full_chain_nonempty(*current);
                    assert((derefs(list@) + full_chain(*current)).take(d as int) =~= derefs(list@));
                }
                break;
            }
        }
        match current {
            TypeDescriptor::Parenthesized { inner } => {
                current = inner;
            },
            TypeDescriptor::NamedGeneric { args, .. } => {
                list.push(current);
                if args.len() > 0 {
                    proof {
                        broadcast use vstd::std_specs::vec::axiom_vec_index_decreases;

                        assert(decreases_to!(*current => (*current)->NamedGeneric_args));
                        assert(decreases_to!(*args => args[0]));
                    }
                    let ghost prev = *current;
                    current = &args[0];
                    assert(derefs(list@) + full_chain(*current) =~= derefs(list@).drop_last() + full_chain(prev));
                } else {
                    assert(derefs(list@) =~= full_chain(*top));
                    break;
                }
            },
            TypeDescriptor::Pointer { inner } => {
                list.push(current);
                let ghost prev = *current;
                current = inner;
                assert(derefs(list@) + full_chain(*current) =~= derefs(list@).drop_last() + full_chain(prev));
            },
            TypeDescriptor::Reference { inner } => {
                list.push(current);
                let ghost prev = *current;
                current = inner;
                assert(derefs(list@) + full_chain(*current) =~= derefs(list@).drop_last() + full_chain(prev));
            },
            TypeDescriptor::Opaque { .. } => {
                list.push(current);
                assert(derefs(list@) =~= full_chain(*top));
                break;
            },
        }
    }
    list
}

} // verus!
