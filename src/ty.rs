//! The tree model of a type occurring in a declaration.
use vstd::prelude::*;

verus! {

/// A type as it is written in a declaration, reduced to the structure that
/// conversion synthesis follows.
#[derive(Debug, PartialEq, Eq)]
pub enum TypeDescriptor {
    /// A named type, possibly applied to type arguments (`Box<T>`, `i64`, `T`).
    NamedGeneric { name: String, args: Vec<TypeDescriptor> },
    /// A raw pointer to the inner type.
    Pointer { inner: Box<TypeDescriptor> },
    /// A reference to the inner type.
    Reference { inner: Box<TypeDescriptor> },
    /// A type written between parentheses.
    Parenthesized { inner: Box<TypeDescriptor> },
    /// Any other type (a tuple, an array, a function pointer, ...), kept by its
    /// spelling.
    Opaque { spelling: String },
}

/// Syntactic equality of two descriptors: same shape, and names and
/// spellings equal character by character.
pub open spec fn same_ty(a: TypeDescriptor, b: TypeDescriptor) -> bool
    decreases a,
{
    match a {
        TypeDescriptor::NamedGeneric { name: n1, args: a1 } => match b {
            TypeDescriptor::NamedGeneric { name: n2, args: a2 } => n1@ == n2@ && same_tys(a1@, a2@),
            _ => false,
        },
        TypeDescriptor::Pointer { inner: i1 } => match b {
            TypeDescriptor::Pointer { inner: i2 } => same_ty(*i1, *i2),
            _ => false,
        },
        TypeDescriptor::Reference { inner: i1 } => match b {
            TypeDescriptor::Reference { inner: i2 } => same_ty(*i1, *i2),
            _ => false,
        },
        TypeDescriptor::Parenthesized { inner: i1 } => match b {
            TypeDescriptor::Parenthesized { inner: i2 } => same_ty(*i1, *i2),
            _ => false,
        },
        TypeDescriptor::Opaque { spelling: s1 } => match b {
            TypeDescriptor::Opaque { spelling: s2 } => s1@ == s2@,
            _ => false,
        },
    }
}

/// Pointwise syntactic equality of two sequences of descriptors.
pub open spec fn same_tys(s1: Seq<TypeDescriptor>, s2: Seq<TypeDescriptor>) -> bool
    decreases s1,
{
    &&& s1.len() == s2.len()
    &&& s1.len() > 0 ==> {
        &&& same_ty(s1.last(), s2.last())
        &&& same_tys(s1.drop_last(), s2.drop_last())
    }
}

pub(crate) proof fn lemma_same_tys_prefix(s1: Seq<TypeDescriptor>, s2: Seq<TypeDescriptor>, k: int)
    requires
        0 <= k < s1.len(),
        s1.len() == s2.len(),
        !same_ty(s1[k], s2[k]),
    ensures
        !same_tys(s1, s2),
    decreases s1.len(),
{
    if k < s1.len() - 1 {
        lemma_same_tys_prefix(s1.drop_last(), s2.drop_last(), k);
    }
}

/// Every descriptor is syntactically equal to itself.
pub proof fn lemma_same_ty_refl(t: TypeDescriptor)
    ensures
        same_ty(t, t),
    decreases t,
{
    match t {
        TypeDescriptor::NamedGeneric { args, .. } => {
            assert(decreases_to!(t => t->NamedGeneric_args));
            lemma_same_tys_refl(args@);
        },
        TypeDescriptor::Pointer { inner } => lemma_same_ty_refl(*inner),
        TypeDescriptor::Reference { inner } => lemma_same_ty_refl(*inner),
        TypeDescriptor::Parenthesized { inner } => lemma_same_ty_refl(*inner),
        TypeDescriptor::Opaque { .. } => {},
    }
}

/// Every sequence of descriptors is pointwise syntactically equal to itself.
pub proof fn lemma_same_tys_refl(s: Seq<TypeDescriptor>)
    ensures
        same_tys(s, s),
    decreases s,
{
    if s.len() > 0 {
        lemma_same_ty_refl(s.last());
        lemma_same_tys_refl(s.drop_last());
    }
}

/// Decides syntactic equality of two descriptors.
pub fn same_type(a: &TypeDescriptor, b: &TypeDescriptor) -> (r: bool)
    ensures
        r == same_ty(*a, *b),
    decreases *a,
{
    match a {
        TypeDescriptor::NamedGeneric { name: n1, args: a1 } => match b {
            TypeDescriptor::NamedGeneric { name: n2, args: a2 } => {
                if !n1.eq(n2) || a1.len() != a2.len() {
                    assert(n1@ != n2@ || !same_tys((*a1)@, (*a2)@));
                    return false;
                }
                let mut i: usize = 0;
                while i < a1.len()
                    invariant
                        *a == (TypeDescriptor::NamedGeneric { name: *n1, args: *a1 }),
                        *b == (TypeDescriptor::NamedGeneric { name: *n2, args: *a2 }),
                        n1@ == n2@,
                        a1.len() == a2.len(),
                        i <= a1.len(),
                        same_tys((*a1)@.take(i as int), (*a2)@.take(i as int)),
                    decreases a1.len() - i,
                {
                    proof {
                        broadcast use vstd::std_specs::vec::axiom_vec_index_decreases;

                        assert(decreases_to!(*a => (*a)->NamedGeneric_args));
                        assert(decreases_to!(*a1 => a1[i as int]));
                    }
                    if !same_type(&a1[i], &a2[i]) {
                        proof {
                            lemma_same_tys_prefix((*a1)@, (*a2)@, i as int);
                        }
                        return false;
                    }
                    proof {
                        let k = i as int;
                        assert((*a1)@.take(k + 1).drop_last() =~= (*a1)@.take(k));
                        assert((*a2)@.take(k + 1).drop_last() =~= (*a2)@.take(k));
                    }
                    i = i + 1;
                }
                proof {
                    assert((*a1)@.take(i as int) =~= (*a1)@);
                    assert((*a2)@.take(i as int) =~= (*a2)@);
                }
                true
            },
            _ => false,
        },
        TypeDescriptor::Pointer { inner: i1 } => match b {
            TypeDescriptor::Pointer { inner: i2 } => same_type(i1, i2),
            _ => false,
        },
        TypeDescriptor::Reference { inner: i1 } => match b {
            TypeDescriptor::Reference { inner: i2 } => same_type(i1, i2),
            _ => false,
        },
        TypeDescriptor::Parenthesized { inner: i1 } => match b {
            TypeDescriptor::Parenthesized { inner: i2 } => same_type(i1, i2),
            _ => false,
        },
        TypeDescriptor::Opaque { spelling: s1 } => match b {
            TypeDescriptor::Opaque { spelling: s2 } => s1.eq(s2),
            _ => false,
        },
    }
}

} // verus!
