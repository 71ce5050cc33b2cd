//! Conversions into a wrapper type: one for each entry of the chain of its
//! field's type.
use vstd::prelude::*;

use crate::attrib::depth_bound;
use crate::chain::{chain, derefs, lemma_chain_distinct, subtypes_list};
use crate::decl::{field_of, get_field, Enum, Field, Struct};
use crate::error::{field_error, DeriveError, ErrorKind};
use crate::forward::{expr_view, generate_inner_conversions, inner_conversions, Expr, ExprView};
use crate::ty::{same_ty, same_type, TypeDescriptor};

verus! {

/// One conversion into the wrapper: from `source`, by building `field` (of
/// the struct, or of the variant at index `variant`) from `body`.
#[derive(Debug)]
pub struct WrapImpl<'a> {
    pub source: &'a TypeDescriptor,
    pub variant: Option<usize>,
    pub field: &'a Field,
    pub body: Expr<'a>,
}

/// The mathematical content of a [`WrapImpl`].
pub struct WrapView {
    pub source: TypeDescriptor,
    pub variant: Option<usize>,
    pub field: Field,
    pub body: ExprView,
}

/// The view of one conversion in.
pub open spec fn wrap_view<'a>(w: WrapImpl<'a>) -> WrapView {
    WrapView { source: *w.source, variant: w.variant, field: *w.field, body: expr_view(w.body) }
}

/// The views of a sequence of conversions in.
pub open spec fn wraps_view<'a>(v: Seq<WrapImpl<'a>>) -> Seq<WrapView> {
    v.map_values(|w: WrapImpl<'a>| wrap_view(w))
}

/// The view of the result of a wrap derivation.
pub open spec fn wrap_result_view<'a>(r: Result<Vec<WrapImpl<'a>>, DeriveError>) -> Result<
    Seq<WrapView>,
    DeriveError,
> {
    match r {
        Ok(v) => Ok(wraps_view(v@)),
        Err(e) => Err(e),
    }
}

/// `t` is the type parameter named `n`.
pub open spec fn is_param(t: TypeDescriptor, n: String) -> bool {
    t is NamedGeneric && t->NamedGeneric_name@ == n@
}

/// Some entry of `c` is one of the type parameters `g`.
pub open spec fn names_param(c: Seq<TypeDescriptor>, g: Seq<String>) -> bool {
    exists|i: int, k: int| 0 <= i < c.len() && 0 <= k < g.len() && #[trigger] is_param(c[i], g[k])
}

/// One conversion for each entry of the chain `c`: the entry at `i` is
/// wrapped by the first `i` entries.
pub open spec fn forward_impls(c: Seq<TypeDescriptor>, variant: Option<usize>, f: Field) -> Seq<
    WrapView,
> {
    Seq::new(
        c.len(),
        |i: int| WrapView { source: c[i], variant, field: f, body: inner_conversions(c.take(i)) },
    )
}

/// What deriving wrap conversions for a struct gives.
pub open spec fn struct_wraps(s: Struct) -> Result<Seq<WrapView>, DeriveError> {
    match field_of(s.fields) {
        Err(e) => Err(field_error(e, None)),
        Ok(f) => {
            let c = chain(f.ty, depth_bound(f.attrs.wrap_depth));
            if c.len() > 1 && names_param(c, s.generics@) {
                Err(DeriveError { kind: ErrorKind::GenericConflict, alternative: None })
            } else {
                Ok(forward_impls(c, None, f))
            }
        },
    }
}

/// Some conversion of `acc` starts from a type syntactically equal to `t`.
pub open spec fn has_source(acc: Seq<WrapView>, t: TypeDescriptor) -> bool {
    exists|j: int| 0 <= j < acc.len() && same_ty(#[trigger] acc[j].source, t)
}

/// `acc` extended by the conversions for the first `k` entries of the chain
/// `c` of variant `vi`, or `None` where one of them starts from a type that
/// some earlier conversion starts from.
pub open spec fn extend_wraps(
    acc: Seq<WrapView>,
    c: Seq<TypeDescriptor>,
    vi: usize,
    f: Field,
    k: int,
) -> Option<Seq<WrapView>>
    decreases k,
{
    if k <= 0 {
        Some(acc)
    } else {
        match extend_wraps(acc, c, vi, f, k - 1) {
            None => None,
            Some(prev) => if has_source(prev, c[k - 1]) {
                None
            } else {
                Some(
                    prev.push(
                        WrapView {
                            source: c[k - 1],
                            variant: Some(vi),
                            field: f,
                            body: inner_conversions(c.take(k - 1)),
                        },
                    ),
                )
            },
        }
    }
}

/// What deriving wrap conversions for the first `n` variants of an enum
/// gives, in declaration order.
pub open spec fn enum_wraps_upto(e: Enum, n: int) -> Result<Seq<WrapView>, DeriveError>
    decreases n,
{
    if n <= 0 {
        Ok(Seq::empty())
    } else {
        match enum_wraps_upto(e, n - 1) {
            Err(err) => Err(err),
            Ok(prev) => {
                let v = e.variants@[n - 1];
                let at = Some((n - 1) as usize);
                if v.attrs.no_wrap {
                    Ok(prev)
                } else {
                    match field_of(v.fields) {
                        Err(fe) => Err(field_error(fe, at)),
                        Ok(f) => {
                            let c = chain(f.ty, depth_bound(v.attrs.wrap_depth));
                            if prev.len() > 0 && names_param(c, e.generics@) {
                                Err(DeriveError { kind: ErrorKind::GenericConflict, alternative: at })
                            } else {
                                match extend_wraps(prev, c, (n - 1) as usize, f, c.len() as int) {
                                    None => Err(
                                        DeriveError {
                                            kind: ErrorKind::DuplicateInnerType,
                                            alternative: at,
                                        },
                                    ),
                                    Some(acc) => Ok(acc),
                                }
                            }
                        },
                    }
                }
            },
        }
    }
}

/// What deriving wrap conversions for an enum gives.
pub open spec fn enum_wraps(e: Enum) -> Result<Seq<WrapView>, DeriveError> {
    enum_wraps_upto(e, e.variants@.len() as int)
}

proof fn lemma_upto_err_stays(e: Enum, n: int, m: int)
    requires
        0 <= n <= m,
        enum_wraps_upto(e, n) is Err,
    ensures
        enum_wraps_upto(e, m) == enum_wraps_upto(e, n),
    decreases m - n,
{
    if n < m {
        lemma_upto_err_stays(e, n, m - 1);
    }
}

proof fn lemma_extend_none_stays(acc: Seq<WrapView>, c: Seq<TypeDescriptor>, vi: usize, f: Field, k: int, m: int)
    requires
        0 <= k <= m,
        extend_wraps(acc, c, vi, f, k) is None,
    ensures
        extend_wraps(acc, c, vi, f, m) is None,
    decreases m - k,
{
    if k < m {
        lemma_extend_none_stays(acc, c, vi, f, k, m - 1);
    }
}

proof fn lemma_extend_some(acc: Seq<WrapView>, c: Seq<TypeDescriptor>, vi: usize, f: Field, k: int)
    requires
        0 <= k <= c.len(),
        extend_wraps(acc, c, vi, f, k) is Some,
    ensures
        ({
            let r = extend_wraps(acc, c, vi, f, k)->Some_0;
            &&& r.len() == acc.len() + k
            &&& forall|j: int| 0 <= j < acc.len() ==> r[j] == acc[j]
            &&& forall|j: int|
                0 <= j < k ==> (#[trigger] r[acc.len() + j]).source == c[j] && r[acc.len()
                    + j].variant == Some(vi)
            &&& forall|j: int| 0 <= j < k ==> !has_source(r.take(acc.len() + j), #[trigger] c[j])
        }),
    decreases k,
{
    if k > 0 {
        lemma_extend_some(acc, c, vi, f, k - 1);
        let p = extend_wraps(acc, c, vi, f, k - 1)->Some_0;
        let r = extend_wraps(acc, c, vi, f, k)->Some_0;
        assert(r.take(acc.len() + k - 1) =~= p);
        assert forall|j: int| 0 <= j < k implies !has_source(r.take(acc.len() + j), #[trigger] c[j]) by {
            if j < k - 1 {
                assert(r.take(acc.len() + j) =~= p.take(acc.len() + j));
            }
        }
    }
}

/// An enum of two variants, both converting, whose chains hold two
/// syntactically equal types, is refused with `DuplicateInnerType`, unless
/// the second chain passes through a type parameter.
pub proof fn lemma_duplicate_refused(e: Enum, i0: int, i1: int)
    requires
        e.variants@.len() == 2,
        !e.variants@[0].attrs.no_wrap,
        !e.variants@[1].attrs.no_wrap,
        field_of(e.variants@[0].fields) is Ok,
        field_of(e.variants@[1].fields) is Ok,
        ({
            let c0 = chain(
                field_of(e.variants@[0].fields)->Ok_0.ty,
                depth_bound(e.variants@[0].attrs.wrap_depth),
            );
            let c1 = chain(
                field_of(e.variants@[1].fields)->Ok_0.ty,
                depth_bound(e.variants@[1].attrs.wrap_depth),
            );
            &&& 0 <= i0 < c0.len()
            &&& 0 <= i1 < c1.len()
            &&& same_ty(c0[i0], c1[i1])
            &&& !names_param(c1, e.generics@)
        }),
    ensures
        enum_wraps(e) is Err,
        enum_wraps(e)->Err_0.kind == ErrorKind::DuplicateInnerType,
{
    let f0 = field_of(e.variants@[0].fields)->Ok_0;
    let f1 = field_of(e.variants@[1].fields)->Ok_0;
    let c0 = chain(f0.ty, depth_bound(e.variants@[0].attrs.wrap_depth));
    let c1 = chain(f1.ty, depth_bound(e.variants@[1].attrs.wrap_depth));
    assert(enum_wraps_upto(e, 0) == Ok::<Seq<WrapView>, DeriveError>(Seq::empty()));
    let ext0 = extend_wraps(Seq::empty(), c0, 0, f0, c0.len() as int);
    if ext0 is Some {
        lemma_extend_some(Seq::empty(), c0, 0, f0, c0.len() as int);
        let acc = ext0->Some_0;
        assert(enum_wraps_upto(e, 1) == Ok::<Seq<WrapView>, DeriveError>(acc));
        let ext1 = extend_wraps(acc, c1, 1, f1, c1.len() as int);
        if ext1 is Some {
            lemma_extend_some(acc, c1, 1, f1, c1.len() as int);
            let r = ext1->Some_0;
            assert(r.take(acc.len() + i1)[i0] == acc[i0]);
            assert(has_source(r.take(acc.len() + i1), c1[i1]));
        }
    }
}

proof fn lemma_extend_ok(acc: Seq<WrapView>, c: Seq<TypeDescriptor>, vi: usize, f: Field, k: int)
    requires
        0 <= k <= c.len(),
        forall|m: int, j: int|
            0 <= m < k && 0 <= j < acc.len() ==> !same_ty(#[trigger] acc[j].source, #[trigger] c[m]),
        forall|l: int, m: int| 0 <= l < m < k ==> !same_ty(#[trigger] c[l], #[trigger] c[m]),
    ensures
        extend_wraps(acc, c, vi, f, k) is Some,
    decreases k,
{
    if k > 0 {
        lemma_extend_ok(acc, c, vi, f, k - 1);
        lemma_extend_some(acc, c, vi, f, k - 1);
        let p = extend_wraps(acc, c, vi, f, k - 1)->Some_0;
        assert forall|q: int| 0 <= q < p.len() implies !same_ty(#[trigger] p[q].source, c[k - 1]) by {
            if q < acc.len() {
                assert(p[q] == acc[q]);
            } else {
                assert(p[acc.len() + (q - acc.len())].source == c[q - acc.len()]);
            }
        }
    }
}

/// An enum of two converting variants is accepted where no entry of the
/// first variant's chain is syntactically equal to an entry of the
/// second's, unless the second chain passes through a type parameter.
pub proof fn lemma_distinct_fields_accepted(e: Enum)
    requires
        e.variants@.len() == 2,
        !e.variants@[0].attrs.no_wrap,
        !e.variants@[1].attrs.no_wrap,
        field_of(e.variants@[0].fields) is Ok,
        field_of(e.variants@[1].fields) is Ok,
        ({
            let c0 = chain(
                field_of(e.variants@[0].fields)->Ok_0.ty,
                depth_bound(e.variants@[0].attrs.wrap_depth),
            );
            let c1 = chain(
                field_of(e.variants@[1].fields)->Ok_0.ty,
                depth_bound(e.variants@[1].attrs.wrap_depth),
            );
            &&& forall|i: int, j: int|
                0 <= i < c0.len() && 0 <= j < c1.len() ==> !same_ty(#[trigger] c0[i], #[trigger] c1[j])
            &&& !names_param(c1, e.generics@)
        }),
    ensures
        enum_wraps(e) is Ok,
{
    let f0 = field_of(e.variants@[0].fields)->Ok_0;
    let f1 = field_of(e.variants@[1].fields)->Ok_0;
    let d0 = depth_bound(e.variants@[0].attrs.wrap_depth);
    let d1 = depth_bound(e.variants@[1].attrs.wrap_depth);
    let c0 = chain(f0.ty, d0);
    let c1 = chain(f1.ty, d1);
    lemma_chain_distinct(f0.ty, d0);
    lemma_chain_distinct(f1.ty, d1);
    assert(enum_wraps_upto(e, 0) == Ok::<Seq<WrapView>, DeriveError>(Seq::empty()));
    lemma_extend_ok(Seq::empty(), c0, 0, f0, c0.len() as int);
    lemma_extend_some(Seq::empty(), c0, 0, f0, c0.len() as int);
    let acc = extend_wraps(Seq::empty(), c0, 0, f0, c0.len() as int)->Some_0;
    assert(enum_wraps_upto(e, 1) == Ok::<Seq<WrapView>, DeriveError>(acc));
    assert forall|m: int, j: int|
        0 <= m < c1.len() && 0 <= j < acc.len() implies !same_ty(#[trigger] acc[j].source, #[trigger] c1[m]) by {
        assert(acc[0 + j].source == c0[j]);
    }
    lemma_extend_ok(acc, c1, 1, f1, c1.len() as int);
}

/// The conversion starts from a variant, among the first `n`, that is not
/// marked `noWrap`.
pub open spec fn from_wrapped_variant(e: Enum, w: WrapView, n: int) -> bool {
    &&& w.variant is Some
    &&& w.variant->0 < n
    &&& !e.variants@[w.variant->0 as int].attrs.no_wrap
}

proof fn lemma_upto_from_wrapped(e: Enum, n: int)
    requires
        0 <= n <= e.variants@.len(),
        enum_wraps_upto(e, n) is Ok,
    ensures
        forall|k: int|
            0 <= k < enum_wraps_upto(e, n)->Ok_0.len() ==> from_wrapped_variant(
                e,
                #[trigger] enum_wraps_upto(e, n)->Ok_0[k],
                n,
            ),
    decreases n,
{
    assert(e.variants.len() == e.variants@.len());
    if n > 0 {
        lemma_upto_from_wrapped(e, n - 1);
        let prev = enum_wraps_upto(e, n - 1)->Ok_0;
        let v = e.variants@[n - 1];
        if !v.attrs.no_wrap {
            let f = field_of(v.fields)->Ok_0;
            let c = chain(f.ty, depth_bound(v.attrs.wrap_depth));
            lemma_extend_some(prev, c, (n - 1) as usize, f, c.len() as int);
            let r = enum_wraps_upto(e, n)->Ok_0;
            assert forall|k: int| 0 <= k < r.len() implies from_wrapped_variant(e, #[trigger] r[k], n) by {
                if k >= prev.len() {
                    assert(r[prev.len() + (k - prev.len())] == r[k]);
                } else {
                    assert(from_wrapped_variant(e, prev[k], n - 1));
                }
            }
        } else {
            assert forall|k: int| 0 <= k < prev.len() implies from_wrapped_variant(e, #[trigger] prev[k], n) by {
                assert(from_wrapped_variant(e, prev[k], n - 1));
            }
        }
    }
}

/// A variant marked `noWrap` has no conversion into the enum: every
/// conversion derived starts from a variant that is not so marked.
pub proof fn lemma_no_wrap_absent(e: Enum)
    requires
        enum_wraps(e) is Ok,
    ensures
        forall|k: int|
            0 <= k < enum_wraps(e)->Ok_0.len() ==> from_wrapped_variant(
                e,
                #[trigger] enum_wraps(e)->Ok_0[k],
                e.variants@.len() as int,
            ),
{
    lemma_upto_from_wrapped(e, e.variants@.len() as int);
}

proof fn lemma_upto_prefix(e: Enum, n: int, m: int)
    requires
        0 <= n <= m,
        enum_wraps_upto(e, m) is Ok,
    ensures
        enum_wraps_upto(e, n) is Ok,
        enum_wraps_upto(e, n)->Ok_0.len() <= enum_wraps_upto(e, m)->Ok_0.len(),
        forall|k: int|
            0 <= k < enum_wraps_upto(e, n)->Ok_0.len() ==> #[trigger] enum_wraps_upto(e, m)->Ok_0[k]
                == enum_wraps_upto(e, n)->Ok_0[k],
    decreases m - n,
{
    if n < m {
        let prev = enum_wraps_upto(e, m - 1);
        assert(prev is Ok);
        let v = e.variants@[m - 1];
        if !v.attrs.no_wrap {
            let f = field_of(v.fields)->Ok_0;
            let c = chain(f.ty, depth_bound(v.attrs.wrap_depth));
            lemma_extend_some(prev->Ok_0, c, (m - 1) as usize, f, c.len() as int);
        }
        lemma_upto_prefix(e, n, m - 1);
    }
}

/// Where an enum's wrap conversions are derived, a variant not marked
/// `noWrap` gets one from each entry of its chain, whatever its other marks.
pub proof fn lemma_wrap_kept(e: Enum, i: int)
    requires
        enum_wraps(e) is Ok,
        0 <= i < e.variants@.len(),
        !e.variants@[i].attrs.no_wrap,
    ensures
        field_of(e.variants@[i].fields) is Ok,
        ({
            let c = chain(
                field_of(e.variants@[i].fields)->Ok_0.ty,
                depth_bound(e.variants@[i].attrs.wrap_depth),
            );
            forall|j: int|
                0 <= j < c.len() ==> exists|k: int|
                    0 <= k < enum_wraps(e)->Ok_0.len() && (#[trigger] enum_wraps(e)->Ok_0[k]).source
                        == #[trigger] c[j] && enum_wraps(e)->Ok_0[k].variant == Some(i as usize)
        }),
{
    let n = e.variants@.len() as int;
    lemma_upto_prefix(e, i + 1, n);
    lemma_upto_prefix(e, i, i + 1);
    let prev = enum_wraps_upto(e, i)->Ok_0;
    let f = field_of(e.variants@[i].fields)->Ok_0;
    let c = chain(f.ty, depth_bound(e.variants@[i].attrs.wrap_depth));
    lemma_extend_some(prev, c, i as usize, f, c.len() as int);
    let mid = enum_wraps_upto(e, i + 1)->Ok_0;
    let all = enum_wraps(e)->Ok_0;
    assert forall|j: int| 0 <= j < c.len() implies exists|k: int|
        0 <= k < all.len() && (#[trigger] all[k]).source == #[trigger] c[j] && all[k].variant == Some(
            i as usize,
        ) by {
        let k = prev.len() + j;
        assert(mid[k].source == c[j]);
        assert(all[k] == mid[k]);
    }
}

/// Two enums that differ at most in which variants are marked `noUnwrap`
/// get the same conversions in: that mark does not touch them.
pub proof fn lemma_wrap_ignores_no_unwrap(e1: Enum, e2: Enum)
    requires
        e1.generics@ == e2.generics@,
        e1.variants@.len() == e2.variants@.len(),
        forall|i: int|
            0 <= i < e1.variants@.len() ==> {
                &&& (#[trigger] e1.variants@[i]).fields == e2.variants@[i].fields
                &&& e1.variants@[i].attrs.wrap_depth == e2.variants@[i].attrs.wrap_depth
                &&& e1.variants@[i].attrs.no_wrap == e2.variants@[i].attrs.no_wrap
            },
    ensures
        enum_wraps(e1) == enum_wraps(e2),
{
    lemma_upto_same_wraps(e1, e2, e1.variants@.len() as int);
}

proof fn lemma_upto_same_wraps(e1: Enum, e2: Enum, n: int)
    requires
        0 <= n <= e1.variants@.len(),
        e1.generics@ == e2.generics@,
        e1.variants@.len() == e2.variants@.len(),
        forall|i: int|
            0 <= i < e1.variants@.len() ==> {
                &&& (#[trigger] e1.variants@[i]).fields == e2.variants@[i].fields
                &&& e1.variants@[i].attrs.wrap_depth == e2.variants@[i].attrs.wrap_depth
                &&& e1.variants@[i].attrs.no_wrap == e2.variants@[i].attrs.no_wrap
            },
    ensures
        enum_wraps_upto(e1, n) == enum_wraps_upto(e2, n),
    decreases n,
{
    if n > 0 {
        lemma_upto_same_wraps(e1, e2, n - 1);
        assert(e1.variants@[n - 1].fields == e2.variants@[n - 1].fields);
    }
}

/// Whether `t` is one of the type parameters `generics`.
fn is_type_param(t: &TypeDescriptor, generics: &Vec<String>) -> (r: bool)
    ensures
        r == exists|k: int| 0 <= k < generics@.len() && #[trigger] is_param(*t, generics@[k]),
{
    match t {
        TypeDescriptor::NamedGeneric { name, .. } => {
            let mut k: usize = 0;
            while k < generics.len()
                invariant
                    k <= generics@.len(),
                    *t is NamedGeneric,
                    t->NamedGeneric_name == *name,
                    forall|j: int| 0 <= j < k ==> !#[trigger] is_param(*t, generics@[j]),
                decreases generics.len() - k,
            {
                if name.eq(&generics[k]) {
                    assert(is_param(*t, generics@[k as int]));
                    return true;
                }
                k = k + 1;
            }
            false
        },
        _ => false,
    }
}

/// Whether some entry of `types` is one of the type parameters `generics`.
pub fn mentions_generic(types: &Vec<&TypeDescriptor>, generics: &Vec<String>) -> (r: bool)
    ensures
        r == names_param(derefs(types@), generics@),
{
    let mut i: usize = 0;
    while i < types.len()
        invariant
            i <= types@.len(),
            forall|a: int, k: int|
                0 <= a < i && 0 <= k < generics@.len() ==> !#[trigger] is_param(
                    derefs(types@)[a],
                    generics@[k],
                ),
        decreases types.len() - i,
    {
        if is_type_param(types[i], generics) {
            let ghost k = choose|k: int| 0 <= k < generics@.len() && #[trigger] is_param(*types@[i as int], generics@[k]);
            assert(is_param(derefs(types@)[i as int], generics@[k]));
            return true;
        }
        i = i + 1;
    }
    false
}

/// Whether some conversion of `out` starts from a type syntactically equal
/// to `t`.
fn source_taken<'a>(out: &Vec<WrapImpl<'a>>, t: &TypeDescriptor) -> (r: bool)
    ensures
        r == has_source(wraps_view(out@), *t),
{
    let mut j: usize = 0;
    while j < out.len()
        invariant
            j <= out@.len(),
            forall|a: int| 0 <= a < j ==> !same_ty(#[trigger] wraps_view(out@)[a].source, *t),
        decreases out.len() - j,
    {
        if same_type(out[j].source, t) {
            assert(same_ty(wraps_view(out@)[j as int].source, *t));
            return true;
        }
        j = j + 1;
    }
    false
}

impl Struct {
    /// Derives one conversion into the struct from each entry of the chain
    /// of its field's type.
    pub fn derive_wrap<'a>(&'a self) -> (r: Result<Vec<WrapImpl<'a>>, DeriveError>)
        ensures
            wrap_result_view(r) == struct_wraps(*self),
    {
        let field: &'a Field = match get_field(&self.fields) {
            Ok(f) => f,
            Err(e) => {
                return Err(DeriveError::from_field_error(e, None));
            },
        };
        let types = subtypes_list(&field.ty, field.attrs.chain_depth());
        if types.len() > 1 && mentions_generic(&types, &self.generics) {
            return Err(DeriveError { kind: ErrorKind::GenericConflict, alternative: None });
        }
        let ghost c = derefs(types@);
        let mut out: Vec<WrapImpl<'a>> = Vec::new();
        let mut i: usize = 0;
        while i < types.len()
            invariant
                i <= types@.len(),
                c == derefs(types@),
                c.len() == types@.len(),
                out@.len() == i,
                wraps_view(out@) == forward_impls(c, None, *field).take(i as int),
            decreases types.len() - i,
        {
            let body = generate_inner_conversions(&types, i);
            out.push(WrapImpl { source: types[i], variant: None, field, body });
            assert(wraps_view(out@)[i as int] == forward_impls(c, None, *field)[i as int]);
            assert(wraps_view(out@) =~= forward_impls(c, None, *field).take(i + 1));
            i = i + 1;
        }
        assert(wraps_view(out@) =~= forward_impls(c, None, *field));
        Ok(out)
    }
}

impl Enum {
    /// Derives, for each variant in declaration order that is not marked
    /// `noWrap`, one conversion into the enum from each entry of the chain of
    /// its field's type. Refuses where two conversions would start from the
    /// same type, or where a chain through a type parameter meets others.
    pub fn derive_wrap<'a>(&'a self) -> (r: Result<Vec<WrapImpl<'a>>, DeriveError>)
        ensures
            wrap_result_view(r) == enum_wraps(*self),
    {
        let mut out: Vec<WrapImpl<'a>> = Vec::new();
        let mut idx: usize = 0;
        assert(wraps_view(out@) =~= Seq::<WrapView>::empty());
        while idx < self.variants.len()
            invariant
                idx <= self.variants@.len(),
                enum_wraps_upto(*self, idx as int) == Ok::<Seq<WrapView>, DeriveError>(
                    wraps_view(out@),
                ),
            decreases self.variants.len() - idx,
        {
            let v = &self.variants[idx];
            if !v.attrs.no_wrap {
                let field: &'a Field = match get_field(&v.fields) {
                    Ok(f) => f,
                    Err(e) => {
                        proof {
                            lemma_upto_err_stays(*self, idx + 1, self.variants@.len() as int);
                        }
                        return Err(DeriveError::from_field_error(e, Some(idx)));
                    },
                };
                let types = subtypes_list(&field.ty, v.attrs.chain_depth());
                let ghost c = derefs(types@);
                if out.len() > 0 && mentions_generic(&types, &self.generics) {
                    proof {
                        lemma_upto_err_stays(*self, idx + 1, self.variants@.len() as int);
                    }
                    return Err(DeriveError { kind: ErrorKind::GenericConflict, alternative: Some(idx) });
                }
                let ghost prev = wraps_view(out@);
                let mut i: usize = 0;
                while i < types.len()
                    invariant
                        idx < self.variants@.len(),
                        *v == self.variants@[idx as int],
                        enum_wraps_upto(*self, idx as int) == Ok::<Seq<WrapView>, DeriveError>(prev),
                        !v.attrs.no_wrap,
                        field_of(v.fields) == Ok::<Field, crate::decl::GetFieldError>(*field),
                        c == chain(field.ty, depth_bound(v.attrs.wrap_depth)),
                        !(prev.len() > 0 && names_param(c, self.generics@)),
                        i <= types@.len(),
                        c == derefs(types@),
                        extend_wraps(prev, c, idx, *field, i as int) == Some(wraps_view(out@)),
                    decreases types.len() - i,
                {
                    if source_taken(&out, types[i]) {
                        proof {
                            lemma_extend_none_stays(prev, c, idx, *field, i + 1, c.len() as int);
                            lemma_upto_err_stays(*self, idx + 1, self.variants@.len() as int);
                        }
                        return Err(
                            DeriveError { kind: ErrorKind::DuplicateInnerType, alternative: Some(idx) },
                        );
                    }
                    let body = generate_inner_conversions(&types, i);
                    out.push(WrapImpl { source: types[i], variant: Some(idx), field, body });
                    assert(wraps_view(out@) =~= wraps_view(out@).drop_last().push(
                        wraps_view(out@).last(),
                    ));
                    i = i + 1;
                }
            }
            assert(enum_wraps_upto(*self, idx + 1) == Ok::<Seq<WrapView>, DeriveError>(
                wraps_view(out@),
            ));
            idx = idx + 1;
        }
        Ok(out)
    }
}

} // verus!
