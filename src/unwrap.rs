//! Conversions out of a wrapper type: to the declared type of its field, or,
//! for an enum, fallibly to the declared type of each variant's field.
use vstd::prelude::*;

use crate::chain::derefs;
use crate::decl::{field_of, get_field, Enum, Field, GetFieldError, Struct, Variant};
use crate::error::{field_error, DeriveError};
use crate::ty::{lemma_same_ty_refl, same_ty, same_type, TypeDescriptor};

verus! {

/// What deriving the unwrap conversion of a struct gives: its only field.
pub open spec fn struct_unwrap(s: Struct) -> Result<Field, DeriveError> {
    match field_of(s.fields) {
        Ok(f) => Ok(f),
        Err(e) => Err(field_error(e, None)),
    }
}

/// A fallible conversion out of an enum into `target`: `converts[i]` says
/// whether the variant at `i` yields its field, or else the failure that
/// names the enum, the variant and `target`. There is one entry for every
/// variant.
#[derive(Debug)]
pub struct UnwrapImpl<'a> {
    pub target: &'a TypeDescriptor,
    pub converts: Vec<bool>,
}

/// The mathematical content of an [`UnwrapImpl`].
pub struct UnwrapView {
    pub target: TypeDescriptor,
    pub converts: Seq<bool>,
}

/// The view of one conversion out of an enum.
pub open spec fn unwrap_view<'a>(u: UnwrapImpl<'a>) -> UnwrapView {
    UnwrapView { target: *u.target, converts: u.converts@ }
}

/// The view of the result of an enum's unwrap derivation.
pub open spec fn unwrap_result_view<'a>(r: Result<Vec<UnwrapImpl<'a>>, DeriveError>) -> Result<
    Seq<UnwrapView>,
    DeriveError,
> {
    match r {
        Ok(v) => Ok(v@.map_values(|u: UnwrapImpl<'a>| unwrap_view(u))),
        Err(e) => Err(e),
    }
}

/// Some entry of `ts` is syntactically equal to `t`.
pub open spec fn listed(ts: Seq<TypeDescriptor>, t: TypeDescriptor) -> bool {
    exists|j: int| 0 <= j < ts.len() && same_ty(#[trigger] ts[j], t)
}

/// The distinct declared field types of the first `n` variants not marked
/// `noUnwrap`, in order of first appearance; or the refusal for the first
/// of them without a single field.
pub open spec fn unwrap_targets_upto(e: Enum, n: int) -> Result<Seq<TypeDescriptor>, DeriveError>
    decreases n,
{
    if n <= 0 {
        Ok(Seq::empty())
    } else {
        match unwrap_targets_upto(e, n - 1) {
            Err(err) => Err(err),
            Ok(prev) => {
                let v = e.variants@[n - 1];
                if v.attrs.no_unwrap {
                    Ok(prev)
                } else {
                    match field_of(v.fields) {
                        Err(fe) => Err(field_error(fe, Some((n - 1) as usize))),
                        Ok(f) => if listed(prev, f.ty) {
                            Ok(prev)
                        } else {
                            Ok(prev.push(f.ty))
                        },
                    }
                }
            },
        }
    }
}

/// Variant `v` converts into `t`: it is not marked `noUnwrap` and its only
/// field is declared with a type syntactically equal to `t`.
pub open spec fn converts_to(v: Variant, t: TypeDescriptor) -> bool {
    &&& !v.attrs.no_unwrap
    &&& field_of(v.fields) is Ok
    &&& same_ty(t, field_of(v.fields)->Ok_0.ty)
}

/// The conversion out of `e` into `t`, with an entry for every variant.
pub open spec fn unwrap_into(e: Enum, t: TypeDescriptor) -> UnwrapView {
    UnwrapView { target: t, converts: Seq::new(e.variants@.len(), |i: int| converts_to(e.variants@[i], t)) }
}

/// What deriving unwrap conversions for an enum gives: one conversion for
/// each distinct declared field type of a variant not marked `noUnwrap`.
pub open spec fn enum_unwraps(e: Enum) -> Result<Seq<UnwrapView>, DeriveError> {
    match unwrap_targets_upto(e, e.variants@.len() as int) {
        Ok(ts) => Ok(ts.map_values(|t: TypeDescriptor| unwrap_into(e, t))),
        Err(err) => Err(err),
    }
}

proof fn lemma_targets_err_stays(e: Enum, n: int, m: int)
    requires
        0 <= n <= m,
        unwrap_targets_upto(e, n) is Err,
    ensures
        unwrap_targets_upto(e, m) == unwrap_targets_upto(e, n),
    decreases m - n,
{
    if n < m {
        lemma_targets_err_stays(e, n, m - 1);
    }
}

/// Every conversion out of an enum covers all its variants, and a variant
/// marked `noUnwrap` converts in none of them.
pub proof fn lemma_no_unwrap_never_converts(e: Enum)
    requires
        enum_unwraps(e) is Ok,
    ensures
        forall|k: int|
            0 <= k < enum_unwraps(e)->Ok_0.len() ==> (#[trigger] enum_unwraps(e)->Ok_0[k]).converts.len()
                == e.variants@.len(),
        forall|k: int, i: int|
            0 <= k < enum_unwraps(e)->Ok_0.len() && 0 <= i < e.variants@.len()
                && e.variants@[i].attrs.no_unwrap ==> !#[trigger] enum_unwraps(e)->Ok_0[k].converts[i],
{
}

proof fn lemma_targets_cover(e: Enum, n: int)
    requires
        0 <= n <= e.variants@.len(),
        unwrap_targets_upto(e, n) is Ok,
    ensures
        forall|i: int|
            0 <= i < n && !(#[trigger] e.variants@[i]).attrs.no_unwrap ==> {
                &&& field_of(e.variants@[i].fields) is Ok
                &&& listed(unwrap_targets_upto(e, n)->Ok_0, field_of(e.variants@[i].fields)->Ok_0.ty)
            },
    decreases n,
{
    if n > 0 {
        lemma_targets_cover(e, n - 1);
        let prev = unwrap_targets_upto(e, n - 1)->Ok_0;
        let ts = unwrap_targets_upto(e, n)->Ok_0;
        assert forall|j: int| 0 <= j < prev.len() implies ts[j] == prev[j] by {}
        assert forall|i: int|
            0 <= i < n && !(#[trigger] e.variants@[i]).attrs.no_unwrap implies {
                &&& field_of(e.variants@[i].fields) is Ok
                &&& listed(ts, field_of(e.variants@[i].fields)->Ok_0.ty)
            } by {
            let t = field_of(e.variants@[i].fields)->Ok_0.ty;
            if i < n - 1 {
                let j = choose|j: int| 0 <= j < prev.len() && same_ty(#[trigger] prev[j], t);
                assert(same_ty(ts[j], t));
            } else if !listed(prev, t) {
                lemma_same_ty_refl(t);
                assert(same_ty(ts[prev.len() as int], t));
            } else {
                let j = choose|j: int| 0 <= j < prev.len() && same_ty(#[trigger] prev[j], t);
                assert(same_ty(ts[j], t));
            }
        }
    }
}

/// A variant not marked `noUnwrap` converts in some derived conversion out
/// of the enum, whatever its other marks.
pub proof fn lemma_unwrap_kept(e: Enum, i: int)
    requires
        enum_unwraps(e) is Ok,
        0 <= i < e.variants@.len(),
        !e.variants@[i].attrs.no_unwrap,
    ensures
        exists|k: int|
            0 <= k < enum_unwraps(e)->Ok_0.len() && (#[trigger] enum_unwraps(e)->Ok_0[k]).converts[i],
{
    let n = e.variants@.len() as int;
    lemma_targets_cover(e, n);
    let ts = unwrap_targets_upto(e, n)->Ok_0;
    let t = field_of(e.variants@[i].fields)->Ok_0.ty;
    let j = choose|j: int| 0 <= j < ts.len() && same_ty(#[trigger] ts[j], t);
    assert(enum_unwraps(e)->Ok_0[j] == unwrap_into(e, ts[j]));
    assert(enum_unwraps(e)->Ok_0[j].converts[i]);
}

/// Two enums that differ at most in which variants are marked `noWrap` get
/// the same conversions out: that mark does not touch them.
pub proof fn lemma_unwrap_ignores_no_wrap(e1: Enum, e2: Enum)
    requires
        e1.variants@.len() == e2.variants@.len(),
        forall|i: int|
            0 <= i < e1.variants@.len() ==> {
                &&& (#[trigger] e1.variants@[i]).fields == e2.variants@[i].fields
                &&& e1.variants@[i].attrs.no_unwrap == e2.variants@[i].attrs.no_unwrap
            },
    ensures
        enum_unwraps(e1) == enum_unwraps(e2),
{
    lemma_targets_same(e1, e2, e1.variants@.len() as int);
    if enum_unwraps(e1) is Ok {
        let ts = unwrap_targets_upto(e1, e1.variants@.len() as int)->Ok_0;
        assert forall|t: TypeDescriptor| unwrap_into(e1, t) == unwrap_into(e2, t) by {
            assert(unwrap_into(e1, t).converts =~= unwrap_into(e2, t).converts);
        }
        assert(ts.map_values(|t: TypeDescriptor| unwrap_into(e1, t)) =~= ts.map_values(
            |t: TypeDescriptor| unwrap_into(e2, t),
        ));
    }
}

proof fn lemma_targets_same(e1: Enum, e2: Enum, n: int)
    requires
        0 <= n <= e1.variants@.len(),
        e1.variants@.len() == e2.variants@.len(),
        forall|i: int|
            0 <= i < e1.variants@.len() ==> {
                &&& (#[trigger] e1.variants@[i]).fields == e2.variants@[i].fields
                &&& e1.variants@[i].attrs.no_unwrap == e2.variants@[i].attrs.no_unwrap
            },
    ensures
        unwrap_targets_upto(e1, n) == unwrap_targets_upto(e2, n),
    decreases n,
{
    if n > 0 {
        lemma_targets_same(e1, e2, n - 1);
        assert(e1.variants@[n - 1].fields == e2.variants@[n - 1].fields);
    }
}

/// Whether some entry of `ts` is syntactically equal to `t`.
fn is_listed(ts: &Vec<&TypeDescriptor>, t: &TypeDescriptor) -> (r: bool)
    ensures
        r == listed(derefs(ts@), *t),
{
    let mut j: usize = 0;
    while j < ts.len()
        invariant
            j <= ts@.len(),
            forall|a: int| 0 <= a < j ==> !same_ty(#[trigger] derefs(ts@)[a], *t),
        decreases ts.len() - j,
    {
        if same_type(ts[j], t) {
            assert(same_ty(derefs(ts@)[j as int], *t));
            return true;
        }
        j = j + 1;
    }
    false
}

/// Whether variant `v` converts into `t`.
fn variant_converts(v: &Variant, t: &TypeDescriptor) -> (r: bool)
    ensures
        r == converts_to(*v, *t),
{
    if v.attrs.no_unwrap {
        return false;
    }
    match get_field(&v.fields) {
        Ok(f) => same_type(t, &f.ty),
        Err(_) => false,
    }
}

impl Struct {
    /// Derives the conversion out of the struct: it yields its only field, of
    /// the field's declared type.
    pub fn derive_unwrap<'a>(&'a self) -> (r: Result<&'a Field, DeriveError>)
        ensures
            match r {
                Ok(f) => struct_unwrap(*self) == Ok::<Field, DeriveError>(*f),
                Err(e) => struct_unwrap(*self) == Err::<Field, DeriveError>(e),
            },
    {
        match get_field(&self.fields) {
            Ok(f) => Ok(f),
            Err(e) => Err(DeriveError::from_field_error(e, None)),
        }
    }
}

impl Enum {
    /// The distinct declared field types of the variants not marked
    /// `noUnwrap`, in order of first appearance.
    fn unwrap_targets<'a>(&'a self) -> (r: Result<Vec<&'a TypeDescriptor>, DeriveError>)
        ensures
            match r {
                Ok(ts) => unwrap_targets_upto(*self, self.variants@.len() as int) == Ok::<
                    Seq<TypeDescriptor>,
                    DeriveError,
                >(derefs(ts@)),
                Err(err) => unwrap_targets_upto(*self, self.variants@.len() as int) == Err::<
                    Seq<TypeDescriptor>,
                    DeriveError,
                >(err),
            },
    {
        let mut ts: Vec<&'a TypeDescriptor> = Vec::new();
        let mut idx: usize = 0;
        assert(derefs(ts@) =~= Seq::<TypeDescriptor>::empty());
        while idx < self.variants.len()
            invariant
                idx <= self.variants@.len(),
                unwrap_targets_upto(*self, idx as int) == Ok::<Seq<TypeDescriptor>, DeriveError>(
                    derefs(ts@),
                ),
            decreases self.variants.len() - idx,
        {
            let v = &self.variants[idx];
            let ghost prev = derefs(ts@);
            if !v.attrs.no_unwrap {
                match get_field(&v.fields) {
                    Err(e) => {
                        proof {
                            lemma_targets_err_stays(*self, idx + 1, self.variants@.len() as int);
                        }
                        return Err(DeriveError::from_field_error(e, Some(idx)));
                    },
                    Ok(f) => {
                        if !is_listed(&ts, &f.ty) {
                            ts.push(&f.ty);
                            assert(derefs(ts@) =~= prev.push(f.ty));
                        }
                    },
                }
            }
            assert(unwrap_targets_upto(*self, idx + 1) == Ok::<Seq<TypeDescriptor>, DeriveError>(
                derefs(ts@),
            ));
            idx = idx + 1;
        }
        Ok(ts)
    }

    /// Derives, for each distinct declared field type of a variant not
    /// marked `noUnwrap`, one fallible conversion out of the enum. Each
    /// covers every variant: those of that field type and not marked
    /// `noUnwrap` convert, all others fail.
    pub fn derive_unwrap<'a>(&'a self) -> (r: Result<Vec<UnwrapImpl<'a>>, DeriveError>)
        ensures
            unwrap_result_view(r) == enum_unwraps(*self),
    {
        let ts = match self.unwrap_targets() {
            Ok(ts) => ts,
            Err(e) => {
                return Err(e);
            },
        };
        let mut out: Vec<UnwrapImpl<'a>> = Vec::new();
        let mut k: usize = 0;
        while k < ts.len()
            invariant
                k <= ts@.len(),
                out@.len() == k,
                forall|a: int| 0 <= a < k ==> #[trigger] unwrap_view(out@[a]) == unwrap_into(*self, derefs(ts@)[a]),
            decreases ts.len() - k,
        {
            let t: &'a TypeDescriptor = ts[k];
            let mut converts: Vec<bool> = Vec::new();
            let mut i: usize = 0;
            while i < self.variants.len()
                invariant
                    i <= self.variants@.len(),
                    converts@ =~= unwrap_into(*self, *t).converts.take(i as int),
                decreases self.variants.len() - i,
            {
                let c = variant_converts(&self.variants[i], t);
                converts.push(c);
                i = i + 1;
            }
            assert(converts@ =~= unwrap_into(*self, *t).converts);
            out.push(UnwrapImpl { target: t, converts });
            assert(unwrap_view(out@[k as int]) == unwrap_into(*self, derefs(ts@)[k as int]));
            k = k + 1;
        }
        assert(unwrap_result_view(Ok(out)) == enum_unwraps(*self)) by {
            assert(out@.map_values(|u: UnwrapImpl<'a>| unwrap_view(u)) =~= derefs(ts@).map_values(
                |t: TypeDescriptor| unwrap_into(*self, t),
            ));
        }
        Ok(out)
    }
}

} // verus!
