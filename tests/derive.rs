use giftwrap::{
    derive_unwrap, derive_wrap, generate_inner_conversions, get_field, mentions_generic, same_type,
    subtypes_list, Derive, DeriveError, Enum, ErrorKind, Expr, Field, Fields, GetFieldError,
    Struct, StructAttributes, TypeDescriptor, Unwrapped, Variant, VariantAttributes,
};

fn named(name: &str, args: Vec<TypeDescriptor>) -> TypeDescriptor {
    TypeDescriptor::NamedGeneric { name: String::from(name), args }
}

fn leaf(name: &str) -> TypeDescriptor {
    named(name, vec![])
}

fn paren(inner: TypeDescriptor) -> TypeDescriptor {
    TypeDescriptor::Parenthesized { inner: Box::new(inner) }
}

fn reference(inner: TypeDescriptor) -> TypeDescriptor {
    TypeDescriptor::Reference { inner: Box::new(inner) }
}

fn pointer(inner: TypeDescriptor) -> TypeDescriptor {
    TypeDescriptor::Pointer { inner: Box::new(inner) }
}

fn opaque(spelling: &str) -> TypeDescriptor {
    TypeDescriptor::Opaque { spelling: String::from(spelling) }
}

fn outer_inner_leaf() -> TypeDescriptor {
    named("Outer", vec![named("Inner", vec![leaf("Leaf")])])
}

fn field(ident: Option<&str>, ty: TypeDescriptor, wrap_depth: Option<u32>) -> Field {
    Field {
        ident: ident.map(String::from),
        ty,
        attrs: StructAttributes { wrap_depth },
    }
}

fn unnamed(ty: TypeDescriptor) -> Fields {
    Fields::Unnamed(vec![field(None, ty, None)])
}

fn variant(name: &str, fields: Fields, attrs: VariantAttributes) -> Variant {
    Variant { ident: String::from(name), fields, attrs }
}

fn plain() -> VariantAttributes {
    VariantAttributes { wrap_depth: None, no_wrap: false, no_unwrap: false }
}

fn tuple_struct(ty: TypeDescriptor, wrap_depth: Option<u32>, generics: &[&str]) -> Struct {
    Struct {
        ident: String::from("Wrapper"),
        generics: generics.iter().map(|g| String::from(*g)).collect(),
        fields: Fields::Unnamed(vec![field(None, ty, wrap_depth)]),
    }
}

fn an_enum(variants: Vec<Variant>, generics: &[&str]) -> Enum {
    Enum {
        ident: String::from("Choice"),
        generics: generics.iter().map(|g| String::from(*g)).collect(),
        variants,
    }
}

fn sources(ty: &TypeDescriptor, depth: Option<u32>) -> Vec<TypeDescriptor> {
    subtypes_list(ty, depth).into_iter().map(copy).collect()
}

fn copy(t: &TypeDescriptor) -> TypeDescriptor {
    match t {
        TypeDescriptor::NamedGeneric { name, args } => {
            TypeDescriptor::NamedGeneric { name: name.clone(), args: args.iter().map(copy).collect() }
        }
        TypeDescriptor::Pointer { inner } => pointer(copy(inner)),
        TypeDescriptor::Reference { inner } => reference(copy(inner)),
        TypeDescriptor::Parenthesized { inner } => paren(copy(inner)),
        TypeDescriptor::Opaque { spelling } => opaque(spelling),
    }
}

#[test]
fn chain_default_depth_is_the_root() {
    let t = outer_inner_leaf();
    assert_eq!(sources(&t, Some(1)), vec![outer_inner_leaf()]);
}

#[test]
fn chain_bounded_by_depth() {
    let t = outer_inner_leaf();
    let c = sources(&t, Some(2));
    assert_eq!(c, vec![outer_inner_leaf(), named("Inner", vec![leaf("Leaf")])]);
    assert!(c.len() <= 2);
}

#[test]
fn chain_shorter_than_depth_is_whole() {
    let t = outer_inner_leaf();
    assert_eq!(sources(&t, Some(10)), sources(&t, None));
    assert_eq!(sources(&t, Some(10)).len(), 3);
}

#[test]
fn chain_unbounded_peels_to_leaf() {
    let t = reference(named("Box", vec![pointer(opaque("[u8; 4]"))]));
    let c = sources(&t, None);
    assert_eq!(
        c,
        vec![
            reference(named("Box", vec![pointer(opaque("[u8; 4]"))])),
            named("Box", vec![pointer(opaque("[u8; 4]"))]),
            pointer(opaque("[u8; 4]")),
            opaque("[u8; 4]"),
        ]
    );
}

#[test]
fn chain_follows_first_argument_only() {
    let t = named("Map", vec![leaf("K"), leaf("V")]);
    assert_eq!(sources(&t, None), vec![named("Map", vec![leaf("K"), leaf("V")]), leaf("K")]);
}

#[test]
fn chain_parentheses_are_free() {
    let x = named("Box", vec![paren(leaf("Leaf"))]);
    let px = paren(paren(named("Box", vec![paren(leaf("Leaf"))])));
    for d in [Some(1), Some(2), Some(3), None] {
        assert_eq!(sources(&px, d), sources(&x, d));
    }
    assert_eq!(sources(&x, None), vec![named("Box", vec![paren(leaf("Leaf"))]), leaf("Leaf")]);
}

#[test]
fn chain_depth_zero_is_empty() {
    assert!(subtypes_list(&outer_inner_leaf(), Some(0)).is_empty());
}

#[test]
fn same_type_is_syntactic() {
    assert!(same_type(&outer_inner_leaf(), &outer_inner_leaf()));
    assert!(!same_type(&outer_inner_leaf(), &named("Outer", vec![leaf("Inner")])));
    assert!(!same_type(&paren(leaf("A")), &leaf("A")));
    assert!(!same_type(&named("M", vec![leaf("A"), leaf("B")]), &named("M", vec![leaf("A"), leaf("C")])));
    assert!(same_type(&opaque("(i32, i32)"), &opaque("(i32, i32)")));
    assert!(!same_type(&reference(leaf("A")), &pointer(leaf("A"))));
}

#[test]
fn inner_conversions_fold_outward() {
    let t = reference(named("Arc", vec![named("Mutex", vec![leaf("bool")])]));
    let c = subtypes_list(&t, None);
    assert_eq!(generate_inner_conversions(&c, 0), Expr::Input);
    let arc = String::from("Arc");
    let mutex = String::from("Mutex");
    assert_eq!(
        generate_inner_conversions(&c, 3),
        Expr::AddressOf {
            inner: Box::new(Expr::FromInner {
                container: &arc,
                inner: Box::new(Expr::FromInner { container: &mutex, inner: Box::new(Expr::Input) }),
            }),
        }
    );
}

#[test]
fn inner_conversions_skip_other_layers() {
    let slice = opaque("[T]");
    let c = vec![&slice];
    assert_eq!(generate_inner_conversions(&c, 1), Expr::Input);
}

#[test]
fn wrap_depth_reading() {
    assert_eq!(StructAttributes { wrap_depth: None }.wrap_depth(), None);
    assert_eq!(StructAttributes { wrap_depth: Some(0) }.wrap_depth(), None);
    assert_eq!(StructAttributes { wrap_depth: Some(3) }.wrap_depth(), Some(3));
    assert_eq!(StructAttributes { wrap_depth: None }.chain_depth(), Some(1));
    assert_eq!(StructAttributes { wrap_depth: Some(0) }.chain_depth(), None);
    let v = VariantAttributes { wrap_depth: Some(2), no_wrap: false, no_unwrap: false };
    assert_eq!(v.wrap_depth(), Some(2));
    assert_eq!(v.chain_depth(), Some(2));
    assert_eq!(VariantAttributes { wrap_depth: Some(0), ..plain() }.wrap_depth(), None);
    assert_eq!(plain().chain_depth(), Some(1));
}

#[test]
fn get_field_single_and_errors() {
    let one = Fields::Named(vec![field(Some("n"), leaf("i64"), None)]);
    assert_eq!(get_field(&one).unwrap().ident.as_deref(), Some("n"));
    let two = Fields::Unnamed(vec![field(None, leaf("i64"), None), field(None, leaf("u8"), None)]);
    assert_eq!(get_field(&two).unwrap_err(), GetFieldError::NotSingle);
    assert_eq!(get_field(&Fields::Named(vec![])).unwrap_err(), GetFieldError::NotSingle);
    assert_eq!(get_field(&Fields::Unit).unwrap_err(), GetFieldError::Unit);
}

#[test]
fn mentions_generic_finds_parameters() {
    let t = named("Box", vec![leaf("T")]);
    let c = subtypes_list(&t, None);
    assert!(mentions_generic(&c, &vec![String::from("T")]));
    assert!(!mentions_generic(&c, &vec![String::from("U")]));
    assert!(!mentions_generic(&c, &vec![]));
}

#[test]
fn struct_default_round_trip() {
    let s = tuple_struct(named("Vec", vec![leaf("u8")]), None, &[]);
    let w = s.derive_wrap().unwrap();
    assert_eq!(w.len(), 1);
    assert_eq!(*w[0].source, named("Vec", vec![leaf("u8")]));
    assert_eq!(w[0].body, Expr::Input);
    assert_eq!(w[0].variant, None);
    let f = s.derive_unwrap().unwrap();
    assert_eq!(f.ty, named("Vec", vec![leaf("u8")]));
    assert!(std::ptr::eq(f, w[0].field));
}

#[test]
fn struct_chained_wrap_unbounded() {
    let s = tuple_struct(outer_inner_leaf(), Some(0), &[]);
    let w = s.derive_wrap().unwrap();
    assert_eq!(w.len(), 3);
    assert_eq!(*w[0].source, outer_inner_leaf());
    assert_eq!(*w[1].source, named("Inner", vec![leaf("Leaf")]));
    assert_eq!(*w[2].source, leaf("Leaf"));
    let outer = String::from("Outer");
    let inner = String::from("Inner");
    assert_eq!(w[0].body, Expr::Input);
    assert_eq!(w[1].body, Expr::FromInner { container: &outer, inner: Box::new(Expr::Input) });
    assert_eq!(
        w[2].body,
        Expr::FromInner {
            container: &outer,
            inner: Box::new(Expr::FromInner { container: &inner, inner: Box::new(Expr::Input) }),
        }
    );
}

#[test]
fn struct_reverse_reads_declared_type() {
    let s = tuple_struct(outer_inner_leaf(), Some(0), &[]);
    assert_eq!(s.derive_unwrap().unwrap().ty, outer_inner_leaf());
}

#[test]
fn struct_generic_chain_refused() {
    let s = tuple_struct(named("Box", vec![leaf("T")]), Some(2), &["T"]);
    assert_eq!(
        s.derive_wrap().unwrap_err(),
        DeriveError { kind: ErrorKind::GenericConflict, alternative: None }
    );
    let one = tuple_struct(named("Box", vec![leaf("T")]), None, &["T"]);
    assert_eq!(one.derive_wrap().unwrap().len(), 1);
}

#[test]
fn struct_field_count_errors() {
    let unit = Struct { ident: String::from("U"), generics: vec![], fields: Fields::Unit };
    let e = DeriveError { kind: ErrorKind::UnitVariantUnsupported, alternative: None };
    assert_eq!(unit.derive_wrap().unwrap_err(), e);
    assert_eq!(unit.derive_unwrap().unwrap_err(), e);
    let two = Struct {
        ident: String::from("P"),
        generics: vec![],
        fields: Fields::Named(vec![field(Some("a"), leaf("i64"), None), field(Some("b"), leaf("i64"), None)]),
    };
    let e = DeriveError { kind: ErrorKind::NotSingleField, alternative: None };
    assert_eq!(two.derive_wrap().unwrap_err(), e);
    assert_eq!(two.derive_unwrap().unwrap_err(), e);
}

#[test]
fn enum_distinct_fields_accepted() {
    let e = an_enum(
        vec![variant("A", unnamed(leaf("i64")), plain()), variant("B", unnamed(leaf("String")), plain())],
        &[],
    );
    let w = e.derive_wrap().unwrap();
    assert_eq!(w.len(), 2);
    assert_eq!((*w[0].source == leaf("i64"), w[0].variant), (true, Some(0)));
    assert_eq!((*w[1].source == leaf("String"), w[1].variant), (true, Some(1)));
}

#[test]
fn enum_duplicate_inner_type_refused() {
    let e = an_enum(
        vec![variant("A", unnamed(leaf("i64")), plain()), variant("B", unnamed(leaf("i64")), plain())],
        &[],
    );
    assert_eq!(
        e.derive_wrap().unwrap_err(),
        DeriveError { kind: ErrorKind::DuplicateInnerType, alternative: Some(1) }
    );
}

#[test]
fn enum_duplicate_at_depth_refused() {
    let deep = VariantAttributes { wrap_depth: Some(0), ..plain() };
    let e = an_enum(
        vec![
            variant("A", unnamed(leaf("bool")), plain()),
            variant("B", unnamed(named("Arc", vec![named("Mutex", vec![leaf("bool")])])), deep),
        ],
        &[],
    );
    assert_eq!(
        e.derive_wrap().unwrap_err(),
        DeriveError { kind: ErrorKind::DuplicateInnerType, alternative: Some(1) }
    );
}

#[test]
fn enum_chain_wraps_each_layer() {
    let deep = VariantAttributes { wrap_depth: Some(0), ..plain() };
    let e = an_enum(
        vec![
            variant("Number", unnamed(leaf("i64")), plain()),
            variant("Deep", unnamed(named("Arc", vec![named("Mutex", vec![leaf("bool")])])), deep),
        ],
        &[],
    );
    let w = e.derive_wrap().unwrap();
    assert_eq!(w.len(), 4);
    assert_eq!(*w[3].source, leaf("bool"));
    assert_eq!(w[3].variant, Some(1));
    let arc = String::from("Arc");
    let mutex = String::from("Mutex");
    assert_eq!(
        w[3].body,
        Expr::FromInner {
            container: &arc,
            inner: Box::new(Expr::FromInner { container: &mutex, inner: Box::new(Expr::Input) }),
        }
    );
}

#[test]
fn enum_no_wrap_excluded_from_wrap_kept_in_unwrap() {
    let e = an_enum(
        vec![
            variant("Quiet", unnamed(leaf("i64")), VariantAttributes { no_wrap: true, ..plain() }),
            variant("Text", unnamed(leaf("String")), plain()),
        ],
        &[],
    );
    let w = e.derive_wrap().unwrap();
    assert_eq!(w.len(), 1);
    assert_eq!(w[0].variant, Some(1));
    let u = e.derive_unwrap().unwrap();
    assert_eq!(u.len(), 2);
    assert_eq!(*u[0].target, leaf("i64"));
    assert_eq!(u[0].converts, vec![true, false]);
}

#[test]
fn enum_no_unwrap_excluded_from_unwrap_kept_in_wrap() {
    let e = an_enum(
        vec![
            variant("Hidden", unnamed(leaf("i64")), VariantAttributes { no_unwrap: true, ..plain() }),
            variant("Text", unnamed(leaf("String")), plain()),
        ],
        &[],
    );
    let w = e.derive_wrap().unwrap();
    assert_eq!(w.len(), 2);
    assert_eq!(*w[0].source, leaf("i64"));
    let u = e.derive_unwrap().unwrap();
    assert_eq!(u.len(), 1);
    assert_eq!(*u[0].target, leaf("String"));
    assert_eq!(u[0].converts, vec![false, true]);
}

#[test]
fn enum_no_wrap_variant_may_have_any_fields() {
    let e = an_enum(
        vec![
            variant("Empty", Fields::Unit, VariantAttributes { no_wrap: true, no_unwrap: true, wrap_depth: None }),
            variant("Text", unnamed(leaf("String")), plain()),
        ],
        &[],
    );
    assert_eq!(e.derive_wrap().unwrap().len(), 1);
    let u = e.derive_unwrap().unwrap();
    assert_eq!(u.len(), 1);
    assert_eq!(u[0].converts, vec![false, true]);
}

#[test]
fn enum_exhaustive_reverse_match() {
    let e = an_enum(
        vec![variant("A", unnamed(leaf("i64")), plain()), variant("B", unnamed(leaf("String")), plain())],
        &[],
    );
    let u = e.derive_unwrap().unwrap();
    assert_eq!(u.len(), 2);
    assert_eq!(*u[0].target, leaf("i64"));
    assert_eq!(u[0].converts, vec![true, false]);
    assert_eq!(*u[1].target, leaf("String"));
    assert_eq!(u[1].converts, vec![false, true]);
}

#[test]
fn enum_reverse_groups_equal_types() {
    let e = an_enum(
        vec![
            variant("A", unnamed(leaf("i64")), plain()),
            variant("B", unnamed(leaf("String")), plain()),
            variant("C", unnamed(leaf("i64")), VariantAttributes { no_wrap: true, ..plain() }),
        ],
        &[],
    );
    let u = e.derive_unwrap().unwrap();
    assert_eq!(u.len(), 2);
    assert_eq!(*u[0].target, leaf("i64"));
    assert_eq!(u[0].converts, vec![true, false, true]);
    assert_eq!(u[1].converts, vec![false, true, false]);
}

#[test]
fn enum_generic_after_others_refused() {
    let e = an_enum(
        vec![
            variant("Str", unnamed(leaf("Str")), plain()),
            variant("Gen", unnamed(named("Option", vec![leaf("T")])), VariantAttributes { wrap_depth: Some(0), ..plain() }),
        ],
        &["T"],
    );
    assert_eq!(
        e.derive_wrap().unwrap_err(),
        DeriveError { kind: ErrorKind::GenericConflict, alternative: Some(1) }
    );
}

#[test]
fn enum_generic_argument_at_depth_one_accepted() {
    let e = an_enum(
        vec![variant("Str", unnamed(leaf("Str")), plain()), variant("Gen", unnamed(named("Option", vec![leaf("T")])), plain())],
        &["T"],
    );
    assert_eq!(e.derive_wrap().unwrap().len(), 2);
}

#[test]
fn enum_generic_first_accepted() {
    let e = an_enum(
        vec![variant("Gen", unnamed(named("Option", vec![leaf("T")])), plain()), variant("Str", unnamed(leaf("Str")), plain())],
        &["T"],
    );
    assert_eq!(e.derive_wrap().unwrap().len(), 2);
}

#[test]
fn enum_field_errors_name_the_variant() {
    let e = an_enum(
        vec![variant("A", unnamed(leaf("i64")), plain()), variant("B", Fields::Unit, plain())],
        &[],
    );
    let err = DeriveError { kind: ErrorKind::UnitVariantUnsupported, alternative: Some(1) };
    assert_eq!(e.derive_wrap().unwrap_err(), err);
    assert_eq!(e.derive_unwrap().unwrap_err(), err);
    let e = an_enum(
        vec![variant("P", Fields::Unnamed(vec![field(None, leaf("i64"), None), field(None, leaf("i64"), None)]), plain())],
        &[],
    );
    let err = DeriveError { kind: ErrorKind::NotSingleField, alternative: Some(0) };
    assert_eq!(e.derive_wrap().unwrap_err(), err);
    assert_eq!(e.derive_unwrap().unwrap_err(), err);
}

#[test]
fn derive_dispatches_on_shape() {
    let d = Derive::Struct(tuple_struct(leaf("i64"), None, &[]));
    assert_eq!(derive_wrap(&d).unwrap().len(), 1);
    match derive_unwrap(&d).unwrap() {
        Unwrapped::Struct(f) => assert_eq!(f.ty, leaf("i64")),
        Unwrapped::Enum(_) => panic!("a struct unwraps to its field"),
    }
    let d = Derive::Enum(an_enum(vec![variant("A", unnamed(leaf("i64")), plain())], &[]));
    assert_eq!(derive_wrap(&d).unwrap().len(), 1);
    match derive_unwrap(&d).unwrap() {
        Unwrapped::Enum(u) => assert_eq!(u[0].converts, vec![true]),
        Unwrapped::Struct(_) => panic!("an enum unwraps per field type"),
    }
}

#[test]
fn enum_deep_disjoint_chains_accepted() {
    let deep = VariantAttributes { wrap_depth: Some(0), ..plain() };
    let e = an_enum(
        vec![
            variant("Boxed", unnamed(named("Box", vec![named("Box", vec![leaf("i64")])])), deep),
            variant("Text", unnamed(leaf("String")), deep),
        ],
        &[],
    );
    let w = e.derive_wrap().unwrap();
    assert_eq!(w.len(), 4);
    assert_eq!(*w[1].source, named("Box", vec![leaf("i64")]));
    assert_eq!(*w[2].source, leaf("i64"));
    assert_eq!(*w[3].source, leaf("String"));
    assert_eq!(w[3].variant, Some(1));
}

#[test]
fn enum_parenthesized_duplicate_refused() {
    let e = an_enum(
        vec![variant("A", unnamed(leaf("i64")), plain()), variant("B", unnamed(paren(leaf("i64"))), plain())],
        &[],
    );
    assert_eq!(
        e.derive_wrap().unwrap_err(),
        DeriveError { kind: ErrorKind::DuplicateInnerType, alternative: Some(1) }
    );
}
