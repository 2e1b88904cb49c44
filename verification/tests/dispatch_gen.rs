use moonrabbit::dispatch_gen::{
    impl_subsystem_dispatch_gen, prepare_enum_variant, subsystem_dispatch_gen_from_source,
    DispatchGenError, DispatchSourceError, FieldShape, FieldsShape, VariantShape,
};

fn field_types(f: &FieldsShape) -> Option<Vec<String>> {
    match f {
        FieldsShape::Unit => None,
        FieldsShape::Named(fs) | FieldsShape::Unnamed(fs) => Some(fs.iter().map(|x| x.ty.clone()).collect()),
    }
}

fn unnamed(ty: &str) -> FieldsShape {
    FieldsShape::Unnamed(vec![FieldShape { name: None, ty: ty.to_string() }])
}

fn variant(name: &str, attrs: &[&str], fields: FieldsShape) -> VariantShape {
    VariantShape {
        name: name.to_string(),
        attrs: attrs.iter().map(|a| a.to_string()).collect(),
        fields,
    }
}

#[test]
fn basic() {
    let attr = "NetEvent<foo::Bar>";
    let item = r#"
        /// Documentation.
        #[derive(Clone)]
        enum AllMessages {

            Sub1(Inner1),

            #[skip]
            /// D3
            Sub3,

            /// D4
            #[skip]
            Sub4(Inner2),

            /// D2
            Sub2(Inner2),
        }
    "#;
    let (event, name, cleaned, dispatched) =
        subsystem_dispatch_gen_from_source(attr, item).expect("Simple example always works. qed");
    assert_eq!(event, "NetEvent < foo :: Bar >");
    assert_eq!(name, "AllMessages");
    let got: Vec<(String, String, String)> = dispatched
        .iter()
        .map(|d| (d.ty.clone(), d.variant.name.clone(), d.variant.inner.clone().unwrap()))
        .collect();
    assert_eq!(
        got,
        vec![
            ("AllMessages".to_string(), "Sub1".to_string(), "Inner1".to_string()),
            ("AllMessages".to_string(), "Sub2".to_string(), "Inner2".to_string()),
        ]
    );
    let names: Vec<String> = cleaned.iter().map(|v| v.name.clone()).collect();
    assert_eq!(names, vec!["Sub1", "Sub3", "Sub4", "Sub2"]);
    for v in cleaned.iter() {
        assert!(!v.attrs.iter().any(|a| a == "skip"));
    }
    assert_eq!(cleaned[1].attrs, vec!["doc".to_string()]);
    assert_eq!(field_types(&cleaned[0].fields), Some(vec!["Inner1".to_string()]));
    assert_eq!(field_types(&cleaned[1].fields), None);
    assert_eq!(field_types(&cleaned[2].fields), Some(vec!["Inner2".to_string()]));
    assert_eq!(field_types(&cleaned[3].fields), Some(vec!["Inner2".to_string()]));
}

#[test]
fn source_that_does_not_parse_is_an_error() {
    let item = "enum E { A(X) }";
    assert!(subsystem_dispatch_gen_from_source("NetEvent<X>", item).is_ok());
    assert_eq!(subsystem_dispatch_gen_from_source("1 + 2", item).err(), Some(DispatchSourceError::Parse));
    assert_eq!(
        subsystem_dispatch_gen_from_source("NetEvent<X>", "struct S;").err(),
        Some(DispatchSourceError::Parse)
    );
    assert_eq!(
        subsystem_dispatch_gen_from_source("NetEvent<X>", "enum E { A }").err(),
        Some(DispatchSourceError::Variant(DispatchGenError::UnitNotSkipped))
    );
    let named = "enum E { A { other: u8, inner: Inner } }";
    let (_, _, _, d) = subsystem_dispatch_gen_from_source("NetEvent<X>", named).unwrap();
    assert_eq!(d[0].variant.inner, Some("Inner".to_string()));
}

#[test]
fn pre_parsed_variants() {
    let variants = vec![
        variant("Sub1", &[], unnamed("Inner1")),
        variant("Sub3", &["skip", "doc"], FieldsShape::Unit),
        variant("Sub4", &["doc", "skip"], unnamed("Inner2")),
        variant("Sub2", &["doc"], unnamed("Inner2")),
    ];
    let (cleaned, dispatched) =
        impl_subsystem_dispatch_gen(&"AllMessages".to_string(), variants).expect("Simple example always works. qed");
    let got: Vec<(String, String, String)> = dispatched
        .iter()
        .map(|d| (d.ty.clone(), d.variant.name.clone(), d.variant.inner.clone().unwrap()))
        .collect();
    assert_eq!(
        got,
        vec![
            ("AllMessages".to_string(), "Sub1".to_string(), "Inner1".to_string()),
            ("AllMessages".to_string(), "Sub2".to_string(), "Inner2".to_string()),
        ]
    );
    assert_eq!(cleaned.len(), 4);
    assert_eq!(cleaned[1].attrs, vec!["doc".to_string()]);
    assert_eq!(cleaned[2].attrs, vec!["doc".to_string()]);
    assert_eq!(cleaned[3].attrs, vec!["doc".to_string()]);
    assert_eq!(field_types(&cleaned[2].fields), Some(vec!["Inner2".to_string()]));
    assert_eq!(field_types(&cleaned[1].fields), None);
}

#[test]
fn struct_variants_dispatch_through_inner() {
    let mut v = variant(
        "Sub",
        &[],
        FieldsShape::Named(vec![
            FieldShape { name: Some("other".to_string()), ty: "u8".to_string() },
            FieldShape { name: Some("inner".to_string()), ty: "Inner".to_string() },
        ]),
    );
    let d = prepare_enum_variant(&mut v).ok().unwrap();
    assert_eq!(d.name, "Sub");
    assert_eq!(field_types(&v.fields), Some(vec!["u8".to_string(), "Inner".to_string()]));
    assert_eq!(d.inner, Some("Inner".to_string()));
}

#[test]
fn unmarked_variants_without_a_wrapped_type_are_errors() {
    let mut unit = variant("Sub", &[], FieldsShape::Unit);
    assert_eq!(prepare_enum_variant(&mut unit).err(), Some(DispatchGenError::UnitNotSkipped));
    let mut empty = variant("Sub", &[], FieldsShape::Unnamed(vec![]));
    assert_eq!(prepare_enum_variant(&mut empty).err(), Some(DispatchGenError::NoUnnamedField));
    let mut no_inner = variant(
        "Sub",
        &[],
        FieldsShape::Named(vec![FieldShape { name: Some("x".to_string()), ty: "u8".to_string() }]),
    );
    assert_eq!(prepare_enum_variant(&mut no_inner).err(), Some(DispatchGenError::NoInnerField));
    assert_eq!(DispatchGenError::UnitNotSkipped.message(), "Must be annotated with #[skip].");
    assert_eq!(
        DispatchGenError::NoInnerField.message(),
        "To dispatch with struct enum variant, one element must named `inner`"
    );
    assert_eq!(
        DispatchGenError::NoUnnamedField.message(),
        "Must be annotated with skip, even if no inner types exist."
    );
}

#[test]
fn the_first_bad_variant_stops_generation() {
    let variants = vec![
        variant("A", &[], unnamed("X")),
        variant("B", &[], FieldsShape::Unit),
        variant("C", &[], FieldsShape::Unnamed(vec![])),
    ];
    let r = impl_subsystem_dispatch_gen(&"M".to_string(), variants);
    assert_eq!(r.err(), Some(DispatchGenError::UnitNotSkipped));
}
