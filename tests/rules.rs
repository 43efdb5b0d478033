use from_dto::emit::{from_dto_derive, has_from_attribute, DeriveError};
use from_dto::eval::{apply_mapping, convert_each, convert_record, Slot};
use from_dto::model::{
    Attribute, Data, DeriveInput, Field, Fields, GenericArg, GenericArgs, Generics, Segment,
    TypePath, TypeRef, Variant,
};
use from_dto::shape::{
    classify_field, get_inner_type_from_option_vec, is_type_name, strip_generics, FieldMapping,
};

fn seg(ident: &str, args: Vec<TypeRef>) -> Segment {
    Segment {
        ident: ident.to_string(),
        args: if args.is_empty() {
            GenericArgs::Bare
        } else {
            GenericArgs::Angle(args.into_iter().map(GenericArg::Type).collect())
        },
    }
}

fn ty_path(text: &str, leading_colon: bool, segments: Vec<Segment>) -> TypeRef {
    TypeRef {
        text: text.to_string(),
        path: Some(TypePath { leading_colon, segments }),
    }
}

fn ty(name: &str) -> TypeRef {
    ty_path(name, false, vec![seg(name, vec![])])
}

fn ty_with(text: &str, name: &str, args: Vec<TypeRef>) -> TypeRef {
    ty_path(text, false, vec![seg(name, args)])
}

fn field(name: &str, t: TypeRef) -> Field {
    Field { ident: name.to_string(), ty: t }
}

fn decl(attrs: Vec<Attribute>, data: Data) -> DeriveInput {
    DeriveInput {
        attrs,
        ident: "Target".to_string(),
        generics: Generics {
            impl_params: String::new(),
            type_params: String::new(),
            where_clause: String::new(),
        },
        data,
    }
}

fn from_attr(t: TypeRef) -> Attribute {
    Attribute { path: "from".to_string(), arg: Some(t) }
}

fn one_field() -> Data {
    Data::Struct(Fields::Named(vec![field("id", ty("u32"))]))
}

#[test]
fn missing_annotation_is_fatal() {
    let d = decl(vec![], one_field());
    assert_eq!(from_dto_derive(&d), Err(DeriveError::MissingSource));
    assert_eq!(
        DeriveError::MissingSource.message(),
        "The #[from(Type)] attribute is required for FromDTO"
    );
}

#[test]
fn annotation_that_is_not_a_type_is_skipped() {
    let bad = Attribute { path: "from".to_string(), arg: None };
    let other = Attribute { path: "derive".to_string(), arg: Some(ty("Dto")) };
    assert!(!has_from_attribute(&vec![Attribute { path: "from".to_string(), arg: None }]));
    let d = decl(vec![bad, other], one_field());
    assert_eq!(from_dto_derive(&d), Err(DeriveError::MissingSource));
}

#[test]
fn only_from_annotations_generate() {
    let other = Attribute { path: "serde".to_string(), arg: Some(ty("Ignored")) };
    let d = decl(vec![other, from_attr(ty("Dto"))], one_field());
    assert_eq!(
        from_dto_derive(&d).unwrap(),
        "impl From<Dto> for Target  { fn from(value: Dto) -> Self { Self { id: value.id.into(), } } }"
    );
}

#[test]
fn union_is_fatal() {
    let d = decl(vec![from_attr(ty("Dto"))], Data::Union);
    assert_eq!(from_dto_derive(&d), Err(DeriveError::Union));
    assert_eq!(DeriveError::Union.message(), "Unions are not supported by FromDTO");
}

#[test]
fn tuple_and_unit_structs_are_fatal() {
    let tuple = decl(vec![from_attr(ty("Dto"))], Data::Struct(Fields::Unnamed(vec![ty("u8")])));
    assert_eq!(from_dto_derive(&tuple), Err(DeriveError::UnnamedFields));
    let unit = decl(vec![from_attr(ty("Dto"))], Data::Struct(Fields::Unit));
    assert_eq!(from_dto_derive(&unit), Err(DeriveError::UnnamedFields));
    assert_eq!(
        DeriveError::UnnamedFields.message(),
        "FromDTO only supports structs with named fields"
    );
}

#[test]
fn missing_annotation_wins_over_shape() {
    let d = decl(vec![], Data::Union);
    assert_eq!(from_dto_derive(&d), Err(DeriveError::MissingSource));
}

#[test]
fn empty_record_and_empty_enum() {
    let d = decl(vec![from_attr(ty("Dto"))], Data::Struct(Fields::Named(vec![])));
    assert_eq!(
        from_dto_derive(&d).unwrap(),
        "impl From<Dto> for Target  { fn from(value: Dto) -> Self { Self { } } }"
    );
    let e = decl(vec![from_attr(ty("Dto"))], Data::Enum(vec![]));
    assert_eq!(
        from_dto_derive(&e).unwrap(),
        "impl From<Dto> for Target  { fn from(value: Dto) -> Self { match value { } } }"
    );
}

#[test]
fn variants_of_every_arity() {
    let variants = vec![
        Variant { ident: "Empty".to_string(), fields: Fields::Unit },
        Variant {
            ident: "Pair".to_string(),
            fields: Fields::Unnamed(vec![ty("u8"), ty("u16")]),
        },
        Variant {
            ident: "Cat".to_string(),
            fields: Fields::Named(vec![field("name", ty("String")), field("age", ty("u8"))]),
        },
    ];
    let source = ty_with("Pets<T>", "Pets", vec![ty("T")]);
    let d = decl(vec![from_attr(source)], Data::Enum(variants));
    assert_eq!(
        from_dto_derive(&d).unwrap(),
        "impl From<Pets<T>> for Target  { fn from(value: Pets<T>) -> Self { match value { \
         Pets::Empty => Self::Empty, \
         Pets::Pair(v0, v1) => Self::Pair(v0.into(), v1.into()), \
         Pets::Cat { name, age } => Self::Cat { name: name.into(), age: age.into() }, } } }"
    );
}

#[test]
fn many_slots_are_numbered_in_decimal() {
    let slots: Vec<TypeRef> = (0..12).map(|_| ty("u8")).collect();
    let variants = vec![Variant { ident: "Wide".to_string(), fields: Fields::Unnamed(slots) }];
    let d = decl(vec![from_attr(ty("Dto"))], Data::Enum(variants));
    let out = from_dto_derive(&d).unwrap();
    assert!(out.contains(
        "Dto::Wide(v0, v1, v2, v3, v4, v5, v6, v7, v8, v9, v10, v11) => Self::Wide(v0.into(), \
         v1.into(), v2.into(), v3.into(), v4.into(), v5.into(), v6.into(), v7.into(), v8.into(), \
         v9.into(), v10.into(), v11.into())"
    ));
}

#[test]
fn optional_field_maps_inner_value() {
    let t = ty_with("Option<u8>", "Option", vec![ty("u8")]);
    assert_eq!(classify_field(&t), FieldMapping::Optional);
    let d = decl(
        vec![from_attr(ty("Dto"))],
        Data::Struct(Fields::Named(vec![field("count", t)])),
    );
    assert_eq!(
        from_dto_derive(&d).unwrap(),
        "impl From<Dto> for Target  { fn from(value: Dto) -> Self { \
         Self { count: value.count.map(Into::into), } } }"
    );
}

#[test]
fn stripping_drops_every_segments_arguments() {
    let t = ty_path(
        "::dto::Wrapper<T>",
        true,
        vec![seg("dto", vec![]), seg("Wrapper", vec![ty("T")])],
    );
    assert_eq!(strip_generics(&t), "::dto::Wrapper");
    let plain = ty_path("a::b::C", false, vec![seg("a", vec![]), seg("b", vec![]), seg("C", vec![])]);
    assert_eq!(strip_generics(&plain), "a::b::C");
    let tuple = TypeRef { text: "(u8, u16)".to_string(), path: None };
    assert_eq!(strip_generics(&tuple), "(u8, u16)");
}

#[test]
fn type_name_looks_at_every_segment() {
    let t = ty_path(
        "std::vec::Vec<u8>",
        false,
        vec![seg("std", vec![]), seg("vec", vec![]), seg("Vec", vec![ty("u8")])],
    );
    assert!(is_type_name(&t, "Vec"));
    assert!(is_type_name(&t, "std"));
    assert!(!is_type_name(&t, "Option"));
    let tuple = TypeRef { text: "(Vec<u8>,)".to_string(), path: None };
    assert!(!is_type_name(&tuple, "Vec"));
}

#[test]
fn inner_sequence_of_optional_sequence() {
    let inner = ty_path(
        "std::vec::Vec<u8>",
        false,
        vec![seg("std", vec![]), seg("vec", vec![]), seg("Vec", vec![ty("u8")])],
    );
    let t = ty_with("Option<std::vec::Vec<u8>>", "Option", vec![inner]);
    assert_eq!(get_inner_type_from_option_vec(&t).unwrap().text, "std::vec::Vec<u8>");
    assert_eq!(classify_field(&t), FieldMapping::OptionalSequence);
    let opt = ty_with("Option<u8>", "Option", vec![ty("u8")]);
    assert!(get_inner_type_from_option_vec(&opt).is_none());
    let bare = ty("Option");
    assert!(get_inner_type_from_option_vec(&bare).is_none());
    let vec_of_opt = ty_with("Vec<Option<u8>>", "Vec", vec![ty_with("Option<u8>", "Option", vec![ty("u8")])]);
    assert!(get_inner_type_from_option_vec(&vec_of_opt).is_none());
    assert_eq!(classify_field(&vec_of_opt), FieldMapping::Sequence);
    assert_eq!(classify_field(&ty("u8")), FieldMapping::Plain);
}

#[test]
fn sequence_keeps_order_and_length() {
    let out = apply_mapping(
        FieldMapping::Sequence,
        Slot::Many(vec!["John".to_string(), "Doe".to_string()]),
        &|s: String| s.len(),
    );
    assert_eq!(out, Some(Slot::Many(vec![4, 3])));
    assert_eq!(convert_each(vec![3u8, 1, 2], &|x: u8| u32::from(x) * 10), vec![30, 10, 20]);
    assert_eq!(convert_each(Vec::<u8>::new(), &|x: u8| x), Vec::<u8>::new());
}

#[test]
fn absence_is_kept() {
    let f = |x: u8| u16::from(x) + 1;
    assert_eq!(
        apply_mapping(FieldMapping::Optional, Slot::Maybe(None), &f),
        Some(Slot::Maybe(None))
    );
    assert_eq!(
        apply_mapping(FieldMapping::Optional, Slot::Maybe(Some(5)), &f),
        Some(Slot::Maybe(Some(6)))
    );
    assert_eq!(
        apply_mapping(FieldMapping::OptionalSequence, Slot::MaybeMany(None), &f),
        Some(Slot::MaybeMany(None))
    );
    assert_eq!(apply_mapping(FieldMapping::Plain, Slot::One(7), &f), Some(Slot::One(8)));
}

#[test]
fn value_of_the_wrong_form_does_not_convert() {
    let f = |x: u8| x;
    assert_eq!(apply_mapping(FieldMapping::Sequence, Slot::One(1), &f), None);
    assert_eq!(apply_mapping(FieldMapping::Plain, Slot::Many(vec![1]), &f), None);
    let fields = vec![
        field("id", ty("u8")),
        field("tags", ty_with("Vec<u8>", "Vec", vec![ty("u8")])),
    ];
    assert_eq!(convert_record(&fields, vec![Slot::One(1), Slot::One(2)], &f), None);
}
