use compiler::add_assign::{
    add_assign_body, add_assign_plan, classify_meta, decide_add_assign, derive_item_of, read_derive_item,
    rhs_from_attribute, rhs_type,
    AddAssignBody, AddAssignError, DataShape, DeriveError, FieldsShape, MetaItem, RawMeta, RhsAttrError,
    RhsType,
};

#[test]
fn unit_struct_adds_nothing() {
    assert!(matches!(add_assign_body(&DataShape::Struct(FieldsShape::Unit)), Ok(AddAssignBody::Empty)));
}

#[test]
fn tuple_struct_of_one_field_adds_to_it() {
    assert!(matches!(
        add_assign_body(&DataShape::Struct(FieldsShape::Unnamed(1))),
        Ok(AddAssignBody::TupleField)
    ));
}

#[test]
fn named_struct_of_one_field_adds_to_that_field() {
    match add_assign_body(&DataShape::Struct(FieldsShape::Named(vec!["total".to_string()]))) {
        Ok(AddAssignBody::NamedField(name)) => assert_eq!(name, "total"),
        other => panic!("unexpected {:?}", other),
    }
}

#[test]
fn struct_with_other_than_one_field_is_refused() {
    assert!(matches!(
        add_assign_body(&DataShape::Struct(FieldsShape::Unnamed(2))),
        Err(DeriveError::NotOneField)
    ));
    assert!(matches!(
        add_assign_body(&DataShape::Struct(FieldsShape::Unnamed(0))),
        Err(DeriveError::NotOneField)
    ));
    assert!(matches!(
        add_assign_body(&DataShape::Struct(FieldsShape::Named(vec!["a".to_string(), "b".to_string()]))),
        Err(DeriveError::NotOneField)
    ));
    assert!(matches!(
        add_assign_body(&DataShape::Struct(FieldsShape::Named(vec![]))),
        Err(DeriveError::NotOneField)
    ));
}

#[test]
fn enum_and_union_are_refused() {
    assert!(matches!(add_assign_body(&DataShape::Enum), Err(DeriveError::NotAStruct)));
    assert!(matches!(add_assign_body(&DataShape::Union), Err(DeriveError::NotAStruct)));
}

fn raw(is_rhs: bool, literal: Option<&str>, suffixed: bool, parsed: bool) -> RawMeta {
    RawMeta { is_rhs, literal: literal.map(|t| t.to_string()), suffixed, parsed }
}

#[test]
fn rhs_entry_with_a_type_is_accepted() {
    match classify_meta(&raw(true, Some("u64"), false, true)) {
        MetaItem::Rhs(t) => assert_eq!(t, "u64"),
        other => panic!("unexpected {:?}", other),
    }
}

#[test]
fn rhs_entry_without_a_type_is_malformed() {
    assert!(matches!(classify_meta(&raw(true, Some("not a type"), false, false)), MetaItem::RhsMalformed));
    assert!(matches!(classify_meta(&raw(true, Some("u64"), true, false)), MetaItem::RhsMalformed));
    assert!(matches!(classify_meta(&raw(true, None, false, false)), MetaItem::RhsMalformed));
}

#[test]
fn other_entry_is_classified_as_other() {
    assert!(matches!(classify_meta(&raw(false, Some("u64"), false, true)), MetaItem::Other));
}

fn decision(source: &str) -> Result<(RhsType, AddAssignBody), AddAssignError> {
    add_assign_plan(source).expect("the item is read").1
}

#[test]
fn item_is_read_with_its_name_shape_and_attributes() {
    let item = read_derive_item("#[add_assign(rhs = \"u64\")] struct Total { sum: u64 }").unwrap();
    assert_eq!(item.name, "Total");
    assert!(matches!(&item.data, DataShape::Struct(FieldsShape::Named(names)) if names == &vec!["sum".to_string()]));
    assert_eq!(item.attrs.len(), 1);
    let attr = &item.attrs[0];
    assert!(attr.is_add_assign && attr.complete);
    assert_eq!(attr.metas.len(), 1);
    assert!(attr.metas[0].is_rhs && attr.metas[0].parsed && !attr.metas[0].suffixed);
    assert_eq!(attr.metas[0].literal.as_deref(), Some("u64"));
}

#[test]
fn generics_are_read_as_text() {
    let item = read_derive_item("struct Wrap<T: Copy>(T) where T: Default;").unwrap();
    assert!(item.impl_generics.contains("Copy"));
    assert!(item.type_generics.contains('T') && !item.type_generics.contains("Copy"));
    assert!(item.where_clause.contains("Default"));
}

#[test]
fn text_that_is_no_item_is_not_read() {
    assert!(add_assign_plan("this is not an item").is_err());
}

#[test]
fn plan_without_attribute_adds_self() {
    assert!(matches!(decision("struct Meters(u32);"), Ok((RhsType::SelfType, AddAssignBody::TupleField))));
    assert!(matches!(decision("struct Unit;"), Ok((RhsType::SelfType, AddAssignBody::Empty))));
}

#[test]
fn plan_with_attribute_adds_the_named_type() {
    match decision("#[add_assign(rhs = \"u64\")] struct Total { sum: u64 }") {
        Ok((RhsType::Given(t), AddAssignBody::NamedField(f))) => {
            assert_eq!(t, "u64");
            assert_eq!(f, "sum");
        },
        other => panic!("unexpected {:?}", other),
    }
}

#[test]
fn only_the_first_add_assign_attribute_counts() {
    let d = decision("#[doc = \"x\"] #[add_assign(rhs = \"i8\")] #[add_assign(nonsense)] struct A(i8);");
    assert!(matches!(d, Ok((RhsType::Given(t), AddAssignBody::TupleField)) if t == "i8"));
}

#[test]
fn refused_attributes_give_their_errors() {
    assert_eq!(
        decision("#[add_assign(rhs = \"not a type\")] struct A(u32);").unwrap_err(),
        AddAssignError::Attribute(RhsAttrError::Malformed)
    );
    assert_eq!(
        decision("#[add_assign(rhs = \"u32\"suffix)] struct A(u32);").unwrap_err(),
        AddAssignError::Attribute(RhsAttrError::Malformed)
    );
    assert_eq!(
        decision("#[add_assign(rhs = 5)] struct A(u32);").unwrap_err(),
        AddAssignError::Attribute(RhsAttrError::Malformed)
    );
    assert_eq!(
        decision("#[add_assign(other = \"u32\")] struct A(u32);").unwrap_err(),
        AddAssignError::Attribute(RhsAttrError::Expected)
    );
    assert_eq!(
        decision("#[add_assign()] struct A(u32);").unwrap_err(),
        AddAssignError::Attribute(RhsAttrError::Missing)
    );
    assert_eq!(
        decision("#[add_assign] struct A(u32);").unwrap_err(),
        AddAssignError::Attribute(RhsAttrError::Unreadable)
    );
}

#[test]
fn refused_attribute_comes_before_refused_shape() {
    assert_eq!(
        decision("#[add_assign(x)] enum E { A }").unwrap_err(),
        AddAssignError::Attribute(RhsAttrError::Expected)
    );
}

#[test]
fn refused_shapes_give_their_errors() {
    assert_eq!(decision("enum E { A }").unwrap_err(), AddAssignError::Shape(DeriveError::NotAStruct));
    assert_eq!(decision("union U { a: u8 }").unwrap_err(), AddAssignError::Shape(DeriveError::NotAStruct));
    assert_eq!(decision("struct P(u8, u8);").unwrap_err(), AddAssignError::Shape(DeriveError::NotOneField));
}

#[test]
fn attribute_gives_its_rhs_type() {
    let items = vec![MetaItem::Rhs("u32".to_string())];
    assert_eq!(rhs_from_attribute(&items), Ok("u32".to_string()));
}

#[test]
fn later_rhs_entry_wins() {
    let items = vec![MetaItem::Rhs("u32".to_string()), MetaItem::Rhs("i8".to_string())];
    assert_eq!(rhs_from_attribute(&items), Ok("i8".to_string()));
}

#[test]
fn attribute_without_rhs_is_refused() {
    assert_eq!(rhs_from_attribute(&vec![]), Err(RhsAttrError::Missing));
}

#[test]
fn first_refused_entry_decides_the_error() {
    let items = vec![MetaItem::Rhs("u32".to_string()), MetaItem::Other, MetaItem::RhsMalformed];
    assert_eq!(rhs_from_attribute(&items), Err(RhsAttrError::Expected));
    let items = vec![MetaItem::RhsMalformed, MetaItem::Other];
    assert_eq!(rhs_from_attribute(&items), Err(RhsAttrError::Malformed));
}

#[test]
fn rhs_defaults_to_self() {
    assert!(matches!(rhs_type(None), RhsType::SelfType));
    match rhs_type(Some("f64".to_string())) {
        RhsType::Given(t) => assert_eq!(t, "f64"),
        other => panic!("unexpected {:?}", other),
    }
}

#[test]
fn item_is_built_from_the_values_read() {
    let attrs = vec![
        (Some("doc".to_string()), vec![], false),
        (
            Some("add_assign".to_string()),
            vec![(Some("rhs".to_string()), Some(("u8".to_string(), String::new())))],
            true,
        ),
    ];
    let item = derive_item_of(
        "A".to_string(),
        String::new(),
        String::new(),
        String::new(),
        DataShape::Struct(FieldsShape::Unnamed(1)),
        attrs,
    );
    assert_eq!(item.name, "A");
    assert_eq!(item.attrs.len(), 2);
    assert!(!item.attrs[0].is_add_assign && !item.attrs[0].complete);
    assert!(item.attrs[1].is_add_assign && item.attrs[1].complete);
    let m = &item.attrs[1].metas[0];
    assert!(m.is_rhs && m.parsed && !m.suffixed);
    assert_eq!(m.literal.as_deref(), Some("u8"));
    assert!(matches!(decide_add_assign(&item), Ok((RhsType::Given(t), AddAssignBody::TupleField)) if t == "u8"));
}

#[test]
fn empty_source_is_no_item_and_the_name_comes_from_the_source() {
    assert!(read_derive_item("").is_err());
    let source = "struct r#Meters(u32);";
    let item = read_derive_item(source).unwrap();
    assert!(!item.name.is_empty() && source.contains(item.name.as_str()));
}

#[test]
fn builtin_names_are_types_and_numbers_are_not() {
    assert!(matches!(decision("#[add_assign(rhs = \"Self\")] struct A(u8);"), Ok((RhsType::Given(t), _)) if t == "Self"));
    assert_eq!(
        decision("#[add_assign(rhs = \"1u8\")] struct A(u8);").unwrap_err(),
        AddAssignError::Attribute(RhsAttrError::Malformed)
    );
}
