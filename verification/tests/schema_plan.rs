use rweb::schema::{FieldSchema, SchemaAttr, SchemaLit, SchemaMeta};
use rweb::schema_plan::{
    derive_schema, DeriveError, FieldDef, FieldsDef, PlannedField, SchemaBody, Tagging, TypeData,
    TypeDef, VariantBody, VariantDef,
};

fn s(x: &str) -> String {
    x.to_string()
}

fn field(name: &str, ty: &str, words: &[&str]) -> FieldDef {
    FieldDef {
        name: s(name),
        rust_type: s(ty),
        attrs: vec![],
        serde_words: words.iter().map(|w| s(w)).collect(),
    }
}

fn ty(data: TypeData) -> TypeDef {
    TypeDef {
        ident: s("Thing"),
        attrs: vec![],
        untagged: false,
        tag: None,
        content: None,
        generic: false,
        generic_params: vec![],
        data,
    }
}

fn variant(name: &str, fields: FieldsDef) -> VariantDef {
    VariantDef { name: s(name), attrs: vec![], fields }
}

#[test]
fn structs_list_their_fields() {
    let mut t = ty(TypeData::Struct(FieldsDef::Named(vec![
        field("id", "u64", &[]),
        field("secret", "String", &["skip"]),
        field("token", "String", &["skip_serializing"]),
    ])));
    t.attrs = vec![
        SchemaAttr::Doc(Some(s("A thing"))),
        SchemaAttr::Schema(Some(vec![SchemaMeta::NameValue(s("component"), SchemaLit::Str(s("Item")))])),
    ];
    t.generic = true;
    t.generic_params = vec![s("T")];
    let p = derive_schema(&t).unwrap();
    assert_eq!(p.description, "A thing");
    assert_eq!(p.component, Some(s("Item")));
    assert_eq!(p.example, None);
    assert_eq!(p.schema_name, "Item-T-");
    let plain = FieldSchema { description: None, example: None, write_only: false, read_only: false };
    assert_eq!(
        p.body,
        SchemaBody::Object(Some(vec![
            PlannedField { name: s("id"), rust_type: s("u64"), schema: plain.clone() },
            PlannedField {
                name: s("token"),
                rust_type: s("String"),
                schema: FieldSchema { write_only: true, ..plain },
            },
        ]))
    );
    let tuple = derive_schema(&ty(TypeData::Struct(FieldsDef::Unnamed(vec![s("u8")])))).unwrap();
    assert_eq!(tuple.body, SchemaBody::Object(None));
    assert_eq!(tuple.schema_name, "Thing");
}

#[test]
fn bare_enums_are_strings() {
    let vs = vec![variant("A", FieldsDef::Unit), variant("B", FieldsDef::Unnamed(vec![]))];
    let p = derive_schema(&ty(TypeData::Enum(vs.clone()))).unwrap();
    assert_eq!(p.body, SchemaBody::StringEnum(vec![s("A"), s("B")]));
    let mut t = ty(TypeData::Enum(vs.clone()));
    t.tag = Some(s("kind"));
    let p = derive_schema(&t).unwrap();
    assert_eq!(p.body, SchemaBody::TaggedStringEnum { tag: s("kind"), names: vec![s("A"), s("B")] });
    let mut t = ty(TypeData::Enum(vs));
    t.untagged = true;
    assert_eq!(derive_schema(&t), Err(DeriveError::UntaggedUnitEnum));
}

#[test]
fn other_enums_are_one_of() {
    let vs = vec![
        variant("Unit", FieldsDef::Unit),
        variant("Wrap", FieldsDef::Unnamed(vec![s("u32")])),
        variant("Rec", FieldsDef::Named(vec![field("x", "i8", &[])])),
    ];
    let mut t = ty(TypeData::Enum(vs.clone()));
    t.tag = Some(s("t"));
    t.content = Some(s("c"));
    let p = derive_schema(&t).unwrap();
    match p.body {
        SchemaBody::OneOf { tagging, variants } => {
            assert_eq!(tagging, Tagging::Adjacent(s("t"), s("c")));
            assert_eq!(variants.len(), 3);
            assert_eq!(variants[0], (s("Unit"), VariantBody::Nothing));
            assert_eq!(
                variants[1],
                (s("Wrap"), VariantBody::Inner { rust_type: s("u32"), description: s("") })
            );
            match &variants[2].1 {
                VariantBody::Fields { fields, .. } => assert_eq!(fields[0].name, "x"),
                other => panic!("unexpected {:?}", other),
            }
        }
        other => panic!("unexpected {:?}", other),
    }
    let mut t = ty(TypeData::Enum(vs.clone()));
    t.untagged = true;
    assert_eq!(derive_schema(&t), Err(DeriveError::UntaggedUnitVariant));
    let mut t = ty(TypeData::Enum(vs));
    t.content = Some(s("c"));
    assert_eq!(derive_schema(&t), Err(DeriveError::TagConfig));
    let pair = vec![variant("P", FieldsDef::Unnamed(vec![s("u8"), s("u8")]))];
    assert_eq!(derive_schema(&ty(TypeData::Enum(pair))), Err(DeriveError::TupleVariant));
    assert_eq!(derive_schema(&ty(TypeData::Union)), Err(DeriveError::Union));
}
