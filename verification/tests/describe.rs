use rweb::describe::{describe_plan, reference_schema};
use rweb::entity::{ComponentDescriptor, ComponentOrInlineSchema, Schema, SchemaType};
use rweb::schema::{field_name, FieldSchema, SchemaAttr, SchemaLit, SchemaMeta};
use rweb::schema_plan::{
    derive_schema, FieldDef, FieldsDef, SchemaBody, Tagging, TypeData, TypeDef, VariantBody,
    VariantDef,
};

fn s(x: &str) -> String {
    x.to_string()
}

fn field(name: &str, ty: &str, words: &[&str]) -> FieldDef {
    FieldDef {
        name: s(name),
        rust_type: s(ty),
        attrs: vec![],
        serde_words: words.iter().map(|w| s(w)).collect(),
    }
}

fn ty(ident: &str, data: TypeData) -> TypeDef {
    TypeDef {
        ident: s(ident),
        attrs: vec![],
        untagged: false,
        tag: None,
        content: None,
        generic: false,
        generic_params: vec![],
        data,
    }
}

fn inline(t: SchemaType) -> ComponentOrInlineSchema {
    ComponentOrInlineSchema::Inline(Schema::typed(t))
}

fn nullable(t: SchemaType) -> ComponentOrInlineSchema {
    let mut x = Schema::typed(t);
    x.nullable = Some(true);
    ComponentOrInlineSchema::Inline(x)
}

fn props(x: &Schema) -> Vec<(String, Schema)> {
    x.properties.clone()
}

#[test]
fn struct_object_requires_non_nullable_fields() {
    let t = ty("S", TypeData::Struct(FieldsDef::Named(vec![field("a", "u32", &[]), field("b", "Option<u32>", &[])])));
    let plan = derive_schema(&t).unwrap();
    let (d, r) = describe_plan(
        &plan,
        &plan.schema_name,
        vec![vec![inline(SchemaType::Integer), nullable(SchemaType::Integer)]],
        ComponentDescriptor::new(),
    );
    let o = match r {
        ComponentOrInlineSchema::Inline(o) => o,
        other => panic!("expected an inline schema, got {:?}", other),
    };
    assert_eq!(o.schema_type, Some(SchemaType::Object));
    assert_eq!(o.description, "");
    assert_eq!(o.required, vec![s("a")]);
    let mut b = Schema::typed(SchemaType::Integer);
    b.nullable = Some(true);
    assert_eq!(props(&o), vec![(s("a"), Schema::typed(SchemaType::Integer)), (s("b"), b)]);
    assert!(d.build().is_empty());
}

#[test]
fn component_type_is_registered_once() {
    let mut t = ty("ComponentTestReq", TypeData::Struct(FieldsDef::Named(vec![field("data", "String", &[])])));
    t.attrs = vec![SchemaAttr::Schema(Some(vec![SchemaMeta::NameValue(s("component"), SchemaLit::Str(s("Item")))]))];
    let plan = derive_schema(&t).unwrap();
    assert_eq!(plan.schema_name, "Item");
    let (d, r) = describe_plan(&plan, "Item", vec![vec![inline(SchemaType::String)]], ComponentDescriptor::new());
    assert_eq!(r, ComponentOrInlineSchema::Component { name: s("Item") });
    let stored = d.get_component("Item").unwrap().clone();
    assert_eq!(stored.schema_type, Some(SchemaType::Object));
    assert_eq!(stored.required, vec![s("data")]);
    assert_eq!(props(&stored), vec![(s("data"), Schema::typed(SchemaType::String))]);
    // a second description adds nothing
    let (d, r2) = describe_plan(&plan, "Item", vec![vec![inline(SchemaType::Integer)]], d);
    assert_eq!(r2, ComponentOrInlineSchema::Component { name: s("Item") });
    let all = d.build();
    assert_eq!(all.len(), 1);
    assert_eq!(all[0].1, stored);
}

#[test]
fn field_settings_reach_inline_properties_only() {
    let mut f = field("token", "String", &["skip_serializing"]);
    f.attrs = vec![SchemaAttr::Doc(Some(s("The token")))];
    let t = ty("S", TypeData::Struct(FieldsDef::Named(vec![f, field("next", "Node", &[])])));
    let plan = derive_schema(&t).unwrap();
    let mut comp = ComponentDescriptor::new();
    let (c2, node) = comp.describe_component("Node", |d| (d, Schema::typed(SchemaType::Object)));
    comp = c2;
    let (_, r) = describe_plan(&plan, "S", vec![vec![inline(SchemaType::String), node]], comp);
    let o = match r {
        ComponentOrInlineSchema::Inline(o) => o,
        other => panic!("expected an inline schema, got {:?}", other),
    };
    let mut token = Schema::typed(SchemaType::String);
    token.description = s("The token");
    token.write_only = Some(true);
    assert_eq!(props(&o), vec![(s("token"), token), (s("next"), reference_schema("Node"))]);
    assert_eq!(o.required, vec![s("token"), s("next")]);
}

#[test]
fn field_rename_wins_over_rule() {
    let metas = vec![SchemaMeta::NameValue(s("rename"), SchemaLit::Str(s("y2")))];
    assert_eq!(field_name(&metas, s("y")), "y2");
    assert_eq!(field_name(&vec![], s("pageToken")), "pageToken");
}

#[test]
fn string_enums_and_tagged_string_enums() {
    let vs = vec![
        VariantDef { name: s("A"), attrs: vec![], fields: FieldsDef::Unit },
        VariantDef { name: s("B"), attrs: vec![], fields: FieldsDef::Unit },
    ];
    let plan = derive_schema(&ty("E", TypeData::Enum(vs.clone()))).unwrap();
    let (_, r) = describe_plan(&plan, "E", vec![], ComponentDescriptor::new());
    let mut expected = Schema::typed(SchemaType::String);
    expected.enum_values = vec![s("A"), s("B")];
    assert_eq!(r, ComponentOrInlineSchema::Inline(expected.clone()));
    let mut t = ty("E", TypeData::Enum(vs));
    t.tag = Some(s("kind"));
    let plan = derive_schema(&t).unwrap();
    let (_, r) = describe_plan(&plan, "E", vec![], ComponentDescriptor::new());
    let mut obj = Schema::typed(SchemaType::Object);
    obj.properties = vec![(s("kind"), expected)];
    obj.required = vec![s("kind")];
    assert_eq!(r, ComponentOrInlineSchema::Inline(obj));
}

#[test]
fn internally_tagged_variants_carry_their_tag() {
    let plan_body = SchemaBody::OneOf {
        tagging: Tagging::Internal(s("type")),
        variants: vec![
            (s("Num"), VariantBody::Inner { rust_type: s("u8"), description: s("") }),
            (s("Unit"), VariantBody::Nothing),
        ],
    };
    let mut plan = derive_schema(&ty("E", TypeData::Struct(FieldsDef::Unit))).unwrap();
    plan.body = plan_body;
    let (_, r) = describe_plan(&plan, "E", vec![vec![inline(SchemaType::Integer)], vec![]], ComponentDescriptor::new());
    let o = match r {
        ComponentOrInlineSchema::Inline(o) => o,
        other => panic!("expected an inline schema, got {:?}", other),
    };
    assert_eq!(o.one_of.len(), 2);
    let mut name = Schema::typed(SchemaType::String);
    name.enum_values = vec![s("Num")];
    let mut tag_obj = Schema::typed(SchemaType::Object);
    tag_obj.properties = vec![(s("type"), name)];
    tag_obj.required = vec![s("type")];
    assert_eq!(o.one_of[0].all_of, vec![tag_obj, Schema::typed(SchemaType::Integer)]);
    assert_eq!(o.one_of[1].required, vec![s("type")]);
    assert_eq!(o.one_of[1].schema_type, Some(SchemaType::Object));
}

#[test]
fn unit_variants_of_named_enum_are_plain() {
    let vs = vec![
        VariantDef { name: s("A"), attrs: vec![], fields: FieldsDef::Named(vec![field("x", "u8", &[])]) },
        VariantDef { name: s("B"), attrs: vec![], fields: FieldsDef::Unit },
    ];
    let plan = derive_schema(&ty("E", TypeData::Enum(vs))).unwrap();
    let (_, r) = describe_plan(&plan, "E", vec![vec![inline(SchemaType::Integer)], vec![]], ComponentDescriptor::new());
    let o = match r {
        ComponentOrInlineSchema::Inline(o) => o,
        other => panic!("expected an inline schema, got {:?}", other),
    };
    assert_eq!(o.one_of.len(), 2);
    assert_eq!(o.one_of[0].required, vec![s("A")]);
    assert_eq!(o.one_of[0].properties[0].0, "A");
    assert_eq!(o.one_of[0].properties[0].1.required, vec![s("x")]);
    assert_eq!(o.one_of[1].enum_values, vec![s("B")]);
}

#[test]
fn reference_schema_points_at_component() {
    assert_eq!(reference_schema("Item").ref_path, "#/components/schemas/Item");
    let _ = FieldSchema { description: None, example: None, write_only: false, read_only: false };
}
