use rweb::schema::{
    extract_component, extract_doc, extract_example, get_rename, handle_field, schema_name,
    FieldSchema,
    SchemaAttr, SchemaError, SchemaLit, SchemaMeta, SchemaNested,
};

fn s(x: &str) -> String {
    x.to_string()
}

fn nv(n: &str, v: &str) -> SchemaMeta {
    SchemaMeta::NameValue(s(n), SchemaLit::Str(s(v)))
}

fn doc(x: &str) -> SchemaAttr {
    SchemaAttr::Doc(Some(s(x)))
}

#[test]
fn doc_comments_join_with_spaces() {
    let attrs = vec![doc(" first"), SchemaAttr::Other, doc("second"), SchemaAttr::Doc(None)];
    assert_eq!(extract_doc(&attrs), Ok(s(" first second")));
    assert_eq!(extract_doc(&vec![]), Ok(s("")));
}

#[test]
fn schema_description_wins() {
    let attrs = vec![
        doc("comment"),
        SchemaAttr::Schema(Some(vec![nv("description", "one"), nv("example", "x")])),
        SchemaAttr::Schema(Some(vec![SchemaMeta::List(vec![SchemaNested::NameValue(
            s("description"),
            SchemaLit::Str(s("two")),
        )])])),
    ];
    assert_eq!(extract_doc(&attrs), Ok(s("two")));
    let bad = vec![SchemaAttr::Schema(Some(vec![SchemaMeta::NameValue(
        s("description"),
        SchemaLit::Other,
    )]))];
    assert_eq!(extract_doc(&bad), Err(SchemaError::DescriptionNotString));
    assert_eq!(
        extract_doc(&vec![SchemaAttr::Schema(Some(vec![SchemaMeta::Path]))]),
        Err(SchemaError::InvalidUsage)
    );
    assert_eq!(extract_doc(&vec![SchemaAttr::Schema(None)]), Err(SchemaError::Unparsable));
}

#[test]
fn component_names() {
    let one = vec![doc("x"), SchemaAttr::Schema(Some(vec![nv("component", "Item")]))];
    assert_eq!(extract_component(&one), Ok(Some(s("Item"))));
    assert_eq!(extract_component(&vec![doc("x")]), Ok(None));
    let two = vec![SchemaAttr::Schema(Some(vec![nv("component", "A"), nv("component", "B")]))];
    assert_eq!(extract_component(&two), Err(SchemaError::DuplicateComponent));
    let other = vec![SchemaAttr::Schema(Some(vec![nv("description", "d")]))];
    assert_eq!(extract_component(&other), Err(SchemaError::UnknownOption));
    let not_str = vec![SchemaAttr::Schema(Some(vec![SchemaMeta::NameValue(
        s("component"),
        SchemaLit::Other,
    )]))];
    assert_eq!(extract_component(&not_str), Err(SchemaError::ComponentNotString));
    let nested = vec![SchemaAttr::Schema(Some(vec![SchemaMeta::List(vec![SchemaNested::Other])]))];
    assert_eq!(extract_component(&nested), Err(SchemaError::InvalidUsage));
}

#[test]
fn examples() {
    let one = vec![SchemaAttr::Schema(Some(vec![nv("description", "d"), nv("example", "42")]))];
    assert_eq!(extract_example(&one), Ok(Some(s("42"))));
    let two = vec![
        SchemaAttr::Schema(Some(vec![nv("example", "1")])),
        SchemaAttr::Schema(Some(vec![nv("example", "2")])),
    ];
    assert_eq!(extract_example(&two), Err(SchemaError::DuplicateExample));
    let not_str = vec![SchemaAttr::Schema(Some(vec![SchemaMeta::NameValue(
        s("example"),
        SchemaLit::Other,
    )]))];
    assert_eq!(extract_example(&not_str), Err(SchemaError::ExampleNotString));
}

#[test]
fn field_schemas() {
    let attrs = vec![doc("the id"), SchemaAttr::Schema(Some(vec![nv("example", "7")]))];
    assert_eq!(
        handle_field(&attrs, &vec![s("skip_serializing")]),
        Ok(Some(FieldSchema {
            description: Some(s("the id")),
            example: Some(s("7")),
            write_only: true,
            read_only: false,
        }))
    );
    assert_eq!(handle_field(&attrs, &vec![s("skip")]), Ok(None));
    assert_eq!(
        handle_field(&vec![], &vec![s("skip_deserializing")]),
        Ok(Some(FieldSchema { description: None, example: None, write_only: false, read_only: true }))
    );
    assert_eq!(
        handle_field(&vec![SchemaAttr::Schema(None)], &vec![s("skip")]),
        Err(SchemaError::Unparsable)
    );
}

#[test]
fn schema_names() {
    assert_eq!(schema_name(None, s("Foo"), true, &vec![s("T"), s("U")]), "Foo-T_U-");
    assert_eq!(schema_name(Some(s("Bar")), s("Foo"), false, &vec![]), "Bar");
    assert_eq!(schema_name(None, s("Foo"), true, &vec![]), "Foo--");
    assert_eq!(schema_name(Some(s("Bar")), s("Foo"), true, &vec![s("T")]), "Bar-T-");
}

#[test]
fn renames() {
    let ms = vec![
        SchemaMeta::Path,
        SchemaMeta::NameValue(s("rename"), SchemaLit::Other),
        nv("default", "x"),
        nv("rename", "first"),
        nv("rename", "second"),
    ];
    assert_eq!(get_rename(&ms), Some(s("first")));
    assert_eq!(get_rename(&vec![nv("alias", "a")]), None);
}
