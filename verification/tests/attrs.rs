use rweb::attrs::{parse, AttrError, OpenapiConfig, OperationAttr};
use rweb::entity::Schema;
use rweb::openapi::{Location, Parameter, Response};
use rweb::params::HandlerInput;

fn arg(name: &str, ty: &str) -> HandlerInput {
    HandlerInput {
        receiver: false,
        ident: Some(name.to_string()),
        rust_type: ty.to_string(),
        unit_type: false,
        marks: vec![],
    }
}

fn type_ref(t: &str) -> Schema {
    let mut s = Schema::blank();
    s.ref_path = t.to_string();
    s
}

fn doc(s: &str) -> OperationAttr {
    OperationAttr::Doc(s.to_string())
}

#[test]
fn parse_reads_path_params_docs_and_settings() {
    let args = vec![arg("id", "String")];
    let mut attrs = vec![
        doc(" Gets a product"),
        OperationAttr::Openapi(vec![
            OpenapiConfig::Id("get_product".to_string()),
            OpenapiConfig::Tags(vec!["shop".to_string(), "read".to_string()]),
            OpenapiConfig::Summary("one product".to_string()),
        ]),
        doc("   by its id"),
        OperationAttr::Other,
    ];
    let op = parse("/products/{id}", &args, &mut attrs).unwrap();
    assert_eq!(
        op.parameters,
        vec![Parameter {
            name: "id".to_string(),
            location: Location::Path,
            required: Some(true),
            description: String::new(),
            schema: Some(type_ref("String")),
        }]
    );
    assert_eq!(op.description, "Gets a product by its id");
    assert_eq!(op.operation_id, "get_product");
    assert_eq!(op.summary, "one product");
    assert_eq!(op.tags, vec!["shop".to_string(), "read".to_string()]);
    assert_eq!(attrs, vec![doc(" Gets a product"), doc("   by its id"), OperationAttr::Other]);
}

#[test]
fn parse_explicit_description_wins_over_later_docs() {
    let mut attrs = vec![
        doc("first"),
        OperationAttr::Openapi(vec![OpenapiConfig::Description("explicit".to_string())]),
        doc("second"),
    ];
    let op = parse("/", &vec![], &mut attrs).unwrap();
    assert_eq!(op.description, "explicit");
    assert_eq!(attrs, vec![doc("first"), doc("second")]);
}

#[test]
fn parse_refuses_a_second_id() {
    let mut attrs = vec![
        OperationAttr::Openapi(vec![OpenapiConfig::Id("a".to_string())]),
        OperationAttr::Openapi(vec![OpenapiConfig::Id("b".to_string())]),
    ];
    let before = attrs.clone();
    assert_eq!(parse("/", &vec![], &mut attrs), Err(AttrError::DuplicateId));
    assert_eq!(attrs, before);
}

#[test]
fn parse_responses_by_code() {
    let resp = |c: &str, d: &str| OpenapiConfig::Response {
        code: c.to_string(),
        description: d.to_string(),
    };
    let mut attrs = vec![OperationAttr::Openapi(vec![
        resp("409", "exists"),
        resp("200", "ok"),
        resp("409", "again"),
    ])];
    let op = parse("/", &vec![], &mut attrs).unwrap();
    assert_eq!(
        op.responses,
        vec![
            ("409".to_string(), Response { description: "409".to_string(), content: vec![] }),
            ("200".to_string(), Response { description: "ok".to_string(), content: vec![] }),
        ]
    );
    assert!(attrs.is_empty());
}

#[test]
fn parse_path_segments() {
    let args = vec![arg("a", "u32"), arg("b", "String")];
    let op = parse("/x/{b}/{zz}//{a}/", &args, &mut vec![]).unwrap();
    let names: Vec<&str> = op.parameters.iter().map(|p| p.name.as_str()).collect();
    assert_eq!(names, vec!["b", "a"]);
    assert_eq!(op.parameters[0].schema, Some(type_ref("String")));
    assert_eq!(op.parameters[1].schema, Some(type_ref("u32")));
    assert_eq!(
        parse("/x/{", &args, &mut vec![]),
        Err(AttrError::MalformedParam("{".to_string()))
    );
    assert_eq!(
        parse("/x/{aé", &args, &mut vec![]),
        Err(AttrError::MalformedParam("{aé".to_string()))
    );
}

#[test]
fn parse_receiver_is_not_a_path_param() {
    let mut me = arg("self", "Self");
    me.receiver = true;
    let op = parse("/{self}", &vec![me], &mut vec![]).unwrap();
    assert!(op.parameters.is_empty());
}

#[test]
fn kept_attrs_hold_no_openapi() {
    let mut attrs = vec![
        OperationAttr::Openapi(vec![]),
        doc("a"),
        OperationAttr::Openapi(vec![OpenapiConfig::Summary("s".to_string())]),
        OperationAttr::Other,
    ];
    parse("/", &vec![], &mut attrs).unwrap();
    assert_eq!(attrs, vec![doc("a"), OperationAttr::Other]);
    assert!(attrs.iter().all(|a| !matches!(a, OperationAttr::Openapi(_))));
}
