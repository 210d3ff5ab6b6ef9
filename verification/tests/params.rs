use rweb::params::{compile, ArgMark, CompiledParams, Extraction, HandlerInput, ParamError};

fn arg(name: &str, ty: &str, marks: Vec<ArgMark>) -> HandlerInput {
    HandlerInput {
        receiver: false,
        ident: Some(name.to_string()),
        rust_type: ty.to_string(),
        unit_type: ty == "()",
        marks,
    }
}

fn var(n: &str, i: usize) -> (String, usize) {
    (n.to_string(), i)
}

#[test]
fn path_params_move_to_their_segments() {
    let args = vec![arg("q", "Query<S>", vec![]), arg("id", "String", vec![])];
    let c = compile(&args, &vec![var("id", 1)], true).unwrap();
    assert_eq!(
        c,
        CompiledParams {
            filters: vec![Extraction::FromRequest("Query<S>".to_string())],
            inputs: vec![1, 0],
            from_request_types: vec!["Query<S>".to_string()],
            data_inputs: vec![],
        }
    );
}

#[test]
fn marked_arguments_add_their_filters() {
    let args = vec![
        arg("body", "Product", vec![ArgMark::Json]),
        arg("sid", "String", vec![ArgMark::Cookie(Some("sid".to_string()))]),
        arg("db", "Db", vec![ArgMark::Data]),
        arg("_x", "()", vec![ArgMark::Filter("auth::check".to_string())]),
        arg("other", "u8", vec![ArgMark::Other]),
    ];
    let c = compile(&args, &vec![], true).unwrap();
    assert_eq!(
        c.filters,
        vec![
            Extraction::Json,
            Extraction::Cookie("sid".to_string()),
            Extraction::Provider("db".to_string()),
            Extraction::Filter("auth::check".to_string()),
        ]
    );
    assert_eq!(c.inputs, vec![0, 1, 2, 4]);
    assert_eq!(c.data_inputs, vec![2]);
    assert!(c.from_request_types.is_empty());

    let c = compile(&args, &vec![], false).unwrap();
    assert_eq!(c.filters.len(), 3);
    assert_eq!(c.data_inputs, vec![2]);
}

#[test]
fn receiver_and_errors() {
    let mut me = arg("self", "Self", vec![]);
    me.receiver = true;
    let c = compile(&vec![me], &vec![], true).unwrap();
    assert!(c.inputs.is_empty() && c.filters.is_empty());

    let two = vec![arg("a", "u8", vec![ArgMark::Json, ArgMark::Other])];
    assert_eq!(compile(&two, &vec![], true), Err(ParamError::TooManyMarks));
    let bad_cookie = vec![arg("a", "u8", vec![ArgMark::Cookie(None)])];
    assert_eq!(compile(&bad_cookie, &vec![], true), Err(ParamError::MalformedCookie));
    let bad_header = vec![arg("a", "u8", vec![ArgMark::Header(None)])];
    assert_eq!(compile(&bad_header, &vec![], true), Err(ParamError::MalformedHeader));
    let mut pat = arg("a", "u8", vec![ArgMark::Data]);
    pat.ident = None;
    assert_eq!(compile(&vec![pat], &vec![], false), Err(ParamError::ComplexDataPattern));
    let one = vec![arg("a", "u8", vec![])];
    assert_eq!(compile(&one, &vec![var("a", 3)], true), Err(ParamError::PathVarOutOfRange));
    assert_eq!(
        compile(&one, &vec![var("b", 0), var("a", 0)], true),
        Err(ParamError::PathVarOutOfRange)
    );
}

#[test]
fn header_and_other_marks() {
    let args = vec![
        arg("h", "String", vec![ArgMark::Header(Some("accept".to_string()))]),
        arg("raw", "String", vec![ArgMark::Query]),
        arg("f", "Form<X>", vec![ArgMark::Form]),
        arg("b", "Bytes", vec![ArgMark::Body]),
    ];
    let c = compile(&args, &vec![], true).unwrap();
    assert_eq!(
        c.filters,
        vec![
            Extraction::Header("accept".to_string()),
            Extraction::RawQuery,
            Extraction::Form,
            Extraction::Bytes,
        ]
    );
    assert_eq!(c.inputs, vec![0, 1, 2, 3]);
}
