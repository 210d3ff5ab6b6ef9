use rweb::fn_attrs::{
    compile_fn_attrs, compile_item_attrs, CorsConfig, CorsStep, FnAttr, FnAttrError, RouteFilter,
};

fn s(x: &str) -> String {
    x.to_string()
}

#[test]
fn header_and_body_size_are_taken_off() {
    let mut attrs = vec![
        FnAttr::Other,
        FnAttr::Header(Some((s("Content-Type"), s("application/json")))),
        FnAttr::BodySize(Some((s("max"), s("\"8192\"")))),
        FnAttr::Cors(Some(vec![])),
        FnAttr::BodySize(Some((s("max"), s("1024")))),
    ];
    let fs = compile_fn_attrs(&mut attrs, false).unwrap();
    assert_eq!(
        fs,
        vec![
            RouteFilter::ExactHeader(s("Content-Type"), s("application/json")),
            RouteFilter::ContentLengthLimit(s("8192")),
            RouteFilter::ContentLengthLimit(s("1024")),
        ]
    );
    assert_eq!(attrs, vec![FnAttr::Other, FnAttr::Cors(Some(vec![]))]);
}

#[test]
fn cors_after_the_map() {
    let mut attrs = vec![
        FnAttr::Cors(Some(vec![
            CorsConfig::Origins(vec![s("\"*\""), s("\"example.com\"")]),
            CorsConfig::Methods(vec![s("get"), s("post")]),
            CorsConfig::Headers(vec![s("\"accept\"")]),
            CorsConfig::MaxAge(s("600")),
        ])),
        FnAttr::Other,
    ];
    let fs = compile_fn_attrs(&mut attrs, true).unwrap();
    assert_eq!(
        fs,
        vec![RouteFilter::Cors(vec![
            CorsStep::AnyOrigin,
            CorsStep::Origin(s("\"example.com\"")),
            CorsStep::Method(s("get")),
            CorsStep::Method(s("post")),
            CorsStep::Header(s("\"accept\"")),
            CorsStep::MaxAge(s("600")),
        ])]
    );
    assert_eq!(attrs, vec![FnAttr::Other]);
}

#[test]
fn fn_attr_errors_leave_attrs() {
    let cases = vec![
        (FnAttr::Header(None), FnAttrError::MalformedHeader),
        (FnAttr::BodySize(None), FnAttrError::MalformedBodySize),
        (FnAttr::BodySize(Some((s("min"), s("1")))), FnAttrError::UnknownBodySizeConfig),
        (FnAttr::BodySize(Some((s("max"), s("\"")))), FnAttrError::MalformedLimit),
        (FnAttr::Cors(None), FnAttrError::MalformedCors),
        (FnAttr::Cors(Some(vec![CorsConfig::Unknown])), FnAttrError::MalformedCors),
    ];
    for (a, e) in cases {
        let mut attrs = vec![FnAttr::Other, a];
        let before = attrs.clone();
        assert_eq!(compile_fn_attrs(&mut attrs, true), Err(e));
        assert_eq!(attrs, before);
    }
}

#[test]
fn item_attrs_keep_cors() {
    let mut attrs = vec![FnAttr::Cors(None), FnAttr::Header(Some((s("a"), s("b"))))];
    let fs = compile_item_attrs(&mut attrs).unwrap();
    assert_eq!(fs, vec![RouteFilter::ExactHeader(s("a"), s("b"))]);
    assert_eq!(attrs, vec![FnAttr::Cors(None)]);
}

#[test]
fn compiling_again_adds_nothing() {
    let mut attrs = vec![
        FnAttr::Header(Some((s("a"), s("b")))),
        FnAttr::Cors(Some(vec![CorsConfig::MaxAge(s("1"))])),
        FnAttr::Other,
    ];
    let first = compile_fn_attrs(&mut attrs, false).unwrap();
    assert_eq!(first.len(), 1);
    let kept = attrs.clone();
    assert_eq!(compile_fn_attrs(&mut attrs, false), Ok(vec![]));
    assert_eq!(attrs, kept);
    let second = compile_fn_attrs(&mut attrs, true).unwrap();
    assert_eq!(second.len(), 1);
    assert_eq!(compile_fn_attrs(&mut attrs, true), Ok(vec![]));
    assert_eq!(attrs, vec![FnAttr::Other]);
}
