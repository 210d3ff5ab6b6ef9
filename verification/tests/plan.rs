use rweb::attrs::{OpenapiConfig, OperationAttr};
use rweb::fn_attrs::{FnAttr, RouteFilter};
use rweb::params::{ArgMark, Extraction, HandlerInput};
use rweb::plan::{compile_route, router, HandlerFn, RouteError};
use rweb::route::{PathFilter, RoutePathError, Segment};
use rweb::Method;

fn s(x: &str) -> String {
    x.to_string()
}

fn arg(name: &str, ty: &str, marks: Vec<ArgMark>) -> HandlerInput {
    HandlerInput { receiver: false, ident: Some(s(name)), rust_type: s(ty), unit_type: false, marks }
}

fn handler(args: Vec<HandlerInput>, ret: Option<&str>) -> HandlerFn {
    HandlerFn {
        is_async: false,
        return_type: ret.map(s),
        returns_impl_trait: false,
        has_body: true,
        args,
        attrs: vec![],
        op_attrs: vec![],
    }
}

#[test]
fn route_with_path_param_and_openapi() {
    let mut h = handler(vec![arg("id", "String", vec![])], Some("Json<Product>"));
    h.attrs = vec![FnAttr::Header(Some((s("accept"), s("json"))))];
    h.op_attrs = vec![
        OperationAttr::Doc(s(" A product")),
        OperationAttr::Openapi(vec![OpenapiConfig::Id(s("product"))]),
    ];
    let p = compile_route(Some(Method::Get), "/products/{id}", h, true).unwrap();
    assert_eq!(p.method, Some(Method::Get));
    assert_eq!(
        p.segments,
        vec![Segment::Literal(s("products")), Segment::Param { name: s("id"), index: 0 }]
    );
    assert_eq!(
        p.path_chain,
        vec![
            PathFilter::Base,
            PathFilter::Literal(s("products")),
            PathFilter::Param { index: 0 },
            PathFilter::End,
        ]
    );
    assert_eq!(p.params.inputs, vec![0]);
    assert!(p.params.filters.is_empty());
    assert_eq!(p.pre_filters, vec![RouteFilter::ExactHeader(s("accept"), s("json"))]);
    assert!(p.post_filters.is_empty());
    assert!(!p.and_then);
    assert_eq!(p.reply_type, Some(s("Json<Product>")));
    let op = p.operation.unwrap();
    assert_eq!(op.description, "A product");
    assert_eq!(op.operation_id, "product");
    assert_eq!(op.parameters.len(), 1);
    assert!(p.describes_response);
}

#[test]
fn async_and_cors_reply_with_impl_reply() {
    let mut h = handler(vec![arg("body", "Product", vec![ArgMark::Json])], None);
    h.is_async = true;
    let p = compile_route(None, "/", h, false).unwrap();
    assert!(p.and_then);
    assert_eq!(p.reply_type, None);
    assert_eq!(p.params.filters, vec![Extraction::Json]);
    assert!(p.operation.is_none());

    let mut h = handler(vec![], Some("String"));
    h.attrs = vec![FnAttr::Cors(Some(vec![]))];
    let p = compile_route(None, "/", h, false).unwrap();
    assert_eq!(p.reply_type, None);
    assert_eq!(p.post_filters, vec![RouteFilter::Cors(vec![])]);

    let mut h = handler(vec![], None);
    h.is_async = true;
    assert_eq!(compile_route(None, "/", h, true).err(), Some(RouteError::MissingReturnType));
}

#[test]
fn route_errors() {
    let h = handler(vec![], None);
    assert_eq!(compile_route(None, "/", h, false).err(), Some(RouteError::MissingReturnType));
    let h = handler(vec![], Some("String"));
    assert_eq!(
        compile_route(None, "nope", h, false).err(),
        Some(RouteError::Path(RoutePathError::MissingLeadingSlash))
    );
    let h = handler(vec![], Some("String"));
    assert_eq!(
        compile_route(None, "/{id}", h, false).err(),
        Some(RouteError::Path(RoutePathError::UnknownParam(s("id"))))
    );
}

#[test]
fn routers() {
    let mut h = handler(vec![arg("db", "Db", vec![ArgMark::Data])], None);
    h.has_body = false;
    h.op_attrs = vec![OperationAttr::Openapi(vec![OpenapiConfig::Tags(vec![s("admin")])])];
    let p = router("/admin", h, Some(vec![s("users"), s("roles")]), true).unwrap();
    assert_eq!(p.segments, vec![Segment::Literal(s("admin"))]);
    assert_eq!(p.path_chain, vec![PathFilter::Literal(s("admin"))]);
    assert_eq!(p.data_args, vec![s("db")]);
    assert!(p.params.filters.is_empty());
    assert_eq!(p.params.data_inputs, vec![0]);
    assert_eq!(p.services, vec![s("users"), s("roles")]);
    assert_eq!(p.tags, Some(vec![s("admin")]));

    let h = handler(vec![], None);
    assert_eq!(router("/a", h, Some(vec![]), false).err(), Some(RouteError::RouterHasBody));
    let mut h = handler(vec![], None);
    h.has_body = false;
    assert_eq!(
        router("/a/{x}", h, Some(vec![]), false).err(),
        Some(RouteError::Path(RoutePathError::ParamNotAllowed(s("x"))))
    );
    let mut h = handler(vec![], None);
    h.has_body = false;
    assert_eq!(router("/a", h, None, false).err(), Some(RouteError::BadServices));
}

#[test]
fn openapi_changes_only_the_operation() {
    let make = || {
        let mut h = handler(vec![arg("id", "u64", vec![])], Some("String"));
        h.attrs = vec![FnAttr::BodySize(Some((s("max"), s("10"))))];
        h
    };
    let with = compile_route(None, "/x/{id}", make(), true).unwrap();
    let without = compile_route(None, "/x/{id}", make(), false).unwrap();
    assert_eq!(with.segments, without.segments);
    assert_eq!(with.params, without.params);
    assert_eq!(with.pre_filters, without.pre_filters);
    assert_eq!(with.post_filters, without.post_filters);
    assert_eq!(with.reply_type, without.reply_type);
    assert!(with.operation.is_some() && without.operation.is_none());
}
