use rweb::entity::{single_responses, Entity, Schema, SchemaType};
use rweb::http_methods;
use rweb::openapi::{
    spec, Collector, Info, Location, Operation, Parameter, RequestBody, Server, Spec,
};
use rweb::{ExtractorKind, Form, Json, Method, Query};

fn op(id: &str) -> Operation {
    let mut o = Operation::new();
    o.operation_id = id.to_string();
    o
}

#[test]
fn operations_are_registered_under_prefix_and_method() {
    let mut c = Collector::new(Spec::empty(), "/api");
    c.add("/a", Method::Get, op("a"));
    c.add("/a", Method::Post, op("b"));
    c.add("/b", Method::Get, op("c"));
    let s = c.into_spec();
    assert_eq!(s.paths.len(), 2);
    assert_eq!(s.paths[0].0, "/api/a");
    assert_eq!(s.paths[0].1.get.as_ref().unwrap().operation_id, "a");
    assert_eq!(s.paths[0].1.post.as_ref().unwrap().operation_id, "b");
    assert!(s.paths[0].1.put.is_none());
    assert_eq!(s.paths[1].0, "/api/b");
    assert_eq!(s.paths[1].1.get.as_ref().unwrap().operation_id, "c");
}

#[test]
fn same_operation_twice_is_kept_once_with_tags_again() {
    let mut c = Collector::new(Spec::empty(), "");
    let t = c.enter_scope("/m", vec!["math".to_string()]);
    c.add("/sum", Method::Get, op("sum"));
    c.add("/sum", Method::Get, op("sum"));
    c.exit_scope(t);
    let s = c.into_spec();
    assert_eq!(s.paths.len(), 1);
    assert_eq!(s.paths[0].0, "/m/sum");
    assert_eq!(s.paths[0].1.get.as_ref().unwrap().tags, vec!["math".to_string(), "math".to_string()]);
}

#[test]
fn scopes_restore_prefix_and_tags() {
    let mut c = Collector::new(Spec::empty(), "/v1");
    let outer = c.enter_scope("/admin", vec!["admin".to_string()]);
    let inner = c.enter_scope("/users", vec!["users".to_string()]);
    c.add("/list", Method::Get, op("list"));
    c.exit_scope(inner);
    c.add("/stats", Method::Get, op("stats"));
    c.exit_scope(outer);
    c.add("/health", Method::Get, op("health"));
    let s = c.into_spec();
    let paths: Vec<&str> = s.paths.iter().map(|p| p.0.as_str()).collect();
    assert_eq!(paths, vec!["/v1/admin/users/list", "/v1/admin/stats", "/v1/health"]);
    assert_eq!(
        s.paths[0].1.get.as_ref().unwrap().tags,
        vec!["admin".to_string(), "users".to_string()]
    );
    assert_eq!(s.paths[1].1.get.as_ref().unwrap().tags, vec!["admin".to_string()]);
    assert!(s.paths[2].1.get.as_ref().unwrap().tags.is_empty());
}

#[test]
fn with_appended_prefix_runs_the_routes_inside() {
    let mut c = Collector::new(Spec::empty(), "");
    let n = c.with_appended_prefix("/math", vec!["math".to_string()], |mut inner| {
        inner.add("/sum", Method::Get, op("sum"));
        (inner, 7)
    });
    assert_eq!(n, 7);
    c.add("/x", Method::Delete, op("x"));
    let s = c.into_spec();
    assert_eq!(s.paths[0].0, "/math/sum");
    assert_eq!(s.paths[0].1.get.as_ref().unwrap().tags, vec!["math".to_string()]);
    assert_eq!(s.paths[1].0, "/x");
    assert!(s.paths[1].1.delete.as_ref().unwrap().tags.is_empty());
}

#[test]
fn builder_sets_version_info_servers_and_prefix() {
    let info = Info { title: "t".to_string(), description: None, version: "1".to_string() };
    let server = Server { url: "http://localhost".to_string(), description: None };
    let (s, ret) = spec().info(info.clone()).server(server.clone()).prefix("/p".to_string()).build(
        |mut c| {
            c.add("/q", Method::Patch, op("q"));
            (c, "done")
        },
    );
    assert_eq!(ret, "done");
    assert_eq!(s.openapi, "3.0.1");
    assert_eq!(s.info, info);
    assert_eq!(s.servers, vec![server]);
    assert_eq!(s.paths[0].0, "/p/q");
    assert!(s.paths[0].1.patch.is_some());
}

#[test]
fn request_bodies_follow_the_extractor() {
    let mut c = Collector::new(Spec::empty(), "");
    let mut o = Operation::new();
    let int = Schema::typed(SchemaType::Integer);
    c.add_request_type_to(Json::<u8>::kind(), int.clone(), vec![], &mut o);
    assert_eq!(
        o.request_body,
        Some(RequestBody {
            content_type: "application/json".to_string(),
            required: true,
            schema: int.clone(),
        })
    );
    let mut o = Operation::new();
    c.add_request_type_to(ExtractorKind::optional(Form::<u8>::kind()), int.clone(), vec![], &mut o);
    assert_eq!(
        o.request_body,
        Some(RequestBody { content_type: "*/*".to_string(), required: false, schema: int.clone() })
    );
    let mut o = Operation::new();
    c.add_request_type_to(Query::<u8>::kind(), int.clone(), vec![], &mut o);
    assert!(o.request_body.is_none());
    assert!(o.same_as(&Operation::new()));
    assert!(c.into_spec().components.is_none());
}

#[test]
fn query_objects_become_parameters() {
    let mut inner = Schema::typed(SchemaType::Object);
    inner.properties = vec![("x".to_string(), Schema::typed(SchemaType::Integer))];
    inner.required = vec!["filter".to_string()];
    inner.description = "the filter".to_string();
    let mut q = Schema::typed(SchemaType::Object);
    q.properties = vec![
        ("limit".to_string(), Schema::typed(SchemaType::Integer)),
        ("filter".to_string(), inner.clone()),
    ];
    let mut c = Collector::new(Spec::empty(), "");
    let mut o = Operation::new();
    let comp = ("Item".to_string(), Schema::typed(SchemaType::String));
    c.add_request_type_to(Query::<u8>::kind(), q, vec![comp.clone()], &mut o);
    assert_eq!(
        o.parameters,
        vec![
            Parameter {
                name: "limit".to_string(),
                location: Location::Query,
                required: None,
                description: String::new(),
                schema: Some(Schema::typed(SchemaType::Integer)),
            },
            Parameter {
                name: "filter".to_string(),
                location: Location::Query,
                required: Some(true),
                description: "the filter".to_string(),
                schema: Some(inner),
            },
        ]
    );
    assert!(o.request_body.is_none());
    assert_eq!(c.into_spec().components, Some(vec![comp]));

    let mut o = Operation::new();
    let mut c = Collector::new(Spec::empty(), "");
    c.add_request_type_to(Query::<u8>::kind(), Schema::typed(SchemaType::String), vec![], &mut o);
    assert!(o.parameters.is_empty());
}

#[test]
fn components_and_responses_replace_by_name() {
    let mut c = Collector::new(Spec::empty(), "");
    let a1 = ("A".to_string(), Schema::typed(SchemaType::String));
    let b = ("B".to_string(), Schema::typed(SchemaType::Boolean));
    let a2 = ("A".to_string(), Schema::typed(SchemaType::Integer));
    c.add_components(vec![a1, b.clone()]);
    c.add_components(vec![]);
    let mut o = Operation::new();
    let ok = single_responses("text/plain", Schema::typed(SchemaType::String));
    let json = single_responses("application/json", Schema::typed(SchemaType::Integer));
    c.add_response_to(vec![a2.clone()], ok, &mut o);
    c.add_response_to(vec![], json.clone(), &mut o);
    assert_eq!(o.responses, json);
    assert_eq!(c.into_spec().components, Some(vec![a2, b]));
}

#[test]
fn extractor_kinds() {
    let j = Json::<u8>::kind();
    assert!(j.is_body && !j.is_optional && !j.is_query && j.content_type == "application/json");
    let f = Form::<u8>::kind();
    assert!(f.is_body && f.content_type == "x-www-form-urlencoded");
    let q = Query::<u8>::kind();
    assert!(q.is_query && !q.is_body && q.content_type == "*/*");
    let p = ExtractorKind::plain();
    assert!(!p.is_body && !p.is_query && !p.is_optional);
}

#[test]
fn wrappers_give_back_their_value() {
    assert_eq!(Json::from(5).into_inner(), 5);
    assert_eq!(Json::new("a").into_inner(), "a");
    assert_eq!(Form(3).into_inner(), 3);
    assert_eq!(Query::new(vec![1]).into_inner(), vec![1]);
}

#[test]
fn entities_register_with_the_collector() {
    let mut c = Collector::new(Spec::empty(), "");
    let mut o = Operation::new();
    c.add_request_entity::<Vec<u8>>(Json::<Vec<u8>>::kind(), &mut o);
    assert_eq!(o.request_body.as_ref().unwrap().schema, <Vec<u8> as Entity>::describe());
    c.add_response_entity::<Json<u8>>(&mut o);
    assert_eq!(o.responses[0].0, "200");
    assert_eq!(o.responses[0].1.content[0].0, "application/json");
    Collector::add_scheme::<u8>();
    assert!(c.into_spec().components.is_none());
}

#[test]
fn http_method_names() {
    assert_eq!(http_methods::get(), Method::Get);
    assert_eq!(http_methods::post(), Method::Post);
    assert_eq!(http_methods::put(), Method::Put);
    assert_eq!(http_methods::delete(), Method::Delete);
    assert_eq!(http_methods::head(), Method::Head);
    assert_eq!(http_methods::options(), Method::Options);
    assert_eq!(http_methods::connect(), Method::Connect);
    assert_eq!(http_methods::patch(), Method::Patch);
    assert_eq!(http_methods::trace(), Method::Trace);
}

#[test]
fn builder_last_info_wins_and_servers_append() {
    let i1 = Info { title: "one".to_string(), description: None, version: "1".to_string() };
    let i2 = Info { title: "two".to_string(), description: None, version: "2".to_string() };
    let s1 = Server { url: "http://a".to_string(), description: None };
    let s2 = Server { url: "http://b".to_string(), description: None };
    let (s, _) = spec().info(i1).server(s1.clone()).info(i2.clone()).server(s2.clone()).build(|c| (c, ()));
    assert_eq!(s.info, i2);
    assert_eq!(s.servers, vec![s1, s2]);
    assert!(s.paths.is_empty());
}

#[test]
fn scope_cuts_back_what_the_routes_left() {
    let mut c = Collector::new(Spec::empty(), "/api");
    c.with_appended_prefix("/outer", vec!["o".to_string()], |mut inner| {
        let r = inner.with_appended_prefix("/inner", vec!["i".to_string()], |mut deep| {
            deep.add("/x", Method::Get, op("x"));
            (deep, ())
        });
        inner.add("/y", Method::Get, op("y"));
        (inner, r)
    });
    c.add("/z", Method::Get, op("z"));
    let s = c.into_spec();
    let paths: Vec<&str> = s.paths.iter().map(|p| p.0.as_str()).collect();
    assert_eq!(paths, vec!["/api/outer/inner/x", "/api/outer/y", "/api/z"]);
    assert_eq!(s.paths[0].1.get.as_ref().unwrap().tags, vec!["o".to_string(), "i".to_string()]);
    assert!(s.paths[2].1.get.as_ref().unwrap().tags.is_empty());
}
