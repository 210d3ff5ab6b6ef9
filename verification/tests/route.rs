use rweb::params::is_rweb_arg_attr;
use rweb::route::{compile_path, path_filter_chain, PathFilter, RoutePathError, Segment};
use rweb::schema::{enum_tag_type, skip_mode, EnumTagType, InvalidTagConfig};

fn names(v: &[Option<&str>]) -> Vec<Option<String>> {
    v.iter().map(|n| n.map(|s| s.to_string())).collect()
}

fn lit(s: &str) -> Segment {
    Segment::Literal(s.to_string())
}

fn param(s: &str, index: usize) -> Segment {
    Segment::Param { name: s.to_string(), index }
}

#[test]
fn literal_and_parameter_segments() {
    let args = names(&[Some("a"), None, Some("b")]);
    assert_eq!(
        compile_path("/param/{a}/{b}", Some(&args)),
        Ok(vec![lit("param"), param("a", 0), param("b", 2)])
    );
}

#[test]
fn empty_pieces_are_dropped() {
    assert_eq!(compile_path("/", None), Ok(vec![]));
    assert_eq!(compile_path("/word/", None), Ok(vec![lit("word")]));
    let args = names(&[Some("word")]);
    assert_eq!(compile_path("/{word}/", Some(&args)), Ok(vec![param("word", 0)]));
}

#[test]
fn first_argument_of_the_name_is_bound() {
    let args = names(&[Some("id"), Some("id")]);
    assert_eq!(compile_path("/{id}", Some(&args)), Ok(vec![param("id", 0)]));
}

#[test]
fn path_must_start_with_a_slash() {
    assert_eq!(compile_path("a/b", None), Err(RoutePathError::MissingLeadingSlash));
    assert_eq!(compile_path("", None), Err(RoutePathError::MissingLeadingSlash));
}

#[test]
fn double_slash_is_refused() {
    assert_eq!(compile_path("/a//b", None), Err(RoutePathError::DoubleSlash));
}

#[test]
fn parameter_errors() {
    assert_eq!(
        compile_path("/{x}", None),
        Err(RoutePathError::ParamNotAllowed("x".to_string()))
    );
    let args = names(&[Some("y")]);
    assert_eq!(
        compile_path("/{x}", Some(&args)),
        Err(RoutePathError::UnknownParam("x".to_string()))
    );
    assert_eq!(
        compile_path("/{", Some(&args)),
        Err(RoutePathError::MalformedParam("{".to_string()))
    );
    assert_eq!(
        compile_path("/{yé", Some(&args)),
        Err(RoutePathError::MalformedParam("{yé".to_string()))
    );
    // the last character is dropped whatever it is
    assert_eq!(compile_path("/{y)", Some(&args)), Ok(vec![param("y", 0)]));
}

#[test]
fn enum_tag_types() {
    assert_eq!(enum_tag_type(false, None, None), Ok(EnumTagType::External));
    assert_eq!(
        enum_tag_type(false, Some("t".to_string()), None),
        Ok(EnumTagType::Internal { tag: "t".to_string() })
    );
    assert_eq!(
        enum_tag_type(false, Some("t".to_string()), Some("c".to_string())),
        Ok(EnumTagType::Adjacent { tag: "t".to_string(), content: "c".to_string() })
    );
    assert_eq!(enum_tag_type(true, None, None), Ok(EnumTagType::Untagged));
    assert_eq!(enum_tag_type(false, None, Some("c".to_string())), Err(InvalidTagConfig));
    assert_eq!(enum_tag_type(true, Some("t".to_string()), None), Err(InvalidTagConfig));
}

#[test]
fn skip_modes() {
    let w = |v: &[&str]| v.iter().map(|s| s.to_string()).collect::<Vec<_>>();
    assert_eq!(skip_mode(&w(&[])), (false, false));
    assert_eq!(skip_mode(&w(&["skip_serializing"])), (true, false));
    assert_eq!(skip_mode(&w(&["skip_deserializing", "rename"])), (false, true));
    assert_eq!(skip_mode(&w(&["skip_serializing", "skip"])), (true, true));
    assert_eq!(skip_mode(&w(&["skip"])), (true, true));
}

#[test]
fn parameter_attributes() {
    for a in ["json", "form", "body", "query", "cookie", "header", "filter", "data"] {
        assert!(is_rweb_arg_attr(a));
    }
    assert!(!is_rweb_arg_attr("serde"));
    assert!(!is_rweb_arg_attr("Json"));
}

#[test]
fn trailing_slash_compiles_alike() {
    let args = names(&[Some("word")]);
    assert_eq!(compile_path("/{word}/", Some(&args)), compile_path("/{word}", Some(&args)));
    assert_eq!(compile_path("/a/b/", None), compile_path("/a/b", None));
    assert_eq!(compile_path("/a//", None), Err(RoutePathError::DoubleSlash));
}

#[test]
fn exact_paths_end_their_filter_chain() {
    let args = names(&[Some("x")]);
    let segs = compile_path("/a/{x}", Some(&args)).unwrap();
    let open = path_filter_chain(false, &segs, false);
    assert_eq!(open, vec![PathFilter::Literal("a".to_string()), PathFilter::Param { index: 0 }]);
    let mut exact = open.clone();
    exact.push(PathFilter::End);
    assert_eq!(path_filter_chain(false, &segs, true), exact);
    assert_eq!(path_filter_chain(true, &vec![], false), vec![PathFilter::Base]);
}
