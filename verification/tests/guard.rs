use rweb::guard::{connect, delete, get, head, options, patch, post, put, trace};
use rweb::{AllowAll, DenyAll, Guard, Method, ReqInfo, Version};

fn req(m: Method) -> ReqInfo {
    ReqInfo::new(m, "/".parse().unwrap(), Version::Http11, http::HeaderMap::new())
}

#[test]
fn allow_and_deny_all() {
    for m in [Method::Get, Method::Post, Method::Extension(b"X".to_vec())] {
        assert!(AllowAll.allow(&req(m.clone())));
        assert!(!DenyAll.allow(&req(m)));
    }
}

#[test]
fn method_guards_match_their_method_only() {
    let all = [
        Method::Get,
        Method::Post,
        Method::Put,
        Method::Connect,
        Method::Delete,
        Method::Head,
        Method::Options,
        Method::Patch,
        Method::Trace,
    ];
    let guards = [get(), post(), put(), connect(), delete(), head(), options(), patch(), trace()];
    for (i, g) in guards.iter().enumerate() {
        for (j, m) in all.iter().enumerate() {
            assert_eq!(g.allow(&req(m.clone())), i == j);
        }
        assert!(!g.allow(&req(Method::Extension(b"GET".to_vec()))));
    }
}
