//! Guards can prevent a route from matching.

use vstd::prelude::*;
use crate::http::ReqInfo;
use crate::http_types::{Method, MethodView};

verus! {

/// Guards can prevent route from matching.
pub trait Guard {
    /// Whether the guard lets the request through.
    spec fn allows(&self, req: &ReqInfo) -> bool;

    fn allow(&self, req: &ReqInfo) -> (r: bool)
        ensures
            r == self.allows(req),
    ;
}

/// The guard that lets every request through.
#[derive(Debug, Default, Copy, Clone)]
pub struct AllowAll;

impl Guard for AllowAll {
    open spec fn allows(&self, req: &ReqInfo) -> bool {
        true
    }

    fn allow(&self, req: &ReqInfo) -> (r: bool) {
        true
    }
}

/// The guard that stops every request.
#[derive(Debug, Default, Copy, Clone)]
pub struct DenyAll;

impl Guard for DenyAll {
    open spec fn allows(&self, req: &ReqInfo) -> bool {
        false
    }

    fn allow(&self, req: &ReqInfo) -> (r: bool) {
        false
    }
}

/// The guard that lets through the requests of one method.
#[derive(Debug, Clone)]
pub struct MethodGuard(Method);

impl MethodGuard {
    /// The method this guard lets through.
    pub closed spec fn method_of(&self) -> Method {
        self.0
    }
}

impl Guard for MethodGuard {
    open spec fn allows(&self, req: &ReqInfo) -> bool {
        req.method_of()@ == self.method_of()@
    }

    fn allow(&self, req: &ReqInfo) -> (r: bool) {
        req.method().same_as(&self.0)
    }
}

pub fn get() -> (r: MethodGuard)
    ensures
        r.method_of()@ == MethodView::Get,
{
    MethodGuard(Method::Get)
}

pub fn post() -> (r: MethodGuard)
    ensures
        r.method_of()@ == MethodView::Post,
{
    MethodGuard(Method::Post)
}

pub fn put() -> (r: MethodGuard)
    ensures
        r.method_of()@ == MethodView::Put,
{
    MethodGuard(Method::Put)
}

pub fn connect() -> (r: MethodGuard)
    ensures
        r.method_of()@ == MethodView::Connect,
{
    MethodGuard(Method::Connect)
}

pub fn delete() -> (r: MethodGuard)
    ensures
        r.method_of()@ == MethodView::Delete,
{
    MethodGuard(Method::Delete)
}

pub fn head() -> (r: MethodGuard)
    ensures
        r.method_of()@ == MethodView::Head,
{
    MethodGuard(Method::Head)
}

pub fn options() -> (r: MethodGuard)
    ensures
        r.method_of()@ == MethodView::Options,
{
    MethodGuard(Method::Options)
}

pub fn patch() -> (r: MethodGuard)
    ensures
        r.method_of()@ == MethodView::Patch,
{
    MethodGuard(Method::Patch)
}

pub fn trace() -> (r: MethodGuard)
    ensures
        r.method_of()@ == MethodView::Trace,
{
    MethodGuard(Method::Trace)
}

} // verus!
