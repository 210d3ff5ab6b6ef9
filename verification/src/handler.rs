//! Handlers and services.

use vstd::prelude::*;
use std::marker::PhantomData;
use crate::error::Error;
use crate::headers::{header_entries, no_headers};
use crate::http::Resp;

verus! {

/// Async handler converter factory: something that, given the extracted
/// parameters, produces the handler's future.
pub trait Factory<T, R> {
    /// Whether the factory can be run on the parameters.
    spec fn accepts(&self, param: T) -> bool;

    /// Whether `r` is what the factory may give for the parameters.
    spec fn gives(&self, param: T, r: R) -> bool;

    fn call(&self, param: T) -> (r: R)
        requires
            self.accepts(param),
        ensures
            self.gives(param, r),
    ;
}

/// A function without parameters is a factory: it is run as it is.
impl<F: Fn() -> R, R> Factory<(), R> for F {
    open spec fn accepts(&self, param: ()) -> bool {
        call_requires(*self, ())
    }

    open spec fn gives(&self, param: (), r: R) -> bool {
        call_ensures(*self, (), r)
    }

    fn call(&self, param: ()) -> (r: R) {
        (self)()
    }
}

/// A handler: the factory that serves a route.
pub struct Handler<F, T, R> {
    hnd: F,
    _t: PhantomData<(T, R)>,
}

impl<F, T, R> Handler<F, T, R> {
    /// The factory of this handler.
    pub closed spec fn factory_of(&self) -> F {
        self.hnd
    }

    pub fn new(hnd: F) -> (r: Self)
        ensures
            r.factory_of() == hnd,
    {
        Handler { hnd, _t: PhantomData }
    }

    /// The factory of this handler.
    pub fn factory(&self) -> (r: &F)
        ensures
            *r == self.factory_of(),
    {
        &self.hnd
    }

    /// Serves a request: runs the factory on the extracted parameters and
    /// gives the future of its reply.
    pub fn call(&self, param: T) -> (r: R) where F: Factory<T, R>
        requires
            self.factory_of().accepts(param),
        ensures
            self.factory_of().gives(param, r),
    {
        self.hnd.call(param)
    }
}

/// The response a handler's service answers with once its reply has been
/// turned into a response: that response, or, when turning it failed, the
/// response to the error.
pub fn service_response(outcome: Result<Resp, Error>) -> (r: Resp)
    ensures
        outcome matches Ok(res) ==> r == res,
        outcome matches Err(e) ==> r.status_of()@ == e.status_of() && header_entries(r.headers_of())
            == no_headers() && r.body_of() is None,
{
    match outcome {
        Ok(res) => res,
        Err(e) => Resp::from_err(e),
    }
}

/// The factory of the service that answers nothing.
#[derive(Debug)]
pub struct NoopServiceFactory<T>(PhantomData<T>);

/// The service that answers nothing; it is never called.
#[derive(Debug)]
pub struct NoopService<T>(PhantomData<T>);

impl<T> NoopServiceFactory<T> {
    pub fn new() -> (r: Self) {
        NoopServiceFactory(PhantomData)
    }

    /// A service made by this factory.
    pub fn new_service(&self) -> (r: NoopService<T>) {
        NoopService(PhantomData)
    }
}

} // verus!
