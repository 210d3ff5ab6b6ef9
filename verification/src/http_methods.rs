//! The methods that route attributes register their operations under,
//! by name.

use vstd::prelude::*;
use crate::http_types::Method;

verus! {

/// The GET method.
pub fn get() -> (r: Method)
    ensures
        r == Method::Get,
{
    Method::Get
}

/// The POST method.
pub fn post() -> (r: Method)
    ensures
        r == Method::Post,
{
    Method::Post
}

/// The PUT method.
pub fn put() -> (r: Method)
    ensures
        r == Method::Put,
{
    Method::Put
}

/// The DELETE method.
pub fn delete() -> (r: Method)
    ensures
        r == Method::Delete,
{
    Method::Delete
}

/// The HEAD method.
pub fn head() -> (r: Method)
    ensures
        r == Method::Head,
{
    Method::Head
}

/// The OPTIONS method.
pub fn options() -> (r: Method)
    ensures
        r == Method::Options,
{
    Method::Options
}

/// The CONNECT method.
pub fn connect() -> (r: Method)
    ensures
        r == Method::Connect,
{
    Method::Connect
}

/// The PATCH method.
pub fn patch() -> (r: Method)
    ensures
        r == Method::Patch,
{
    Method::Patch
}

/// The TRACE method.
pub fn trace() -> (r: Method)
    ensures
        r == Method::Trace,
{
    Method::Trace
}

} // verus!
