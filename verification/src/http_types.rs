//! Plain models of the HTTP method, protocol version and status code.

use vstd::prelude::*;

verus! {

/// An HTTP request method. The nine methods of RFC 7231 and RFC 5789 have a
/// variant each; any other token is kept, byte for byte, in `Extension`.
#[derive(Debug, Clone, PartialEq, Eq)]
pub enum Method {
    Options,
    Get,
    Post,
    Put,
    Delete,
    Head,
    Trace,
    Connect,
    Patch,
    Extension(Vec<u8>),
}

/// Abstract value of a method: standard methods by their variant, extension
/// methods by their bytes.
pub enum MethodView {
    Options,
    Get,
    Post,
    Put,
    Delete,
    Head,
    Trace,
    Connect,
    Patch,
    Extension(Seq<u8>),
}

impl View for Method {
    type V = MethodView;

    open spec fn view(&self) -> MethodView {
        match self {
            Method::Options => MethodView::Options,
            Method::Get => MethodView::Get,
            Method::Post => MethodView::Post,
            Method::Put => MethodView::Put,
            Method::Delete => MethodView::Delete,
            Method::Head => MethodView::Head,
            Method::Trace => MethodView::Trace,
            Method::Connect => MethodView::Connect,
            Method::Patch => MethodView::Patch,
            Method::Extension(b) => MethodView::Extension(b@),
        }
    }
}

/// Byte-wise equality of two slices.
pub fn bytes_equal(a: &[u8], b: &[u8]) -> (r: bool)
    ensures
        r == (a@ == b@),
{
    if a.len() != b.len() {
        return false;
    }
    let mut i: usize = 0;
    while i < a.len()
        invariant
            a@.len() == b@.len(),
            i <= a@.len(),
            forall|j: int| 0 <= j < i ==> a@[j] == b@[j],
        decreases a@.len() - i,
    {
        if a[i] != b[i] {
            return false;
        }
        i = i + 1;
    }
    assert(a@ =~= b@);
    true
}

impl Method {
    /// Whether two methods are the same method.
    pub fn same_as(&self, other: &Method) -> (r: bool)
        ensures
            r == (self@ == other@),
    {
        match (self, other) {
            (Method::Options, Method::Options) => true,
            (Method::Get, Method::Get) => true,
            (Method::Post, Method::Post) => true,
            (Method::Put, Method::Put) => true,
            (Method::Delete, Method::Delete) => true,
            (Method::Head, Method::Head) => true,
            (Method::Trace, Method::Trace) => true,
            (Method::Connect, Method::Connect) => true,
            (Method::Patch, Method::Patch) => true,
            (Method::Extension(a), Method::Extension(b)) => bytes_equal(a.as_slice(), b.as_slice()),
            _ => false,
        }
    }
}


/// The protocol version of a request or response.
#[derive(Debug, Clone, Copy, PartialEq, Eq)]
pub enum Version {
    Http09,
    Http10,
    Http11,
    H2,
    H3,
}

/// A three-digit HTTP status code (100 to 999, as the `http` crate accepts).
#[derive(Debug, Clone, Copy, PartialEq, Eq)]
pub struct StatusCode {
    code: u16,
}

/// The codes a status code can hold.
pub open spec fn is_status_code(n: u16) -> bool {
    100 <= n < 1000
}

/// Returned by `StatusCode::from_u16` for a number outside 100 to 999.
#[derive(Debug, Clone, Copy, PartialEq, Eq)]
pub struct InvalidStatusCode;

impl View for StatusCode {
    type V = u16;

    closed spec fn view(&self) -> u16 {
        self.code
    }
}

impl StatusCode {
    /// The status code with the given number, which must be in range.
    pub(crate) fn from_code(code: u16) -> (r: StatusCode)
        requires
            is_status_code(code),
        ensures
            r@ == code,
    {
        StatusCode { code }
    }

    /// The status code with the given number, if it is from 100 to 999.
    pub fn from_u16(code: u16) -> (r: Result<StatusCode, InvalidStatusCode>)
        ensures
            r is Ok <==> is_status_code(code),
            r matches Ok(s) ==> s@ == code,
    {
        if 100 <= code && code < 1000 {
            Ok(StatusCode { code })
        } else {
            Err(InvalidStatusCode)
        }
    }

    /// The number of this status code.
    pub fn as_u16(&self) -> (r: u16)
        ensures
            r == self@,
    {
        self.code
    }
}

} // verus!
