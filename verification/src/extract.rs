//! Wrappers that mark how a value travels in a request or response.

use vstd::prelude::*;

verus! {

/// Represents request body or response.
///
/// If it is in a parameter, content-type should be `application/json` and
/// request body will be deserialized.
///
/// If it is in a return type, response will contain a content type header with
/// value `application/json`, and value is serialized.
#[derive(Debug, Clone, Copy, PartialEq, Eq, PartialOrd, Ord, Hash)]
pub struct Json<T>(T);

impl<T> Json<T> {
    /// The value wrapped.
    pub closed spec fn inner(&self) -> T {
        self.0
    }

    /// Wraps a value.
    pub fn new(v: T) -> (r: Json<T>)
        ensures
            r.inner() == v,
    {
        Json(v)
    }

    pub fn into_inner(self) -> (r: T)
        ensures
            r == self.inner(),
    {
        self.0
    }
}

/// Represents a request body with `www-url-form-encoded` content type.
#[derive(Debug, Clone, Copy, PartialEq, Eq, PartialOrd, Ord, Hash)]
pub struct Form<T>(pub T);

impl<T> Form<T> {
    /// Deconstruct to an inner value
    pub fn into_inner(self) -> (r: T)
        ensures
            r == self.0,
    {
        self.0
    }
}

/// Represents all query parameters.
#[derive(Debug, Clone, Copy, PartialEq, Eq, PartialOrd, Ord, Hash)]
pub struct Query<T>(T);

impl<T> Query<T> {
    /// The value wrapped.
    pub closed spec fn inner(&self) -> T {
        self.0
    }

    /// Wraps a value.
    pub fn new(v: T) -> (r: Query<T>)
        ensures
            r.inner() == v,
    {
        Query(v)
    }

    pub fn into_inner(self) -> (r: T)
        ensures
            r == self.inner(),
    {
        self.0
    }
}

/// How an extractor reads a request: whether it is the whole body, optional,
/// the whole query, and the content type it expects.
#[derive(Debug, Clone, Copy, PartialEq, Eq)]
pub struct ExtractorKind {
    pub is_body: bool,
    pub is_optional: bool,
    pub is_query: bool,
    pub content_type: &'static str,
}

impl ExtractorKind {
    /// An extractor that reads neither the body nor the query, and accepts any
    /// content type.
    pub fn plain() -> (r: ExtractorKind)
        ensures
            !r.is_body && !r.is_optional && !r.is_query,
            r.content_type@ == "*/*"@,
    {
        ExtractorKind { is_body: false, is_optional: false, is_query: false, content_type: "*/*" }
    }

    /// The extractor of an optional value: it reads what the inner one reads,
    /// is optional, and accepts any content type.
    pub fn optional(inner: ExtractorKind) -> (r: ExtractorKind)
        ensures
            r.is_body == inner.is_body,
            r.is_optional,
            r.is_query == inner.is_query,
            r.content_type@ == "*/*"@,
    {
        ExtractorKind {
            is_body: inner.is_body,
            is_optional: true,
            is_query: inner.is_query,
            content_type: "*/*",
        }
    }
}

impl<T> Json<T> {
    /// A json value is the whole body, of content type `application/json`.
    pub fn kind() -> (r: ExtractorKind)
        ensures
            r.is_body && !r.is_optional && !r.is_query,
            r.content_type@ == "application/json"@,
    {
        ExtractorKind {
            is_body: true,
            is_optional: false,
            is_query: false,
            content_type: "application/json",
        }
    }
}

impl<T> Form<T> {
    /// A form is the whole body, of content type `x-www-form-urlencoded`.
    pub fn kind() -> (r: ExtractorKind)
        ensures
            r.is_body && !r.is_optional && !r.is_query,
            r.content_type@ == "x-www-form-urlencoded"@,
    {
        ExtractorKind {
            is_body: true,
            is_optional: false,
            is_query: false,
            content_type: "x-www-form-urlencoded",
        }
    }
}

impl<T> Query<T> {
    /// A query value is the whole query, of any content type.
    pub fn kind() -> (r: ExtractorKind)
        ensures
            !r.is_body && !r.is_optional && r.is_query,
            r.content_type@ == "*/*"@,
    {
        ExtractorKind { is_body: false, is_optional: false, is_query: true, content_type: "*/*" }
    }
}

impl<T> From<T> for Json<T> {
    fn from(v: T) -> (r: Json<T>) {
        Json(v)
    }
}

impl<T> vstd::std_specs::convert::FromSpecImpl<T> for Json<T> {
    open spec fn obeys_from_spec() -> bool {
        true
    }

    open spec fn from_spec(v: T) -> Json<T> {
        Json::<T>::wrap(v)
    }
}

impl<T> Json<T> {
    /// The json wrapper of a value.
    pub closed spec fn wrap(v: T) -> Json<T> {
        Json(v)
    }

    /// Wrapping keeps the value.
    pub proof fn lemma_wrap(v: T)
        ensures
            Self::wrap(v).inner() == v,
    {
    }
}

} // verus!
