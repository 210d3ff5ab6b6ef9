//! Requests, responses and their bodies.

use vstd::prelude::*;
use crate::buf::{bytes_view, bytes_copy_from_slice, bytes_empty, bytes_from_vec, bytes_len};
use crate::error::{Error, PayloadError};
use crate::headers::{
    ascii_bytes, header_entries, header_insert, header_map_new, header_room, is_header_value,
    no_headers,
};
use crate::http_types::{Method, StatusCode, Version};
use vstd::string::StringSliceAdditionalSpecFns;

verus! {

#[verifier::external_type_specification]
#[verifier::external_body]
pub struct ExUri(http::Uri);

/// Request information except body.
#[derive(Debug)]
pub struct ReqInfo {
    method: Method,
    uri: http::Uri,
    version: Version,
    /// The request's headers.
    pub headers: http::HeaderMap,
}

impl ReqInfo {
    /// The method of the request.
    pub closed spec fn method_of(&self) -> Method {
        self.method
    }

    /// The target of the request.
    pub closed spec fn uri_of(&self) -> http::Uri {
        self.uri
    }

    /// The protocol version of the request.
    pub closed spec fn version_of(&self) -> Version {
        self.version
    }

    /// The headers of the request.
    pub closed spec fn headers_of(&self) -> http::HeaderMap {
        self.headers
    }

    /// Request information made of its parts.
    pub fn new(method: Method, uri: http::Uri, version: Version, headers: http::HeaderMap) -> (r:
        ReqInfo)
        ensures
            r.method_of() == method,
            r.uri_of() == uri,
            r.version_of() == version,
            r.headers_of() == headers,
    {
        ReqInfo { method, uri, version, headers }
    }

    /// The request's method
    pub fn method(&self) -> (r: &Method)
        ensures
            *r == self.method_of(),
    {
        &self.method
    }

    /// The request's URI
    pub fn uri(&self) -> (r: &http::Uri)
        ensures
            *r == self.uri_of(),
    {
        &self.uri
    }

    /// The request's headers
    pub fn headers(&self) -> (r: &http::HeaderMap)
        ensures
            *r == self.headers_of(),
    {
        &self.headers
    }

    /// The request's version
    pub fn version(&self) -> (r: Version)
        ensures
            r == self.version_of(),
    {
        self.version
    }
}

/// The error of a request whose data cannot be read. The library never
/// produces it: data made by `Data::new` always holds a value.
#[derive(Debug)]
pub enum RequestError {
    Unreadable,
}

/// Data of a request, or the error met while reading it.
#[derive(Debug)]
pub struct Data<T> {
    inner: Result<T, RequestError>,
}

impl<T> Data<T> {
    /// The data or the error it holds.
    pub closed spec fn inner_of(&self) -> Result<T, RequestError> {
        self.inner
    }

    /// Data that was read successfully.
    pub fn new(value: T) -> (r: Data<T>)
        ensures
            r.inner_of() == Ok::<T, RequestError>(value),
    {
        Data { inner: Ok(value) }
    }

    /// Takes what this holds.
    pub fn take(self) -> (r: Result<T, RequestError>)
        ensures
            r == self.inner_of(),
    {
        self.inner
    }
}

/// A streaming payload, or none.
pub enum Payload<S> {
    Absent,
    Stream(S),
}

impl<S> Payload<S> {
    /// Takes current payload and replaces it with the absent payload.
    pub fn take(&mut self) -> (r: Payload<S>)
        ensures
            r == *old(self),
            *final(self) is Absent,
    {
        let mut taken = Payload::Absent;
        std::mem::swap(self, &mut taken);
        taken
    }
}

/// Body size hint.
#[derive(Debug, PartialEq, Eq, Copy, Clone)]
pub enum BodySize {
    Absent,
    Empty,
    Sized(usize),
    Sized64(u64),
    Stream,
}

impl BodySize {
    /// Whether a body of this size has nothing (more) to send.
    pub open spec fn eof(&self) -> bool {
        match self {
            BodySize::Absent | BodySize::Empty => true,
            BodySize::Sized(n) => *n == 0,
            BodySize::Sized64(n) => *n == 0,
            BodySize::Stream => false,
        }
    }

    pub fn is_eof(&self) -> (r: bool)
        ensures
            r == self.eof(),
    {
        match self {
            BodySize::Absent | BodySize::Empty => true,
            BodySize::Sized(n) => *n == 0,
            BodySize::Sized64(n) => *n == 0,
            BodySize::Stream => false,
        }
    }
}

/// Type that provides this trait can be streamed to a peer.
pub trait MessageBody {
    /// The size of what is left to send.
    spec fn size_of(&self) -> BodySize;

    fn size(&self) -> (r: BodySize)
        ensures
            r == self.size_of(),
    ;
}

/// The body of a response.
pub enum Body {
    /// No body at all.
    Absent,
    /// A body of no bytes.
    Empty,
    /// A body held in memory.
    Bytes(bytes::Bytes),
    /// A body that streams itself.
    Message(BoxedMessage),
}

/// A message body that streams itself, boxed, beside the size it had when it
/// was boxed. A message body's size is only ever read (through `&self`), so
/// it keeps that size.
pub struct BoxedMessage {
    message: Box<dyn MessageBody>,
    size: BodySize,
}

impl MessageBody for BoxedMessage {
    closed spec fn size_of(&self) -> BodySize {
        self.size
    }

    fn size(&self) -> (r: BodySize) {
        self.size
    }
}

/// What taking the next chunk of a body gives.
pub enum BodyChunk {
    /// Nothing is left.
    End,
    /// The next bytes to send.
    Chunk(bytes::Bytes),
    /// The body streams itself: its chunks come from its message body.
    Streamed,
}

impl Body {
    /// Create body from slice (copy)
    pub fn from_slice(s: &[u8]) -> (r: Body)
        ensures
            r matches Body::Bytes(b) && bytes_view(b) == s@,
    {
        Body::Bytes(bytes_copy_from_slice(s))
    }

    /// Create body from generic message body.
    pub fn from_message<B: MessageBody + 'static>(body: B) -> (r: Body)
        ensures
            r is Message,
            r.size_of() == body.size_of(),
    {
        let size = body.size();
        Body::Message(BoxedMessage { message: Box::new(body), size })
    }

    /// A body holding the bytes of a vector.
    pub fn from_vec(v: Vec<u8>) -> (r: Body)
        ensures
            r matches Body::Bytes(b) && bytes_view(b) == v@,
    {
        Body::Bytes(bytes_from_vec(v))
    }

    /// A body holding the UTF-8 bytes of a text.
    pub fn from_text(s: &str) -> (r: Body)
        ensures
            r matches Body::Bytes(b) && bytes_view(b) == s.spec_bytes(),
    {
        Body::Bytes(bytes_copy_from_slice(s.as_bytes()))
    }

    /// Takes the next chunk to send: a body in memory gives all its bytes at
    /// once and is then left empty; an absent or empty body gives nothing.
    pub fn next_chunk(&mut self) -> (r: BodyChunk)
        ensures
            match *old(self) {
                Body::Absent | Body::Empty => r is End && *final(self) == *old(self),
                Body::Bytes(b) => if bytes_view(b).len() == 0 {
                    r is End && *final(self) == *old(self)
                } else {
                    &&& r matches BodyChunk::Chunk(c) && bytes_view(c) == bytes_view(b)
                    &&& *final(self) matches Body::Bytes(e) && bytes_view(e).len() == 0
                },
                Body::Message(_) => r is Streamed,
            },
    {
        match self {
            Body::Absent => BodyChunk::End,
            Body::Empty => BodyChunk::End,
            Body::Bytes(bin) => {
                let len = bytes_len(bin);
                if len == 0 {
                    BodyChunk::End
                } else {
                    let mut taken = bytes_empty();
                    std::mem::swap(bin, &mut taken);
                    BodyChunk::Chunk(taken)
                }
            },
            Body::Message(_) => BodyChunk::Streamed,
        }
    }
}

impl MessageBody for Body {
    open spec fn size_of(&self) -> BodySize {
        match self {
            Body::Absent => BodySize::Absent,
            Body::Empty => BodySize::Empty,
            Body::Bytes(b) => BodySize::Sized(bytes_view(*b).len() as usize),
            Body::Message(m) => m.size_of(),
        }
    }

    fn size(&self) -> (r: BodySize) {
        match self {
            Body::Absent => BodySize::Absent,
            Body::Empty => BodySize::Empty,
            Body::Bytes(bin) => BodySize::Sized(bytes_len(bin)),
            Body::Message(m) => m.size(),
        }
    }
}

/// A body in memory that gave its chunk is at its end: its size says so, and
/// taking a chunk again gives nothing.
pub proof fn drained_body_ends(b: Body)
    requires
        b matches Body::Bytes(e) && bytes_view(e).len() == 0,
    ensures
        b.size_of().eof(),
{
}

impl MessageBody for () {
    open spec fn size_of(&self) -> BodySize {
        BodySize::Empty
    }

    fn size(&self) -> (r: BodySize) {
        BodySize::Empty
    }
}

/// Type represent streaming body.
/// Response does not contain `content-length` header and appropriate transfer
/// encoding is used.
pub struct BodyStream<S, E> {
    stream: S,
    _t: std::marker::PhantomData<E>,
}

impl<S, E> BodyStream<S, E> {
    /// The stream this body reads from.
    pub closed spec fn stream_of(&self) -> S {
        self.stream
    }

    pub fn new(stream: S) -> (r: Self)
        ensures
            r.stream_of() == stream,
    {
        BodyStream { stream, _t: std::marker::PhantomData }
    }

    /// The stream this body reads from.
    pub fn into_stream(self) -> (r: S)
        ensures
            r == self.stream_of(),
    {
        self.stream
    }
}

impl<S, E> MessageBody for BodyStream<S, E> {
    open spec fn size_of(&self) -> BodySize {
        BodySize::Stream
    }

    fn size(&self) -> (r: BodySize) {
        BodySize::Stream
    }
}

/// Type represent streaming body. This body implementation should be used
/// if total size of stream is known. Data get sent as is without using transfer
/// encoding.
pub struct SizedStream<S> {
    size: u64,
    stream: S,
}

impl<S> SizedStream<S> {
    /// The announced size of the stream.
    pub closed spec fn size_value(&self) -> u64 {
        self.size
    }

    /// The stream this body reads from.
    pub closed spec fn stream_of(&self) -> S {
        self.stream
    }

    pub fn new(size: u64, stream: S) -> (r: Self)
        ensures
            r.size_value() == size,
            r.stream_of() == stream,
    {
        SizedStream { size, stream }
    }

    /// The stream this body reads from.
    pub fn into_stream(self) -> (r: S)
        ensures
            r == self.stream_of(),
    {
        self.stream
    }
}

impl<S> MessageBody for SizedStream<S> {
    open spec fn size_of(&self) -> BodySize {
        BodySize::Sized64(self.size_value())
    }

    fn size(&self) -> (r: BodySize) {
        BodySize::Sized64(self.size)
    }
}

/// The head of a response: status, protocol version and headers.
#[derive(Debug)]
pub struct ResponseHead {
    pub status: StatusCode,
    pub version: Version,
    pub headers: http::HeaderMap,
}

/// The head of a fresh response with the given status: HTTP/1.1, no headers.
fn fresh_head(status: StatusCode) -> (r: ResponseHead)
    ensures
        r.status == status,
        r.version == Version::Http11,
        header_entries(r.headers) == no_headers(),
{
    ResponseHead { status, version: Version::Http11, headers: header_map_new() }
}

/// The lower-case name of the content type header.
pub open spec fn content_type_name() -> Seq<u8> {
    ascii_bytes("content-type"@)
}

/// Reading the content type of headers just set gives the value set.
pub proof fn content_type_read_back(
    before: http::HeaderMap,
    after: http::HeaderMap,
    value: Seq<u8>,
)
    requires
        header_entries(after) == header_entries(before).insert(content_type_name(), seq![value]),
    ensures
        crate::headers::first_header(after, "content-type"@) == Some(value),
{
}

/// An HTTP response.
#[derive(Debug)]
pub struct Resp<B: MessageBody = Body> {
    head: ResponseHead,
    body: Option<B>,
}

impl<B: MessageBody> Resp<B> {
    /// The status of the response.
    pub closed spec fn status_of(&self) -> StatusCode {
        self.head.status
    }

    /// The protocol version of the response.
    pub closed spec fn version_of(&self) -> Version {
        self.head.version
    }

    /// The headers of the response.
    pub closed spec fn headers_of(&self) -> http::HeaderMap {
        self.head.headers
    }

    /// The body of the response, if it has one.
    pub closed spec fn body_of(&self) -> Option<B> {
        self.body
    }

    /// A response with the given status, version HTTP/1.1, no headers and
    /// no body.
    pub fn new(status: StatusCode) -> (r: Resp<B>)
        ensures
            r.status_of() == status,
            r.version_of() == Version::Http11,
            header_entries(r.headers_of()) == no_headers(),
            r.body_of() is None,
    {
        Resp { head: fresh_head(status), body: None }
    }

    /// A builder of a response with the given status, version HTTP/1.1, no
    /// headers and no body.
    pub fn builder(status: StatusCode) -> (r: RespBuilder<B>)
        ensures
            r.status_of() == status,
            r.version_of() == Version::Http11,
            header_entries(r.headers_of()) == no_headers(),
            r.body_of() is None,
    {
        RespBuilder { head: fresh_head(status), body: None }
    }

    pub fn status(&self) -> (r: StatusCode)
        ensures
            r == self.status_of(),
    {
        self.head.status
    }

    pub fn status_mut(&mut self) -> (r: &mut StatusCode)
        ensures
            *r == old(self).status_of(),
            final(self).status_of() == *final(r),
            final(self).version_of() == old(self).version_of(),
            final(self).headers_of() == old(self).headers_of(),
            final(self).body_of() == old(self).body_of(),
    {
        &mut self.head.status
    }

    pub fn headers(&self) -> (r: &http::HeaderMap)
        ensures
            *r == self.headers_of(),
    {
        &self.head.headers
    }

    pub fn headers_mut(&mut self) -> (r: &mut http::HeaderMap)
        ensures
            *r == old(self).headers_of(),
            final(self).headers_of() == *final(r),
            final(self).status_of() == old(self).status_of(),
            final(self).version_of() == old(self).version_of(),
            final(self).body_of() == old(self).body_of(),
    {
        &mut self.head.headers
    }

    /// The body of the response, if it has one.
    pub fn body(&self) -> (r: &Option<B>)
        ensures
            *r == self.body_of(),
    {
        &self.body
    }

    pub fn set_body(&mut self, body: B)
        ensures
            final(self).body_of() == Some(body),
            final(self).status_of() == old(self).status_of(),
            final(self).version_of() == old(self).version_of(),
            final(self).headers_of() == old(self).headers_of(),
    {
        self.body = Some(body);
    }
}

/// Builders of responses with a fixed status, no headers and no body.
impl Resp {
    pub fn ok() -> (r: RespBuilder<Body>)
        ensures
            r.status_of()@ == 200,
            header_entries(r.headers_of()) == no_headers(),
            r.body_of() is None,
    {
        Resp::builder(StatusCode::from_code(200))
    }

    pub fn created() -> (r: RespBuilder<Body>)
        ensures
            r.status_of()@ == 201,
            header_entries(r.headers_of()) == no_headers(),
            r.body_of() is None,
    {
        Resp::builder(StatusCode::from_code(201))
    }

    pub fn accepted() -> (r: RespBuilder<Body>)
        ensures
            r.status_of()@ == 202,
            header_entries(r.headers_of()) == no_headers(),
            r.body_of() is None,
    {
        Resp::builder(StatusCode::from_code(202))
    }

    pub fn non_authoritative_information() -> (r: RespBuilder<Body>)
        ensures
            r.status_of()@ == 203,
            header_entries(r.headers_of()) == no_headers(),
            r.body_of() is None,
    {
        Resp::builder(StatusCode::from_code(203))
    }

    pub fn no_content() -> (r: RespBuilder<Body>)
        ensures
            r.status_of()@ == 204,
            header_entries(r.headers_of()) == no_headers(),
            r.body_of() is None,
    {
        Resp::builder(StatusCode::from_code(204))
    }

    pub fn reset_content() -> (r: RespBuilder<Body>)
        ensures
            r.status_of()@ == 205,
            header_entries(r.headers_of()) == no_headers(),
            r.body_of() is None,
    {
        Resp::builder(StatusCode::from_code(205))
    }

    pub fn partial_content() -> (r: RespBuilder<Body>)
        ensures
            r.status_of()@ == 206,
            header_entries(r.headers_of()) == no_headers(),
            r.body_of() is None,
    {
        Resp::builder(StatusCode::from_code(206))
    }

    pub fn multi_status() -> (r: RespBuilder<Body>)
        ensures
            r.status_of()@ == 207,
            header_entries(r.headers_of()) == no_headers(),
            r.body_of() is None,
    {
        Resp::builder(StatusCode::from_code(207))
    }

    pub fn already_reported() -> (r: RespBuilder<Body>)
        ensures
            r.status_of()@ == 208,
            header_entries(r.headers_of()) == no_headers(),
            r.body_of() is None,
    {
        Resp::builder(StatusCode::from_code(208))
    }

    pub fn multiple_choices() -> (r: RespBuilder<Body>)
        ensures
            r.status_of()@ == 300,
            header_entries(r.headers_of()) == no_headers(),
            r.body_of() is None,
    {
        Resp::builder(StatusCode::from_code(300))
    }

    pub fn moved_permanently() -> (r: RespBuilder<Body>)
        ensures
            r.status_of()@ == 301,
            header_entries(r.headers_of()) == no_headers(),
            r.body_of() is None,
    {
        Resp::builder(StatusCode::from_code(301))
    }

    pub fn found() -> (r: RespBuilder<Body>)
        ensures
            r.status_of()@ == 302,
            header_entries(r.headers_of()) == no_headers(),
            r.body_of() is None,
    {
        Resp::builder(StatusCode::from_code(302))
    }

    pub fn see_other() -> (r: RespBuilder<Body>)
        ensures
            r.status_of()@ == 303,
            header_entries(r.headers_of()) == no_headers(),
            r.body_of() is None,
    {
        Resp::builder(StatusCode::from_code(303))
    }

    pub fn not_modified() -> (r: RespBuilder<Body>)
        ensures
            r.status_of()@ == 304,
            header_entries(r.headers_of()) == no_headers(),
            r.body_of() is None,
    {
        Resp::builder(StatusCode::from_code(304))
    }

    pub fn use_proxy() -> (r: RespBuilder<Body>)
        ensures
            r.status_of()@ == 305,
            header_entries(r.headers_of()) == no_headers(),
            r.body_of() is None,
    {
        Resp::builder(StatusCode::from_code(305))
    }

    pub fn temporary_redirect() -> (r: RespBuilder<Body>)
        ensures
            r.status_of()@ == 307,
            header_entries(r.headers_of()) == no_headers(),
            r.body_of() is None,
    {
        Resp::builder(StatusCode::from_code(307))
    }

    pub fn permanent_redirect() -> (r: RespBuilder<Body>)
        ensures
            r.status_of()@ == 308,
            header_entries(r.headers_of()) == no_headers(),
            r.body_of() is None,
    {
        Resp::builder(StatusCode::from_code(308))
    }

    pub fn bad_request() -> (r: RespBuilder<Body>)
        ensures
            r.status_of()@ == 400,
            header_entries(r.headers_of()) == no_headers(),
            r.body_of() is None,
    {
        Resp::builder(StatusCode::from_code(400))
    }

    pub fn not_found() -> (r: RespBuilder<Body>)
        ensures
            r.status_of()@ == 404,
            header_entries(r.headers_of()) == no_headers(),
            r.body_of() is None,
    {
        Resp::builder(StatusCode::from_code(404))
    }

    pub fn unauthorized() -> (r: RespBuilder<Body>)
        ensures
            r.status_of()@ == 401,
            header_entries(r.headers_of()) == no_headers(),
            r.body_of() is None,
    {
        Resp::builder(StatusCode::from_code(401))
    }

    pub fn payment_required() -> (r: RespBuilder<Body>)
        ensures
            r.status_of()@ == 402,
            header_entries(r.headers_of()) == no_headers(),
            r.body_of() is None,
    {
        Resp::builder(StatusCode::from_code(402))
    }

    pub fn forbidden() -> (r: RespBuilder<Body>)
        ensures
            r.status_of()@ == 403,
            header_entries(r.headers_of()) == no_headers(),
            r.body_of() is None,
    {
        Resp::builder(StatusCode::from_code(403))
    }

    pub fn method_not_allowed() -> (r: RespBuilder<Body>)
        ensures
            r.status_of()@ == 405,
            header_entries(r.headers_of()) == no_headers(),
            r.body_of() is None,
    {
        Resp::builder(StatusCode::from_code(405))
    }

    pub fn not_acceptable() -> (r: RespBuilder<Body>)
        ensures
            r.status_of()@ == 406,
            header_entries(r.headers_of()) == no_headers(),
            r.body_of() is None,
    {
        Resp::builder(StatusCode::from_code(406))
    }

    pub fn proxy_authentication_required() -> (r: RespBuilder<Body>)
        ensures
            r.status_of()@ == 407,
            header_entries(r.headers_of()) == no_headers(),
            r.body_of() is None,
    {
        Resp::builder(StatusCode::from_code(407))
    }

    pub fn request_timeout() -> (r: RespBuilder<Body>)
        ensures
            r.status_of()@ == 408,
            header_entries(r.headers_of()) == no_headers(),
            r.body_of() is None,
    {
        Resp::builder(StatusCode::from_code(408))
    }

    pub fn conflict() -> (r: RespBuilder<Body>)
        ensures
            r.status_of()@ == 409,
            header_entries(r.headers_of()) == no_headers(),
            r.body_of() is None,
    {
        Resp::builder(StatusCode::from_code(409))
    }

    pub fn gone() -> (r: RespBuilder<Body>)
        ensures
            r.status_of()@ == 410,
            header_entries(r.headers_of()) == no_headers(),
            r.body_of() is None,
    {
        Resp::builder(StatusCode::from_code(410))
    }

    pub fn length_required() -> (r: RespBuilder<Body>)
        ensures
            r.status_of()@ == 411,
            header_entries(r.headers_of()) == no_headers(),
            r.body_of() is None,
    {
        Resp::builder(StatusCode::from_code(411))
    }

    pub fn precondition_failed() -> (r: RespBuilder<Body>)
        ensures
            r.status_of()@ == 412,
            header_entries(r.headers_of()) == no_headers(),
            r.body_of() is None,
    {
        Resp::builder(StatusCode::from_code(412))
    }

    pub fn precondition_required() -> (r: RespBuilder<Body>)
        ensures
            r.status_of()@ == 428,
            header_entries(r.headers_of()) == no_headers(),
            r.body_of() is None,
    {
        Resp::builder(StatusCode::from_code(428))
    }

    pub fn payload_too_large() -> (r: RespBuilder<Body>)
        ensures
            r.status_of()@ == 413,
            header_entries(r.headers_of()) == no_headers(),
            r.body_of() is None,
    {
        Resp::builder(StatusCode::from_code(413))
    }

    pub fn uri_too_long() -> (r: RespBuilder<Body>)
        ensures
            r.status_of()@ == 414,
            header_entries(r.headers_of()) == no_headers(),
            r.body_of() is None,
    {
        Resp::builder(StatusCode::from_code(414))
    }

    pub fn unsupported_media_type() -> (r: RespBuilder<Body>)
        ensures
            r.status_of()@ == 415,
            header_entries(r.headers_of()) == no_headers(),
            r.body_of() is None,
    {
        Resp::builder(StatusCode::from_code(415))
    }

    pub fn range_not_satisfiable() -> (r: RespBuilder<Body>)
        ensures
            r.status_of()@ == 416,
            header_entries(r.headers_of()) == no_headers(),
            r.body_of() is None,
    {
        Resp::builder(StatusCode::from_code(416))
    }

    pub fn expectation_failed() -> (r: RespBuilder<Body>)
        ensures
            r.status_of()@ == 417,
            header_entries(r.headers_of()) == no_headers(),
            r.body_of() is None,
    {
        Resp::builder(StatusCode::from_code(417))
    }

    pub fn unprocessable_entity() -> (r: RespBuilder<Body>)
        ensures
            r.status_of()@ == 422,
            header_entries(r.headers_of()) == no_headers(),
            r.body_of() is None,
    {
        Resp::builder(StatusCode::from_code(422))
    }

    pub fn too_many_requests() -> (r: RespBuilder<Body>)
        ensures
            r.status_of()@ == 429,
            header_entries(r.headers_of()) == no_headers(),
            r.body_of() is None,
    {
        Resp::builder(StatusCode::from_code(429))
    }

    pub fn internal_server_error() -> (r: RespBuilder<Body>)
        ensures
            r.status_of()@ == 500,
            header_entries(r.headers_of()) == no_headers(),
            r.body_of() is None,
    {
        Resp::builder(StatusCode::from_code(500))
    }

    pub fn not_implemented() -> (r: RespBuilder<Body>)
        ensures
            r.status_of()@ == 501,
            header_entries(r.headers_of()) == no_headers(),
            r.body_of() is None,
    {
        Resp::builder(StatusCode::from_code(501))
    }

    pub fn bad_gateway() -> (r: RespBuilder<Body>)
        ensures
            r.status_of()@ == 502,
            header_entries(r.headers_of()) == no_headers(),
            r.body_of() is None,
    {
        Resp::builder(StatusCode::from_code(502))
    }

    pub fn service_unavailable() -> (r: RespBuilder<Body>)
        ensures
            r.status_of()@ == 503,
            header_entries(r.headers_of()) == no_headers(),
            r.body_of() is None,
    {
        Resp::builder(StatusCode::from_code(503))
    }

    pub fn gateway_timeout() -> (r: RespBuilder<Body>)
        ensures
            r.status_of()@ == 504,
            header_entries(r.headers_of()) == no_headers(),
            r.body_of() is None,
    {
        Resp::builder(StatusCode::from_code(504))
    }

    pub fn version_not_supported() -> (r: RespBuilder<Body>)
        ensures
            r.status_of()@ == 505,
            header_entries(r.headers_of()) == no_headers(),
            r.body_of() is None,
    {
        Resp::builder(StatusCode::from_code(505))
    }

    pub fn variant_also_negotiates() -> (r: RespBuilder<Body>)
        ensures
            r.status_of()@ == 506,
            header_entries(r.headers_of()) == no_headers(),
            r.body_of() is None,
    {
        Resp::builder(StatusCode::from_code(506))
    }

    pub fn insufficient_storage() -> (r: RespBuilder<Body>)
        ensures
            r.status_of()@ == 507,
            header_entries(r.headers_of()) == no_headers(),
            r.body_of() is None,
    {
        Resp::builder(StatusCode::from_code(507))
    }

    pub fn loop_detected() -> (r: RespBuilder<Body>)
        ensures
            r.status_of()@ == 508,
            header_entries(r.headers_of()) == no_headers(),
            r.body_of() is None,
    {
        Resp::builder(StatusCode::from_code(508))
    }

    /// The response to an error: its status, no headers, no body.
    pub fn from_err(err: Error) -> (r: Resp)
        ensures
            r.status_of()@ == err.status_of(),
            header_entries(r.headers_of()) == no_headers(),
            r.body_of() is None,
    {
        Resp::new(err.status_code())
    }
}

/// A response under construction.
#[derive(Debug)]
pub struct RespBuilder<B: MessageBody> {
    head: ResponseHead,
    body: Option<B>,
}

impl<B: MessageBody> RespBuilder<B> {
    /// The status of the response.
    pub closed spec fn status_of(&self) -> StatusCode {
        self.head.status
    }

    /// The protocol version of the response.
    pub closed spec fn version_of(&self) -> Version {
        self.head.version
    }

    /// The headers of the response.
    pub closed spec fn headers_of(&self) -> http::HeaderMap {
        self.head.headers
    }

    /// The body of the response, if it has one.
    pub closed spec fn body_of(&self) -> Option<B> {
        self.body
    }

    /// Sets the body.
    pub fn body(self, body: B) -> (r: Self)
        ensures
            r.body_of() == Some(body),
            r.status_of() == self.status_of(),
            r.version_of() == self.version_of(),
            r.headers_of() == self.headers_of(),
    {
        let mut b = self;
        b.body = Some(body);
        b
    }

    /// Sets the content type header to the given value, replacing any
    /// earlier value. The value must be a valid header value: the header
    /// map cannot hold any other.
    pub fn content_type(self, s: &str) -> (r: Self)
        requires
            is_header_value(s.spec_bytes()),
            header_entries(self.headers_of()).dom().finite(),
            header_entries(self.headers_of()).dom().len() < header_room(),
        ensures
            header_entries(r.headers_of()) == header_entries(self.headers_of()).insert(
                content_type_name(),
                seq![s.spec_bytes()],
            ),
            r.status_of() == self.status_of(),
            r.version_of() == self.version_of(),
            r.body_of() == self.body_of(),
    {
        let mut b = self;
        proof {
            reveal_strlit("content-type");
        }
        header_insert(&mut b.head.headers, "content-type", s);
        b
    }

    /// The response built.
    pub fn build(self) -> (r: Resp<B>)
        ensures
            r.status_of() == self.status_of(),
            r.version_of() == self.version_of(),
            r.headers_of() == self.headers_of(),
            r.body_of() == self.body_of(),
    {
        Resp { head: self.head, body: self.body }
    }
}

} // verus!
