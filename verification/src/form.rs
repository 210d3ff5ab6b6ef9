//! Extraction of `application/x-www-form-urlencoded` request bodies.
//!
//! `UrlEncoded` holds what is decided from the request head; the runtime
//! then hands it the body chunk by chunk (`feed`) and finally asks for the
//! parsed form (`finish`).

use vstd::prelude::*;
use crate::codec::{
    charset_encoding, decode_strict, encoding_for_charset, pair_views, parse_urlencoded,
    strict_decode, urlencoded_pairs,
};
use crate::error::UrlencodedError;
use crate::headers::{first_header, header_entries, header_get, no_headers};
use crate::buf::bytes_view;
use crate::http::{content_type_name, Body};
use crate::http::{Payload, ReqInfo};
use crate::text::{
    ascii_lower, charset_param, find_charset, is_visible_text, parse_usize, parsed_usize,
    split_at_semicolons, split_semicolons, to_ascii_lower, trim, trim_bytes, views, visible_text,
};
use vstd::string::StringSliceAdditionalSpecFns;

verus! {

/// The bytes of `application/x-www-form-urlencoded`.
pub open spec fn form_media_type() -> Seq<u8> {
    seq![
        97u8, 112, 112, 108, 105, 99, 97, 116, 105, 111, 110, 47, 120, 45, 119, 119, 119, 45,
        102, 111, 114, 109, 45, 117, 114, 108, 101, 110, 99, 111, 100, 101, 100,
    ]
}

/// The media type of a content type header value: the text before the first
/// semicolon, trimmed, when the value reads as text; empty otherwise (and
/// when there is no such header).
pub open spec fn media_type(ct: Option<Seq<u8>>) -> Seq<u8> {
    match ct {
        Some(v) => if is_visible_text(v) {
            trim(split_semicolons(v)[0])
        } else {
            Seq::empty()
        },
        None => Seq::empty(),
    }
}

/// Whether the content type is `application/x-www-form-urlencoded`, in any
/// case.
pub open spec fn is_form_media(ct: Option<Seq<u8>>) -> bool {
    ascii_lower(media_type(ct)) == form_media_type()
}

/// The charset label of a content type header value: the value of its first
/// `charset` parameter, when the value reads as text.
pub open spec fn charset_label(ct: Option<Seq<u8>>) -> Option<Seq<u8>> {
    match ct {
        Some(v) => if is_visible_text(v) {
            charset_param(split_semicolons(v).skip(1))
        } else {
            None
        },
        None => None,
    }
}

/// The charset of the request: `Ok(None)` when none is given (the body is
/// then UTF-8), `Ok(Some(label))` when the label names an encoding, `Err`
/// when it names none.
pub open spec fn request_charset(ct: Option<Seq<u8>>) -> Result<Option<Seq<u8>>, ()> {
    match charset_label(ct) {
        None => Ok(None),
        Some(l) => if charset_encoding(l) is Some {
            Ok(Some(l))
        } else {
            Err(())
        },
    }
}

/// The length a content length header value declares: `Ok(None)` without
/// the header, `Err` when the value is not a number that fits a `usize`.
pub open spec fn declared_length(cl: Option<Seq<u8>>) -> Result<Option<usize>, ()> {
    match cl {
        None => Ok(None),
        Some(v) => if is_visible_text(v) && parsed_usize(v) is Some {
            Ok(parsed_usize(v))
        } else {
            Err(())
        },
    }
}

/// The content type header value of a request.
pub open spec fn content_type_of(req: ReqInfo) -> Option<Seq<u8>> {
    first_header(req.headers_of(), "content-type"@)
}

/// The content length header value of a request.
pub open spec fn content_length_of(req: ReqInfo) -> Option<Seq<u8>> {
    first_header(req.headers_of(), "content-length"@)
}

/// The default limit on the size of a url-encoded body.
pub open spec fn default_body_limit() -> usize {
    32768
}

/// Future that resolves to a parsed urlencoded values.
///
/// Parse `application/x-www-form-urlencoded` encoded request's body. Form can
/// be deserialized to any type that implements `Deserialize` trait from
/// *serde* (by the runtime, from the pairs this yields).
///
/// Returns error:
///
/// * content type is not `application/x-www-form-urlencoded`
/// * content-length is greater than the limit
pub struct UrlEncoded<S> {
    stream: Option<Payload<S>>,
    limit: usize,
    length: Option<usize>,
    charset: Option<Vec<u8>>,
    err: Option<UrlencodedError>,
    body: Vec<u8>,
}

/// The view of an optional byte vector.
pub open spec fn opt_view(v: Option<Vec<u8>>) -> Option<Seq<u8>> {
    match v {
        Some(x) => Some(x@),
        None => None,
    }
}

impl<S> UrlEncoded<S> {
    /// The payload still held, if any.
    pub closed spec fn stream_of(&self) -> Option<Payload<S>> {
        self.stream
    }

    /// The largest body accepted.
    pub closed spec fn limit_of(&self) -> usize {
        self.limit
    }

    /// The length the request declared and that is still to be checked.
    pub closed spec fn length_of(&self) -> Option<usize> {
        self.length
    }

    /// The charset label of the request; `None` means UTF-8.
    pub closed spec fn charset_of(&self) -> Option<Seq<u8>> {
        opt_view(self.charset)
    }

    /// The error decided from the request head, not yet reported.
    pub closed spec fn err_of(&self) -> Option<UrlencodedError> {
        self.err
    }

    /// The body received so far.
    pub closed spec fn body_of(&self) -> Seq<u8> {
        self.body@
    }

    /// A charset, when there is one, names an encoding.
    pub open spec fn wf(&self) -> bool {
        self.charset_of() matches Some(l) ==> charset_encoding(l) is Some
    }

    fn with_error(e: UrlencodedError) -> (r: Self)
        ensures
            r.err_of() == Some(e),
            r.stream_of() is None,
            r.limit_of() == default_body_limit(),
            r.length_of() is None,
            r.charset_of() is None,
            r.body_of() == Seq::<u8>::empty(),
    {
        UrlEncoded {
            stream: None,
            limit: 32768,
            length: None,
            charset: None,
            err: Some(e),
            body: Vec::new(),
        }
    }

    /// Create a new future to URL encode a request: checks the content type,
    /// its charset and the declared length, and takes the payload when all
    /// three are acceptable.
    pub fn new(req: &ReqInfo, payload: &mut Payload<S>) -> (r: UrlEncoded<S>)
        ensures
            r.wf(),
            r.limit_of() == default_body_limit(),
            r.body_of() == Seq::<u8>::empty(),
            !is_form_media(content_type_of(*req)) ==> {
                &&& r.err_of() == Some(UrlencodedError::ContentType)
                &&& r.stream_of() is None
                &&& *final(payload) == *old(payload)
            },
            is_form_media(content_type_of(*req)) && request_charset(content_type_of(*req)) is Err
                ==> {
                &&& r.err_of() == Some(UrlencodedError::ContentType)
                &&& r.stream_of() is None
                &&& *final(payload) == *old(payload)
            },
            is_form_media(content_type_of(*req)) && request_charset(content_type_of(*req)) is Ok
                && declared_length(content_length_of(*req)) is Err ==> {
                &&& r.err_of() == Some(UrlencodedError::UnknownLength)
                &&& r.stream_of() is None
                &&& *final(payload) == *old(payload)
            },
            is_form_media(content_type_of(*req)) && request_charset(content_type_of(*req)) is Ok
                && declared_length(content_length_of(*req)) is Ok ==> {
                &&& r.err_of() is None
                &&& r.stream_of() == Some(*old(payload))
                &&& *final(payload) is Absent
                &&& r.charset_of() == request_charset(content_type_of(*req))->Ok_0
                &&& r.length_of() == declared_length(content_length_of(*req))->Ok_0
            },
    {
        proof {
            reveal_strlit("content-type");
            reveal_strlit("content-length");
        }
        let ct = header_get(req.headers(), "content-type");
        // the media type and the parameters
        let mut parts: Vec<Vec<u8>> = Vec::new();
        let mut media: Vec<u8> = Vec::new();
        match &ct {
            Some(v) => {
                if visible_text(v.as_slice()) {
                    proof {
                        crate::text::lemma_split_nonempty(v@);
                    }
                    parts = split_at_semicolons(v.as_slice());
                    assert(views(parts@) =~= split_semicolons(v@));
                    media = trim_bytes(parts[0].as_slice());
                }
            },
            None => {},
        }
        let lower = to_ascii_lower(media.as_slice());
        let expected: [u8; 33] = [
            97u8, 112, 112, 108, 105, 99, 97, 116, 105, 111, 110, 47, 120, 45, 119, 119, 119, 45,
            102, 111, 114, 109, 45, 117, 114, 108, 101, 110, 99, 111, 100, 101, 100,
        ];
        assert(expected@ =~= form_media_type());
        assert(media@ == media_type(content_type_of(*req)));
        if !crate::http_types::bytes_equal(lower.as_slice(), expected.as_slice()) {
            return Self::with_error(UrlencodedError::ContentType);
        }
        // the charset
        assert(parts@.len() > 0 ==> views(parts@).skip(1) == split_semicolons(
            content_type_of(*req)->Some_0,
        ).skip(1) && is_visible_text(content_type_of(*req)->Some_0) && content_type_of(*req) is Some);
        let label = if parts.len() > 0 {
            find_charset(&parts, 1)
        } else {
            None
        };
        assert(label matches Some(l) ==> charset_label(content_type_of(*req)) == Some(l@));
        assert(label is None ==> charset_label(content_type_of(*req)) is None);
        let charset = match label {
            Some(l) => {
                match encoding_for_charset(l.as_slice()) {
                    Some(_) => Some(l),
                    None => {
                        return Self::with_error(UrlencodedError::ContentType);
                    },
                }
            },
            None => None,
        };
        // the declared length
        let cl = header_get(req.headers(), "content-length");
        let length = match cl {
            Some(v) => {
                if !visible_text(v.as_slice()) {
                    return Self::with_error(UrlencodedError::UnknownLength);
                }
                match parse_usize(v.as_slice()) {
                    Some(n) => Some(n),
                    None => {
                        return Self::with_error(UrlencodedError::UnknownLength);
                    },
                }
            },
            None => None,
        };
        let stream = payload.take();
        UrlEncoded { stream: Some(stream), limit: 32768, length, charset, err: None, body: Vec::new() }
    }
}

/// The outcome of the check made before reading the body: an error found in
/// the request head, then a declared length over the limit.
pub open spec fn head_outcome(
    err: Option<UrlencodedError>,
    length: Option<usize>,
    limit: usize,
) -> Result<(), UrlencodedError> {
    match err {
        Some(e) => Err(e),
        None => match length {
            Some(len) => if len > limit {
                Err(UrlencodedError::Overflow { size: len, limit })
            } else {
                Ok(())
            },
            None => Ok(()),
        },
    }
}

/// The size reported for a body that grew past the limit: the sum of what
/// was held and what arrived, or the largest `usize` if that sum does not
/// fit one.
pub open spec fn overflow_size(held: nat, arrived: nat) -> usize {
    if held + arrived <= usize::MAX {
        (held + arrived) as usize
    } else {
        usize::MAX
    }
}

/// The body after receiving a chunk: the chunk appended, or the overflow
/// error when the result would be longer than the limit.
pub open spec fn after_chunk(body: Seq<u8>, chunk: Seq<u8>, limit: usize) -> Result<
    Seq<u8>,
    UrlencodedError,
> {
    if body.len() + chunk.len() > limit {
        Err(UrlencodedError::Overflow { size: overflow_size(body.len(), chunk.len()), limit })
    } else {
        Ok(body + chunk)
    }
}

/// The body after receiving a series of chunks, or the first overflow.
pub open spec fn after_chunks(body: Seq<u8>, chunks: Seq<Seq<u8>>, limit: usize) -> Result<
    Seq<u8>,
    UrlencodedError,
>
    decreases chunks.len(),
{
    if chunks.len() == 0 {
        Ok(body)
    } else {
        match after_chunk(body, chunks[0], limit) {
            Ok(b) => after_chunks(b, chunks.drop_first(), limit),
            Err(e) => Err(e),
        }
    }
}

/// Whether a body in the given charset is UTF-8.
pub open spec fn is_utf8_charset(charset: Option<Seq<u8>>) -> bool {
    match charset {
        None => true,
        Some(l) => charset_encoding(l) == Some("UTF-8"@),
    }
}

/// The form read from a complete body: UTF-8 bodies are parsed as they are,
/// others are first decoded strictly from their charset; any failure is a
/// parse error.
pub open spec fn form_of_body(charset: Option<Seq<u8>>, body: Seq<u8>) -> Result<
    Seq<(Seq<char>, Seq<char>)>,
    UrlencodedError,
> {
    if is_utf8_charset(charset) {
        match urlencoded_pairs(body) {
            Some(p) => Ok(p),
            None => Err(UrlencodedError::Parse),
        }
    } else {
        match strict_decode(charset->Some_0, body) {
            Some(t) => match urlencoded_pairs(vstd::utf8::encode_utf8(t)) {
                Some(p) => Ok(p),
                None => Err(UrlencodedError::Parse),
            },
            None => Err(UrlencodedError::Parse),
        }
    }
}

/// The chunks one after the other.
pub open spec fn concat_chunks(chunks: Seq<Seq<u8>>) -> Seq<u8>
    decreases chunks.len(),
{
    if chunks.len() == 0 {
        Seq::empty()
    } else {
        chunks[0] + concat_chunks(chunks.drop_first())
    }
}

/// The outcome of reading a whole body that arrives in the given chunks.
pub open spec fn urlencoded_outcome(
    err: Option<UrlencodedError>,
    length: Option<usize>,
    limit: usize,
    charset: Option<Seq<u8>>,
    body: Seq<u8>,
    chunks: Seq<Seq<u8>>,
) -> Result<Seq<(Seq<char>, Seq<char>)>, UrlencodedError> {
    match head_outcome(err, length, limit) {
        Err(e) => Err(e),
        Ok(_) => match after_chunks(body, chunks, limit) {
            Err(e) => Err(e),
            Ok(b) => form_of_body(charset, b),
        },
    }
}

/// A body is refused exactly when what was held and what arrives together are
/// longer than the limit, and then with an overflow error; otherwise the body
/// accepted is what was held followed by the chunks in order, and it is no
/// longer than the limit.
pub proof fn body_limit_law(body: Seq<u8>, chunks: Seq<Seq<u8>>, limit: usize)
    requires
        body.len() <= limit,
    ensures
        after_chunks(body, chunks, limit) is Err <==> body.len() + concat_chunks(chunks).len()
            > limit,
        after_chunks(body, chunks, limit) matches Err(e) ==> e is Overflow,
        after_chunks(body, chunks, limit) matches Ok(b) ==> b == body + concat_chunks(chunks)
            && b.len() <= limit,
    decreases chunks.len(),
{
    if chunks.len() > 0 {
        let c = chunks[0];
        if body.len() + c.len() <= limit {
            body_limit_law(body + c, chunks.drop_first(), limit);
            assert(body + c + concat_chunks(chunks.drop_first()) =~= body + concat_chunks(chunks));
        }
    } else {
        assert(body + concat_chunks(chunks) =~= body);
    }
}

impl<S> UrlEncoded<S> {
    /// Reads a whole body that is already at hand, in chunks: the check,
    /// every chunk in order, then the form. This is what the future does when
    /// its payload yields these chunks.
    pub fn run(self, chunks: &Vec<Vec<u8>>) -> (r: Result<Vec<(String, String)>, UrlencodedError>)
        requires
            self.wf(),
            self.body_of().len() <= self.limit_of(),
            !is_utf8_charset(self.charset_of()) ==> self.body_of().len() + concat_chunks(
                views(chunks@),
            ).len() <= usize::MAX / 4,
        ensures
            r matches Ok(v) ==> urlencoded_outcome(
                self.err_of(),
                self.length_of(),
                self.limit_of(),
                self.charset_of(),
                self.body_of(),
                views(chunks@),
            ) == Ok::<Seq<(Seq<char>, Seq<char>)>, UrlencodedError>(pair_views(v@)),
            r matches Err(e) ==> urlencoded_outcome(
                self.err_of(),
                self.length_of(),
                self.limit_of(),
                self.charset_of(),
                self.body_of(),
                views(chunks@),
            ) == Err::<Seq<(Seq<char>, Seq<char>)>, UrlencodedError>(e),
    {
        let mut u = self;
        match u.check() {
            Err(e) => {
                return Err(e);
            },
            Ok(()) => {},
        }
        let mut i: usize = 0;
        assert(views(chunks@).skip(0) =~= views(chunks@));
        while i < chunks.len()
            invariant
                i <= chunks@.len(),
                head_outcome(self.err_of(), self.length_of(), self.limit_of()) is Ok,
                u.wf(),
                u.limit_of() == self.limit_of(),
                u.charset_of() == self.charset_of(),
                u.body_of().len() <= u.limit_of(),
                u.body_of().len() + concat_chunks(views(chunks@).skip(i as int)).len()
                    == self.body_of().len() + concat_chunks(views(chunks@)).len(),
                !is_utf8_charset(self.charset_of()) ==> self.body_of().len() + concat_chunks(
                    views(chunks@),
                ).len() <= usize::MAX / 4,
                after_chunks(self.body_of(), views(chunks@), self.limit_of()) == after_chunks(
                    u.body_of(),
                    views(chunks@).skip(i as int),
                    u.limit_of(),
                ),
            decreases chunks@.len() - i,
        {
            let ghost rest = views(chunks@).skip(i as int);
            assert(rest[0] == chunks@[i as int]@);
            assert(rest.drop_first() =~= views(chunks@).skip(i + 1));
            match u.feed(chunks[i].as_slice()) {
                Err(e) => {
                    return Err(e);
                },
                Ok(()) => {},
            }
            i = i + 1;
        }
        assert(views(chunks@).skip(chunks@.len() as int) =~= Seq::<Seq<u8>>::empty());
        u.finish()
    }

    /// Change max size of payload.
    pub fn limit(self, limit: usize) -> (r: Self)
        ensures
            r.limit_of() == limit,
            r.stream_of() == self.stream_of(),
            r.length_of() == self.length_of(),
            r.charset_of() == self.charset_of(),
            r.err_of() == self.err_of(),
            r.body_of() == self.body_of(),
    {
        let mut u = self;
        u.limit = limit;
        u
    }

    /// The check made before reading the body: reports the error found in the
    /// request head, or a declared length over the limit. Both are reported
    /// once: afterwards neither is held.
    pub fn check(&mut self) -> (r: Result<(), UrlencodedError>)
        ensures
            r == head_outcome(old(self).err_of(), old(self).length_of(), old(self).limit_of()),
            final(self).err_of() is None,
            final(self).length_of() is None,
            final(self).stream_of() == old(self).stream_of(),
            final(self).limit_of() == old(self).limit_of(),
            final(self).charset_of() == old(self).charset_of(),
            final(self).body_of() == old(self).body_of(),
    {
        let mut err: Option<UrlencodedError> = None;
        std::mem::swap(&mut err, &mut self.err);
        let mut length: Option<usize> = None;
        std::mem::swap(&mut length, &mut self.length);
        match err {
            Some(e) => Err(e),
            None => match length {
                Some(len) => if len > self.limit {
                    Err(UrlencodedError::Overflow { size: len, limit: self.limit })
                } else {
                    Ok(())
                },
                None => Ok(()),
            },
        }
    }

    /// Hands the payload over to the runtime that reads it.
    pub fn take_payload(&mut self) -> (r: Option<Payload<S>>)
        ensures
            r == old(self).stream_of(),
            final(self).stream_of() is None,
            final(self).limit_of() == old(self).limit_of(),
            final(self).length_of() == old(self).length_of(),
            final(self).charset_of() == old(self).charset_of(),
            final(self).err_of() == old(self).err_of(),
            final(self).body_of() == old(self).body_of(),
    {
        let mut taken: Option<Payload<S>> = None;
        std::mem::swap(&mut taken, &mut self.stream);
        taken
    }

    /// Receives a chunk of the body: appends it, or reports an overflow when
    /// the body would grow past the limit (the body is then kept as it was).
    pub fn feed(&mut self, chunk: &[u8]) -> (r: Result<(), UrlencodedError>)
        ensures
            after_chunk(old(self).body_of(), chunk@, old(self).limit_of()) matches Ok(b) ==> r
                is Ok && final(self).body_of() == b,
            after_chunk(old(self).body_of(), chunk@, old(self).limit_of()) matches Err(e) ==> r
                == Err::<(), UrlencodedError>(e) && final(self).body_of() == old(self).body_of(),
            final(self).stream_of() == old(self).stream_of(),
            final(self).limit_of() == old(self).limit_of(),
            final(self).length_of() == old(self).length_of(),
            final(self).charset_of() == old(self).charset_of(),
            final(self).err_of() == old(self).err_of(),
    {
        let held = self.body.len();
        let too_long = match held.checked_add(chunk.len()) {
            Some(total) => total > self.limit,
            None => true,
        };
        if too_long {
            let size = match held.checked_add(chunk.len()) {
                Some(total) => total,
                None => usize::MAX,
            };
            return Err(UrlencodedError::Overflow { size, limit: self.limit });
        }
        let mut i: usize = 0;
        let ghost start = self.body@;
        while i < chunk.len()
            invariant
                i <= chunk@.len(),
                self.body@ == start + chunk@.take(i as int),
                self.stream_of() == old(self).stream_of(),
                self.limit_of() == old(self).limit_of(),
                self.length_of() == old(self).length_of(),
                self.charset_of() == old(self).charset_of(),
                self.err_of() == old(self).err_of(),
                start == old(self).body_of(),
            decreases chunk@.len() - i,
        {
            self.body.push(chunk[i]);
            assert(chunk@.take(i + 1) =~= chunk@.take(i as int).push(chunk@[i as int]));
            i = i + 1;
        }
        assert(chunk@.take(chunk@.len() as int) =~= chunk@);
        Ok(())
    }

    /// Whether the body is read as UTF-8 as it is, rather than decoded from
    /// another charset first.
    pub fn is_utf8(&self) -> (r: bool)
        ensures
            r == is_utf8_charset(self.charset_of()),
    {
        match &self.charset {
            None => true,
            Some(l) => match encoding_for_charset(l.as_slice()) {
                Some(name) => {
                    proof {
                        reveal_strlit("UTF-8");
                    }
                    name == "UTF-8".to_owned()
                },
                None => false,
            },
        }
    }

    /// The number of body bytes received so far.
    pub fn received(&self) -> (r: usize)
        ensures
            r == self.body_of().len(),
    {
        self.body.len()
    }

    /// The form read from the complete body.
    pub fn finish(self) -> (r: Result<Vec<(String, String)>, UrlencodedError>)
        requires
            self.wf(),
            !is_utf8_charset(self.charset_of()) ==> self.body_of().len() <= usize::MAX / 4,
        ensures
            r matches Ok(v) ==> form_of_body(self.charset_of(), self.body_of()) == Ok::<
                Seq<(Seq<char>, Seq<char>)>,
                UrlencodedError,
            >(pair_views(v@)),
            r matches Err(e) ==> form_of_body(self.charset_of(), self.body_of()) == Err::<
                Seq<(Seq<char>, Seq<char>)>,
                UrlencodedError,
            >(e),
    {
        let utf8 = self.is_utf8();
        if utf8 {
            match parse_urlencoded(self.body.as_slice()) {
                Some(p) => Ok(p),
                None => Err(UrlencodedError::Parse),
            }
        } else {
            let label = match &self.charset {
                Some(l) => l,
                None => {
                    return Err(UrlencodedError::Parse);
                },
            };
            match decode_strict(label.as_slice(), self.body.as_slice()) {
                Some(text) => match parse_urlencoded(text.as_str().as_bytes()) {
                    Some(p) => Ok(p),
                    None => Err(UrlencodedError::Parse),
                },
                None => Err(UrlencodedError::Parse),
            }
        }
    }
}

/// Form extractor configuration: the largest body accepted (16 KiB unless
/// changed).
#[derive(Debug, Clone)]
pub struct FormConfig {
    limit: usize,
}

impl FormConfig {
    /// The largest body accepted.
    pub closed spec fn limit_of(&self) -> usize {
        self.limit
    }

    /// Change max size of payload. By default max size is 16Kb
    pub fn limit(self, limit: usize) -> (r: Self)
        ensures
            r.limit_of() == limit,
    {
        FormConfig { limit }
    }

    /// The largest body accepted.
    pub fn get_limit(&self) -> (r: usize)
        ensures
            r == self.limit_of(),
    {
        self.limit
    }
}

impl Default for FormConfig {
    fn default() -> (r: FormConfig)
        ensures
            r.limit_of() == 16384,
    {
        FormConfig { limit: 16384 }
    }
}

/// The extraction of a form from a request: the head is checked as
/// `UrlEncoded::new` does, with the limit of the configuration, or 16 KiB
/// without one.
pub fn form_extractor<S>(req: &ReqInfo, payload: &mut Payload<S>, config: Option<&FormConfig>) -> (r:
    UrlEncoded<S>)
    ensures
        r.wf(),
        r.limit_of() == (match config {
            Some(c) => c.limit_of(),
            None => 16384,
        }),
        r.body_of() == Seq::<u8>::empty(),
        !is_form_media(content_type_of(*req)) || request_charset(content_type_of(*req)) is Err
            ==> {
            &&& r.err_of() == Some(UrlencodedError::ContentType)
            &&& r.stream_of() is None
            &&& *final(payload) == *old(payload)
        },
        is_form_media(content_type_of(*req)) && request_charset(content_type_of(*req)) is Ok
            && declared_length(content_length_of(*req)) is Err ==> {
            &&& r.err_of() == Some(UrlencodedError::UnknownLength)
            &&& r.stream_of() is None
            &&& *final(payload) == *old(payload)
        },
        is_form_media(content_type_of(*req)) && request_charset(content_type_of(*req)) is Ok
            && declared_length(content_length_of(*req)) is Ok ==> {
            &&& r.err_of() is None
            &&& r.stream_of() == Some(*old(payload))
            &&& *final(payload) is Absent
            &&& r.charset_of() == request_charset(content_type_of(*req))->Ok_0
            &&& r.length_of() == declared_length(content_length_of(*req))->Ok_0
        },
{
    let limit = match config {
        Some(c) => c.get_limit(),
        None => 16384,
    };
    UrlEncoded::new(req, payload).limit(limit)
}

/// The response that carries a url-encoded form: status 200, content type
/// `application/x-www-form-urlencoded`, the encoded text as body.
pub fn urlencoded_response(encoded: &str) -> (r: crate::http::Resp)
    ensures
        r.status_of()@ == 200,
        header_entries(r.headers_of()) == no_headers().insert(
            content_type_name(),
            seq!["application/x-www-form-urlencoded".spec_bytes()],
        ),
        r.body_of() matches Some(Body::Bytes(b)) && bytes_view(b) == encoded.spec_bytes(),
{
    let ct = "application/x-www-form-urlencoded";
    proof {
        reveal_strlit("application/x-www-form-urlencoded");
        crate::headers::lemma_visible_ascii_value(ct);
    }
    crate::http::Resp::ok().content_type(ct).body(Body::from_text(encoded)).build()
}

} // verus!
