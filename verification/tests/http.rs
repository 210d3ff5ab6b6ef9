use rweb::error::Error;
use rweb::handler::{service_response, Handler};
use rweb::{
    Body, BodyChunk, BodySize, BodyStream, Data, MessageBody, Method, Payload, PayloadError,
    ReqInfo, Resp, ResponseError, SizedStream, StatusCode, UrlencodedError, Version,
};

#[test]
fn body_size_eof() {
    assert!(BodySize::Absent.is_eof());
    assert!(BodySize::Empty.is_eof());
    assert!(BodySize::Sized(0).is_eof());
    assert!(BodySize::Sized64(0).is_eof());
    assert!(!BodySize::Sized(1).is_eof());
    assert!(!BodySize::Sized64(7).is_eof());
    assert!(!BodySize::Stream.is_eof());
}

#[test]
fn bytes_body_is_sent_in_one_chunk() {
    let mut b = Body::from_slice(b"hello");
    assert_eq!(b.size(), BodySize::Sized(5));
    match b.next_chunk() {
        BodyChunk::Chunk(c) => assert_eq!(&c[..], b"hello"),
        _ => panic!("a body in memory gives its bytes"),
    }
    assert_eq!(b.size(), BodySize::Sized(0));
    assert!(b.size().is_eof());
    assert!(matches!(b.next_chunk(), BodyChunk::End));
}

#[test]
fn absent_and_empty_bodies_end_at_once() {
    let mut b = Body::Absent;
    assert_eq!(b.size(), BodySize::Absent);
    assert!(matches!(b.next_chunk(), BodyChunk::End));
    let mut b = Body::Empty;
    assert_eq!(b.size(), BodySize::Empty);
    assert!(matches!(b.next_chunk(), BodyChunk::End));
    let mut b = Body::from_vec(Vec::new());
    assert!(matches!(b.next_chunk(), BodyChunk::End));
}

#[test]
fn message_bodies_stream_themselves() {
    let mut b = Body::from_message(SizedStream::new(42, ()));
    assert_eq!(b.size(), BodySize::Sized64(42));
    assert!(matches!(b.next_chunk(), BodyChunk::Streamed));
    let b = Body::from_message(BodyStream::<(), ()>::new(()));
    assert_eq!(b.size(), BodySize::Stream);
    assert_eq!(().size(), BodySize::Empty);
}

#[test]
fn text_body_holds_utf8_bytes() {
    let b = Body::from_text("héllo");
    assert_eq!(b.size(), BodySize::Sized(6));
}

#[test]
fn status_code_range() {
    assert!(StatusCode::from_u16(99).is_err());
    assert!(StatusCode::from_u16(1000).is_err());
    assert_eq!(StatusCode::from_u16(100).unwrap().as_u16(), 100);
    assert_eq!(StatusCode::from_u16(999).unwrap().as_u16(), 999);
}

#[test]
fn fixed_status_builders() {
    assert_eq!(Resp::ok().build().status().as_u16(), 200);
    assert_eq!(Resp::created().build().status().as_u16(), 201);
    assert_eq!(Resp::no_content().build().status().as_u16(), 204);
    assert_eq!(Resp::temporary_redirect().build().status().as_u16(), 307);
    assert_eq!(Resp::not_found().build().status().as_u16(), 404);
    assert_eq!(Resp::precondition_required().build().status().as_u16(), 428);
    assert_eq!(Resp::too_many_requests().build().status().as_u16(), 429);
    assert_eq!(Resp::internal_server_error().build().status().as_u16(), 500);
    assert_eq!(Resp::loop_detected().build().status().as_u16(), 508);
}

#[test]
fn response_parts() {
    let mut r: Resp = Resp::new(StatusCode::from_u16(202).unwrap());
    assert_eq!(r.status().as_u16(), 202);
    assert!(r.headers().is_empty());
    assert!(r.body().is_none());
    *r.status_mut() = StatusCode::from_u16(418).unwrap();
    assert_eq!(r.status().as_u16(), 418);
    r.headers_mut().insert("x-a", http::HeaderValue::from_static("1"));
    assert_eq!(r.headers().get("x-a").unwrap(), "1");
    r.set_body(Body::from_slice(b"x"));
    assert!(matches!(r.body(), Some(Body::Bytes(_))));
}

#[test]
fn content_type_replaces_earlier_value() {
    let mut r = Resp::ok()
        .content_type("text/plain")
        .content_type("application/json")
        .body(Body::Empty)
        .build();
    let all: Vec<_> = r.headers().get_all("content-type").iter().collect();
    assert_eq!(all, vec![http::HeaderValue::from_static("application/json")]);
    assert!(matches!(r.body(), Some(Body::Empty)));
}

#[test]
fn error_responses_carry_the_status() {
    let r = Resp::from_err(Error::from_payload(PayloadError::Overflow));
    assert_eq!(r.status().as_u16(), 413);
    let r = Resp::from_err(Error::from_payload(PayloadError::UnknownLength));
    assert_eq!(r.status().as_u16(), 400);
    let r = Resp::from_err(Error::from_urlencoded(UrlencodedError::UnknownLength));
    assert_eq!(r.status().as_u16(), 411);
    let r = Resp::from_err(Error::from_urlencoded(UrlencodedError::Overflow { size: 2, limit: 1 }));
    assert_eq!(r.status().as_u16(), 413);
    assert_eq!(UrlencodedError::Parse.status_code().as_u16(), 400);
    assert_eq!(PayloadError::Io("broken pipe".to_string()).status_code().as_u16(), 400);
}

#[test]
fn payload_take_leaves_nothing() {
    let mut p = Payload::Stream(5u32);
    let taken = p.take();
    assert!(matches!(taken, Payload::Stream(5)));
    assert!(matches!(p, Payload::Absent));
    assert!(matches!(p.take(), Payload::Absent));
}

#[test]
fn data_gives_back_its_value() {
    assert_eq!(Data::new(3).take().unwrap(), 3);
}

#[test]
fn request_info_parts() {
    let mut h = http::HeaderMap::new();
    h.insert("accept", http::HeaderValue::from_static("*/*"));
    let uri: http::Uri = "/a?b=c".parse().unwrap();
    let r = ReqInfo::new(Method::Put, uri.clone(), Version::H2, h);
    assert_eq!(*r.method(), Method::Put);
    assert_eq!(*r.uri(), uri);
    assert_eq!(r.version(), Version::H2);
    assert_eq!(r.headers().get("accept").unwrap(), "*/*");
    assert_eq!(r.headers.len(), 1);
}

#[test]
fn methods_compare_by_name() {
    assert!(Method::Get.same_as(&Method::Get));
    assert!(!Method::Get.same_as(&Method::Post));
    assert!(Method::Extension(b"PURGE".to_vec()).same_as(&Method::Extension(b"PURGE".to_vec())));
    assert!(!Method::Extension(b"PURGE".to_vec()).same_as(&Method::Extension(b"PURG".to_vec())));
}

#[test]
fn service_answers_the_response_or_the_error() {
    let ok = service_response(Ok(Resp::created().build()));
    assert_eq!(ok.status().as_u16(), 201);
    let err = service_response(Err(Error::from_payload(PayloadError::Overflow)));
    assert_eq!(err.status().as_u16(), 413);
    assert!(err.headers().is_empty());
    let base = 21u32;
    assert_eq!(Handler::new(move || base * 2).call(()), 42);
}
