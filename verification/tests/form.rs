use rweb::form::{form_extractor, urlencoded_response, FormConfig, UrlEncoded};
use rweb::{Body, Method, Payload, ReqInfo, UrlencodedError, Version};

fn request(headers: &[(&'static str, &str)]) -> ReqInfo {
    let mut map = http::HeaderMap::new();
    for (name, value) in headers {
        map.insert(*name, http::HeaderValue::from_str(value).unwrap());
    }
    ReqInfo::new(Method::Post, "/".parse().unwrap(), Version::Http11, map)
}

fn pairs(v: &[(&str, &str)]) -> Vec<(String, String)> {
    v.iter().map(|(a, b)| (a.to_string(), b.to_string())).collect()
}

fn chunks(v: &[&[u8]]) -> Vec<Vec<u8>> {
    v.iter().map(|c| c.to_vec()).collect()
}

#[test]
fn test_form() {
    let req = request(&[
        ("content-type", "application/x-www-form-urlencoded"),
        ("content-length", "11"),
    ]);
    let mut pl = Payload::Stream(());
    let form = form_extractor(&req, &mut pl, None);
    let s = form.run(&chunks(&[b"hello=world&counter=123"])).unwrap();
    assert_eq!(s, pairs(&[("hello", "world"), ("counter", "123")]));
}

#[test]
fn test_urlencoded_error() {
    let req = request(&[
        ("content-type", "application/x-www-form-urlencoded"),
        ("content-length", "xxxx"),
    ]);
    let mut pl = Payload::Stream(());
    let mut info = UrlEncoded::new(&req, &mut pl);
    assert_eq!(info.check().err().unwrap(), UrlencodedError::UnknownLength);

    let req = request(&[
        ("content-type", "application/x-www-form-urlencoded"),
        ("content-length", "1000000"),
    ]);
    let mut pl = Payload::Stream(());
    let mut info = UrlEncoded::new(&req, &mut pl);
    assert!(matches!(info.check().err().unwrap(), UrlencodedError::Overflow { .. }));

    let req = request(&[("content-type", "text/plain"), ("content-length", "10")]);
    let mut pl = Payload::Stream(());
    let mut info = UrlEncoded::new(&req, &mut pl);
    assert_eq!(info.check().err().unwrap(), UrlencodedError::ContentType);
}

#[test]
fn test_urlencoded() {
    let req = request(&[
        ("content-type", "application/x-www-form-urlencoded"),
        ("content-length", "11"),
    ]);
    let mut pl = Payload::Stream(());
    let info = UrlEncoded::new(&req, &mut pl).run(&chunks(&[b"hello=world&counter=123"])).unwrap();
    assert_eq!(info, pairs(&[("hello", "world"), ("counter", "123")]));

    let req = request(&[
        ("content-type", "application/x-www-form-urlencoded; charset=utf-8"),
        ("content-length", "11"),
    ]);
    let mut pl = Payload::Stream(());
    let info = UrlEncoded::new(&req, &mut pl).run(&chunks(&[b"hello=world&counter=123"])).unwrap();
    assert_eq!(info, pairs(&[("hello", "world"), ("counter", "123")]));
}

#[test]
fn test_responder() {
    let mut resp = urlencoded_response("hello=world&counter=123");
    assert_eq!(resp.status().as_u16(), 200);
    assert_eq!(
        resp.headers().get(http::header::CONTENT_TYPE).unwrap(),
        http::HeaderValue::from_static("application/x-www-form-urlencoded")
    );
    match resp.body() {
        Some(Body::Bytes(b)) => assert_eq!(&b[..], b"hello=world&counter=123"),
        _ => panic!("the response carries the encoded form"),
    }
}

#[test]
fn new_takes_the_payload_only_when_the_head_is_acceptable() {
    let req = request(&[("content-type", "application/x-www-form-urlencoded")]);
    let mut pl = Payload::Stream(7u8);
    let mut u = UrlEncoded::new(&req, &mut pl);
    assert!(matches!(pl, Payload::Absent));
    assert!(matches!(u.take_payload(), Some(Payload::Stream(7u8))));

    let req = request(&[("content-type", "application/json")]);
    let mut pl = Payload::Stream(7u8);
    let mut u = UrlEncoded::new(&req, &mut pl);
    assert!(matches!(pl, Payload::Stream(7u8)));
    assert!(u.take_payload().is_none());
}

#[test]
fn missing_content_type_is_refused() {
    let req = request(&[]);
    let mut pl = Payload::Stream(());
    let mut u = UrlEncoded::new(&req, &mut pl);
    assert_eq!(u.check(), Err(UrlencodedError::ContentType));
}

#[test]
fn media_type_is_matched_in_any_case_and_trimmed() {
    let req = request(&[("content-type", "  Application/X-WWW-Form-UrlEncoded ;foo=bar")]);
    let mut pl = Payload::Stream(());
    let mut u = UrlEncoded::new(&req, &mut pl);
    assert_eq!(u.check(), Ok(()));
}

#[test]
fn unknown_charset_is_a_content_type_error() {
    let req = request(&[("content-type", "application/x-www-form-urlencoded; charset=klingon")]);
    let mut pl = Payload::Stream(());
    let mut u = UrlEncoded::new(&req, &mut pl);
    assert_eq!(u.check(), Err(UrlencodedError::ContentType));
}

#[test]
fn latin1_body_is_decoded_before_parsing() {
    let req = request(&[("content-type", "application/x-www-form-urlencoded; Charset=\"ISO-8859-1\"")]);
    let mut pl = Payload::Stream(());
    let u = UrlEncoded::new(&req, &mut pl);
    let form = u.run(&chunks(&[b"name=caf", &[0xE9u8]])).unwrap();
    assert_eq!(form, pairs(&[("name", "café")]));
}

#[test]
fn malformed_utf16_body_is_a_parse_error() {
    let req = request(&[("content-type", "application/x-www-form-urlencoded; charset=utf-16le")]);
    let mut pl = Payload::Stream(());
    let u = UrlEncoded::new(&req, &mut pl);
    assert_eq!(u.run(&chunks(&[b"abc"])), Err(UrlencodedError::Parse));
}

#[test]
fn plus_sign_and_leading_zeros_in_content_length() {
    let req = request(&[
        ("content-type", "application/x-www-form-urlencoded"),
        ("content-length", "+00032769"),
    ]);
    let mut pl = Payload::Stream(());
    let mut u = UrlEncoded::new(&req, &mut pl);
    assert_eq!(u.check(), Err(UrlencodedError::Overflow { size: 32769, limit: 32768 }));

    let req = request(&[
        ("content-type", "application/x-www-form-urlencoded"),
        ("content-length", "-1"),
    ]);
    let mut pl = Payload::Stream(());
    let mut u = UrlEncoded::new(&req, &mut pl);
    assert_eq!(u.check(), Err(UrlencodedError::UnknownLength));

    let req = request(&[
        ("content-type", "application/x-www-form-urlencoded"),
        ("content-length", "99999999999999999999999"),
    ]);
    let mut pl = Payload::Stream(());
    let mut u = UrlEncoded::new(&req, &mut pl);
    assert_eq!(u.check(), Err(UrlencodedError::UnknownLength));
}

#[test]
fn body_longer_than_the_limit_overflows() {
    let req = request(&[("content-type", "application/x-www-form-urlencoded")]);
    let mut pl = Payload::Stream(());
    let u = UrlEncoded::new(&req, &mut pl).limit(10);
    let r = u.run(&chunks(&[b"a=12345", b"6789"]));
    assert_eq!(r, Err(UrlencodedError::Overflow { size: 11, limit: 10 }));
}

#[test]
fn body_exactly_at_the_limit_is_accepted() {
    let req = request(&[("content-type", "application/x-www-form-urlencoded")]);
    let mut pl = Payload::Stream(());
    let mut u = UrlEncoded::new(&req, &mut pl).limit(10);
    assert_eq!(u.check(), Ok(()));
    assert_eq!(u.feed(b"a=1234"), Ok(()));
    assert_eq!(u.feed(b"5678"), Ok(()));
    assert_eq!(u.feed(b"9"), Err(UrlencodedError::Overflow { size: 11, limit: 10 }));
    assert_eq!(u.finish(), Ok(pairs(&[("a", "12345678")])));
}

#[test]
fn head_error_is_reported_once() {
    let req = request(&[("content-type", "text/plain")]);
    let mut pl = Payload::Stream(());
    let mut u: UrlEncoded<()> = UrlEncoded::new(&req, &mut pl);
    assert_eq!(u.check(), Err(UrlencodedError::ContentType));
    assert_eq!(u.check(), Ok(()));
}

#[test]
fn form_config_limits() {
    let cfg = FormConfig::default();
    assert_eq!(cfg.get_limit(), 16384);
    let cfg = cfg.limit(4);
    assert_eq!(cfg.get_limit(), 4);
    let req = request(&[("content-type", "application/x-www-form-urlencoded")]);
    let mut pl = Payload::Stream(());
    let u = form_extractor(&req, &mut pl, Some(&cfg));
    assert_eq!(u.run(&chunks(&[b"a=12"])), Ok(pairs(&[("a", "12")])));
    let mut pl = Payload::Stream(());
    let u = form_extractor(&req, &mut pl, Some(&cfg));
    assert_eq!(u.run(&chunks(&[b"a=123"])), Err(UrlencodedError::Overflow { size: 5, limit: 4 }));
}
