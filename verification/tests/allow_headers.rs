use hyper_cors::allow_headers::mirror_sanitized;
use hyper_cors::{AllowHeaders, HeaderName, HeaderValue, Method, RequestHead};

fn hv(s: &[u8]) -> HeaderValue {
    HeaderValue::from_bytes(s).unwrap()
}

fn head_with_request_headers(v: &[u8]) -> RequestHead {
    RequestHead {
        method: Method::options(),
        origin: None,
        request_method: Some(hv(b"POST")),
        request_headers: Some(hv(v)),
        websocket_version: false,
    }
}

#[test]
fn sanitizing_valid_list_keeps_it_verbatim() {
    let v = mirror_sanitized(&hv(b"content-type,x-custom")).unwrap();
    assert_eq!(v.as_bytes(), b"content-type,x-custom");
}

#[test]
fn sanitizing_trims_and_drops_invalid_entries() {
    let v = mirror_sanitized(&hv(b"ok-header, with space, , ,bad-token")).unwrap();
    assert_eq!(v.as_bytes(), b"ok-header,bad-token");
    let v = mirror_sanitized(&hv(b"content-type, x-custom")).unwrap();
    assert_eq!(v.as_bytes(), b"content-type,x-custom");
}

#[test]
fn sanitizing_nothing_valid_yields_none() {
    assert!(mirror_sanitized(&hv(b"")).is_none());
    assert!(mirror_sanitized(&hv(b" , ,")).is_none());
    assert!(mirror_sanitized(&hv(b"with space")).is_none());
}

#[test]
fn list_joins_names_in_order() {
    let ah = AllowHeaders::list(vec![
        HeaderName::from_bytes(b"x-custom").unwrap(),
        HeaderName::from_bytes(b"content-type").unwrap(),
    ]);
    let (name, value) = ah.to_header(&head_with_request_headers(b"ignored")).unwrap();
    assert_eq!(name.as_bytes(), b"access-control-allow-headers");
    assert_eq!(value.as_bytes(), b"x-custom,content-type");
}

#[test]
fn mirror_sends_sanitized_request_headers() {
    let ah = AllowHeaders::mirror_request();
    let (_, value) = ah.to_header(&head_with_request_headers(b"a b, c")).unwrap();
    assert_eq!(value.as_bytes(), b"c");
    assert!(ah.to_header(&head_with_request_headers(b"a b")).is_none());
}

#[test]
fn wildcard_and_variation_flags() {
    assert!(AllowHeaders::any().is_wildcard());
    assert!(!AllowHeaders::mirror_request().is_wildcard());
    assert!(AllowHeaders::default().varies_with_request_headers());
    assert!(!AllowHeaders::list(Vec::new()).varies_with_request_headers());
}
