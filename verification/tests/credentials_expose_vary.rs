use hyper_cors::{AllowCredentials, ExposeHeaders, HeaderName, HeaderValue, Method, RequestHead, Vary};

fn head() -> RequestHead {
    RequestHead {
        method: Method::get(),
        origin: None,
        request_method: None,
        request_headers: None,
        websocket_version: false,
    }
}

#[test]
fn credentials_yes_sends_true() {
    let o = HeaderValue::from_bytes(b"https://a.example").unwrap();
    let (name, value) = AllowCredentials::<()>::yes().to_header(Some(&o), false).unwrap();
    assert_eq!(name.as_bytes(), b"access-control-allow-credentials");
    assert_eq!(value.as_bytes(), b"true");
    // Without `Origin` the request is not a CORS request: no credentials.
    assert!(AllowCredentials::<()>::yes().to_header(None, false).is_none());
}

#[test]
fn credentials_no_sends_nothing() {
    let o = HeaderValue::from_bytes(b"https://a.example").unwrap();
    assert!(AllowCredentials::<()>::default().to_header(Some(&o), true).is_none());
    assert!(AllowCredentials::<()>::from_bool(false).to_header(Some(&o), true).is_none());
    assert!(AllowCredentials::<()>::from_bool(true).is_true());
}

#[test]
fn credentials_predicate_follows_verdict_and_needs_origin() {
    let o = HeaderValue::from_bytes(b"https://a.example").unwrap();
    let c = AllowCredentials::predicate(());
    assert!(!c.is_true());
    assert!(c.as_predicate().is_some());
    assert!(c.to_header(Some(&o), true).is_some());
    assert!(c.to_header(Some(&o), false).is_none());
    assert!(c.to_header(None, true).is_none());
}

#[test]
fn expose_headers_list_and_default() {
    let e = ExposeHeaders::list(vec![
        HeaderName::from_bytes(b"x-trace-id").unwrap(),
        HeaderName::from_bytes(b"x-rate-limit").unwrap(),
    ]);
    let (name, value) = e.to_header(&head()).unwrap();
    assert_eq!(name.as_bytes(), b"access-control-expose-headers");
    assert_eq!(value.as_bytes(), b"x-trace-id,x-rate-limit");
    assert!(ExposeHeaders::default().to_header(&head()).is_none());
    assert!(ExposeHeaders::any().is_wildcard());
    assert!(!e.is_wildcard());
}

#[test]
fn vary_list_joins_with_comma_space() {
    let v = Vary::list(vec![
        HeaderName::from_bytes(b"Origin").unwrap(),
        HeaderName::from_bytes(b"accept-encoding").unwrap(),
    ]);
    let (name, value) = v.to_header().unwrap();
    assert_eq!(name.as_bytes(), b"vary");
    assert_eq!(value.as_bytes(), b"origin, accept-encoding");
    assert!(Vary::list(Vec::new()).to_header().is_none());
    let (_, d) = Vary::default().to_header().unwrap();
    assert_eq!(
        d.as_bytes(),
        b"origin, access-control-request-method, access-control-request-headers"
    );
    assert_eq!(Vary::default_header_names().len(), 3);
}
