use hyper_cors::{AllowMethods, HeaderValue, Method, RequestHead};

fn parts_with_request_method(value: &str) -> RequestHead {
    RequestHead {
        method: Method::options(),
        origin: None,
        request_method: Some(HeaderValue::from_bytes(value.as_bytes()).unwrap()),
        request_headers: None,
        websocket_version: false,
    }
}

#[test]
fn mirror_request_echoes_valid_token() {
    let am = AllowMethods::mirror_request();
    let parts = parts_with_request_method("DELETE");
    let (_, value) = am.to_header(&parts).expect("ACAM present");
    assert_eq!(value.as_bytes(), b"DELETE");
}

#[test]
fn mirror_request_drops_non_token_value() {
    let am = AllowMethods::mirror_request();
    let parts = parts_with_request_method("bad method"); // contains space
    assert!(am.to_header(&parts).is_none());
}

#[test]
fn const_value_does_not_depend_on_parts() {
    let am = AllowMethods::list(vec![Method::get(), Method::post()]);
    let parts = RequestHead {
        method: Method::options(),
        origin: None,
        request_method: None,
        request_headers: None,
        websocket_version: false,
    };
    let (name, value) = am.to_header(&parts).expect("ACAM present");
    assert_eq!(value.as_bytes(), b"GET,POST");
    assert_eq!(name.as_bytes(), b"access-control-allow-methods");
}

#[test]
fn any_is_the_wildcard_and_mirror_varies() {
    assert!(AllowMethods::any().is_wildcard());
    assert!(!AllowMethods::list(vec![Method::get()]).is_wildcard());
    assert!(AllowMethods::mirror_request().varies_with_request_method());
    assert!(AllowMethods::default().varies_with_request_method());
    assert!(!AllowMethods::any().varies_with_request_method());
}

#[test]
fn empty_method_list_sends_nothing() {
    let am = AllowMethods::list(Vec::new());
    assert!(am.to_header(&parts_with_request_method("GET")).is_none());
}

#[test]
fn mirror_without_request_method_sends_nothing() {
    let am = AllowMethods::mirror_request();
    let parts = RequestHead {
        method: Method::options(),
        origin: None,
        request_method: None,
        request_headers: None,
        websocket_version: false,
    };
    assert!(am.to_header(&parts).is_none());
}
