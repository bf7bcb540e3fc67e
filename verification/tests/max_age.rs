use hyper_cors::max_age::seconds_to_header_value;
use hyper_cors::{HeaderValue, MaxAge, Method, RequestHead};

fn hv(s: &str) -> HeaderValue {
    HeaderValue::from_bytes(s.as_bytes()).unwrap()
}

fn empty_parts() -> RequestHead {
    RequestHead {
        method: Method::get(),
        origin: None,
        request_method: None,
        request_headers: None,
        websocket_version: false,
    }
}

#[test]
fn formats_known_values() {
    assert_eq!(seconds_to_header_value(0).unwrap().as_bytes(), b"0");
    assert_eq!(seconds_to_header_value(60).unwrap().as_bytes(), b"60");
    assert_eq!(seconds_to_header_value(600).unwrap().as_bytes(), b"600");
    assert_eq!(
        seconds_to_header_value(u64::MAX).unwrap().as_bytes(),
        u64::MAX.to_string().as_bytes()
    );
}

#[test]
fn none_emits_no_header() {
    let ma = MaxAge::none();
    let parts = RequestHead {
        method: Method::options(),
        origin: Some(hv("https://x.example")),
        request_method: Some(hv("POST")),
        request_headers: None,
        websocket_version: false,
    };
    let origin = parts.origin.clone();
    assert!(ma.to_header(origin.as_ref(), &parts).is_none());
}

#[test]
fn default_equals_none() {
    assert!(MaxAge::default().to_header(None, &empty_parts()).is_none());
    assert!(MaxAge::none().to_header(None, &empty_parts()).is_none());
}

#[test]
fn exact_emits_decimal_seconds() {
    let (name, value) = MaxAge::exact(3600).to_header(None, &empty_parts()).unwrap();
    assert_eq!(name.as_bytes(), b"access-control-max-age");
    assert_eq!(value.as_bytes(), b"3600");
}

#[test]
fn formats_powers_of_ten_and_nines() {
    assert_eq!(seconds_to_header_value(9).unwrap().as_bytes(), b"9");
    assert_eq!(seconds_to_header_value(10).unwrap().as_bytes(), b"10");
    assert_eq!(seconds_to_header_value(99).unwrap().as_bytes(), b"99");
    assert_eq!(seconds_to_header_value(100).unwrap().as_bytes(), b"100");
}
