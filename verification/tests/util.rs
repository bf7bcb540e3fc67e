use hyper_cors::util::separated_by_commas;
use hyper_cors::{is_valid_token, HeaderValue};

fn hv(s: &str) -> HeaderValue {
    HeaderValue::from_bytes(s.as_bytes()).unwrap()
}

#[test]
fn joins_with_commas() {
    let v = separated_by_commas(vec![hv("a"), hv("b")]).unwrap();
    assert_eq!(v.as_bytes(), b"a,b");
}

#[test]
fn empty_iterator_yields_none() {
    assert!(separated_by_commas(Vec::new()).is_none());
}

#[test]
fn valid_token_recognised() {
    assert!(is_valid_token(b"content-type"));
    assert!(is_valid_token(b"X-Foo"));
    assert!(!is_valid_token(b""));
    assert!(!is_valid_token(b"with space"));
    assert!(!is_valid_token(b"with,comma"));
}

#[test]
fn single_value_is_kept_as_is() {
    let v = separated_by_commas(vec![hv("GET")]).unwrap();
    assert_eq!(v.as_bytes(), b"GET");
}

#[test]
fn three_values_keep_their_order() {
    let v = separated_by_commas(vec![hv("x"), hv("y z"), hv("w")]).unwrap();
    assert_eq!(v.as_bytes(), b"x,y z,w");
}

#[test]
fn token_accepts_every_delimiter_free_symbol() {
    assert!(is_valid_token(b"!#$%&'*+-.^_`|~09azAZ"));
    assert!(!is_valid_token(b"a(b"));
    assert!(!is_valid_token(b"a\tb"));
    assert!(!is_valid_token(b"caf\xc3\xa9"));
}
