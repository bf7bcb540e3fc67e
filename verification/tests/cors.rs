use hyper_cors::cors::is_preflight_request;
use hyper_cors::{builder, AllowOrigin, Cors, CorsBuilder, HeaderValue, Method, RequestHead};

#[derive(Clone, Debug, PartialEq)]
struct Marker;

fn svc() -> Cors<Marker, (), ()> {
    builder::<(), ()>().allow_origin(AllowOrigin::any()).build(Marker)
}

#[test]
fn inner_accessor_returns_shared_reference() {
    let svc = svc();
    // `inner` returns a shared reference; calling it must not consume the middleware.
    let _r: &Marker = svc.inner();
}

#[test]
fn config_accessor_returns_builder_reference() {
    let svc = svc();
    let _cfg: &CorsBuilder<(), ()> = svc.config();
}

#[test]
fn inner_mut_returns_exclusive_mutable_reference() {
    let mut svc = svc();
    let r: &mut Marker = svc.inner_mut();
    let prev = std::mem::replace(r, Marker);
    let _ = prev;
}

#[test]
fn cors_layout_is_arc_backed() {
    let size = std::mem::size_of::<Cors<(), (), ()>>();
    assert_eq!(
        size,
        std::mem::size_of::<usize>(),
        "Cors<()> should be one pointer (Arc-backed config); got {size} bytes."
    );
}

#[test]
fn clone_shares_the_config_arc() {
    let svc = svc();
    let clone = svc.clone();
    assert!(
        std::ptr::eq(svc.config(), clone.config()),
        "Cors::clone must share the underlying Arc<CorsBuilder>; got distinct allocations"
    );
}

#[test]
fn preflight_needs_options_and_request_method() {
    let acrm = || Some(HeaderValue::from_bytes(b"POST").unwrap());
    let head = |method: Method, request_method: Option<HeaderValue>| RequestHead {
        method,
        origin: None,
        request_method,
        request_headers: None,
        websocket_version: false,
    };
    assert!(is_preflight_request(&head(Method::options(), acrm())));
    assert!(!is_preflight_request(&head(Method::options(), None)));
    assert!(!is_preflight_request(&head(Method::post(), acrm())));
    assert!(!is_preflight_request(&head(Method::from_bytes(b"options").unwrap(), acrm())));
}
