//! The canonical CORS scenarios, run through `Cors::call`, `CorsFuture::poll` and
//! `merge_headers` by a small synchronous driver standing in for the hyper service.

use std::cell::Cell;
use std::collections::HashMap;
use std::rc::Rc;
use std::sync::atomic::{AtomicUsize, Ordering};

use hyper_cors::cors::merge_headers;
use hyper_cors::{
    AllowCredentials, AllowHeaders, AllowMethods, AllowOrigin, Cors, CorsBuilder, ExposeHeaders,
    HeaderBuf, HeaderName, HeaderValue, Method, Outcome, RequestHead, Vary,
};

type Pred = fn(&[u8]) -> bool;
type Svc = Cors<EchoService, Pred, Pred>;
type Origin = AllowOrigin<Pred, Pred>;

#[derive(Clone)]
struct EchoService {
    vary: Vec<&'static str>,
    calls: Rc<Cell<usize>>,
}

impl EchoService {
    fn ok() -> Self {
        EchoService { vary: Vec::new(), calls: Rc::new(Cell::new(0)) }
    }
    fn with_vary(vary: &'static str) -> Self {
        EchoService { vary: vec![vary], calls: Rc::new(Cell::new(0)) }
    }
    fn call_count(&self) -> usize {
        self.calls.get()
    }
}

struct Resp {
    status: u16,
    headers: Vec<(String, String)>,
    body: &'static str,
}

fn builder() -> CorsBuilder<Pred, Pred> {
    hyper_cors::builder()
}

fn hv(s: &str) -> HeaderValue {
    HeaderValue::from_bytes(s.as_bytes()).unwrap()
}

fn name(s: &str) -> HeaderName {
    HeaderName::from_bytes(s.as_bytes()).unwrap()
}

fn list(origins: &[&str]) -> Origin {
    Origin::list(origins.iter().map(|o| hv(o)).collect())
}

fn apply(headers: &mut Vec<(String, String)>, buf: &HeaderBuf) {
    let vary: Vec<HeaderValue> = headers
        .iter()
        .filter(|(n, _)| n == "vary")
        .map(|(_, v)| hv(v))
        .collect();
    for op in merge_headers(&vary, buf) {
        let n = String::from_utf8(op.name.as_bytes().to_vec()).unwrap();
        let v = String::from_utf8(op.value.as_bytes().to_vec()).unwrap();
        if !op.append {
            headers.retain(|(m, _)| *m != n);
        }
        headers.push((n, v));
    }
}

fn run(svc: &Svc, head: RequestHead) -> Resp {
    let fut = svc.call(&head);
    let config = svc.config();
    let origin_verdict = match fut.pending_origin() {
        Some(o) => {
            let policy = config.origin_setting();
            match (policy.as_predicate(), policy.as_async_predicate()) {
                (Some(p), _) => p(o.as_bytes()),
                (_, Some(p)) => p(o.as_bytes()),
                _ => unreachable!(),
            }
        }
        None => false,
    };
    let credentials_verdict = if fut.needs_credentials_verdict(config, &head, origin_verdict) {
        let p = config.credentials_setting().as_predicate().unwrap();
        p(head.origin.as_ref().unwrap().as_bytes())
    } else {
        false
    };
    match fut.poll(config, &head, origin_verdict, credentials_verdict) {
        Outcome::Respond { status, headers } => {
            let mut h = Vec::new();
            apply(&mut h, &headers);
            Resp { status, headers: h, body: "" }
        }
        Outcome::Forward { headers } => {
            let inner = svc.inner();
            inner.calls.set(inner.calls.get() + 1);
            let mut h: Vec<(String, String)> =
                inner.vary.iter().map(|v| ("vary".to_string(), v.to_string())).collect();
            apply(&mut h, &headers);
            Resp { status: 200, headers: h, body: "ok" }
        }
    }
}

fn ac_headers(resp: &Resp) -> Vec<(String, String)> {
    resp.headers
        .iter()
        .filter(|(n, _)| n.starts_with("access-control-"))
        .cloned()
        .collect()
}

fn acs(resp: &Resp) -> HashMap<String, String> {
    ac_headers(resp).into_iter().collect()
}

fn vary(resp: &Resp) -> Option<String> {
    let values: Vec<&str> = resp
        .headers
        .iter()
        .filter(|(n, _)| n == "vary")
        .map(|(_, v)| v.as_str())
        .collect();
    if values.is_empty() {
        None
    } else {
        Some(values.join(", "))
    }
}

fn get(origin: Option<&str>) -> RequestHead {
    RequestHead {
        method: Method::get(),
        origin: origin.map(hv),
        request_method: None,
        request_headers: None,
        websocket_version: false,
    }
}

fn preflight(origin: &str, method: &str, request_headers: Option<&str>) -> RequestHead {
    RequestHead {
        method: Method::options(),
        origin: Some(hv(origin)),
        request_method: Some(hv(method)),
        request_headers: request_headers.map(hv),
        websocket_version: false,
    }
}

fn websocket_upgrade(origin: Option<&str>) -> RequestHead {
    RequestHead {
        method: Method::get(),
        origin: origin.map(hv),
        request_method: None,
        request_headers: None,
        websocket_version: true,
    }
}

// Same-origin / no-origin

#[test]
fn no_origin_header_passes_through_with_vary() {
    let svc = builder().allow_origin(Origin::any()).build(EchoService::ok());
    let resp = run(&svc, get(None));
    assert_eq!(resp.status, 200);
    let v = vary(&resp).expect("vary present");
    assert!(v.to_ascii_lowercase().contains("origin"));
    assert_eq!(resp.body, "ok");
}

#[test]
fn no_origin_still_emits_vary_when_origin_dependent() {
    let svc = builder().allow_origin(list(&["https://app.example.com"])).build(EchoService::ok());
    let resp = run(&svc, get(None));
    let v = vary(&resp).expect("vary present");
    assert!(v.to_ascii_lowercase().contains("origin"));
}

#[test]
fn vary_always_includes_origin_even_with_any() {
    let svc = builder().allow_origin(Origin::any()).build(EchoService::ok());
    let resp = run(&svc, get(Some("https://x.example")));
    let v = vary(&resp).expect("vary present");
    assert!(v.to_ascii_lowercase().contains("origin"));
}

#[test]
fn vary_omitted_when_pinned_to_empty_list() {
    let svc = builder()
        .allow_origin(Origin::any())
        .vary(Vary::list(Vec::new()))
        .build(EchoService::ok());
    let resp = run(&svc, get(Some("https://x.example")));
    assert!(vary(&resp).is_none(), "pinned empty Vary should be omitted");
}

// Simple cross-origin requests

#[test]
fn matching_origin_returns_acao_and_vary() {
    let svc = builder().allow_origin(list(&["https://app.example.com"])).build(EchoService::ok());
    let resp = run(&svc, get(Some("https://app.example.com")));
    assert_eq!(
        ac_headers(&resp),
        vec![(
            "access-control-allow-origin".to_string(),
            "https://app.example.com".to_string()
        )]
    );
    assert!(vary(&resp).unwrap().to_ascii_lowercase().contains("origin"));
}

#[test]
fn non_matching_origin_omits_acao_but_reaches_inner_service() {
    let svc = builder().allow_origin(list(&["https://app.example.com"])).build(EchoService::ok());
    let resp = run(&svc, get(Some("https://evil.example")));
    assert_eq!(ac_headers(&resp), vec![]);
    assert_eq!(resp.body, "ok");
}

#[test]
fn wildcard_origin_sends_star_without_creds() {
    let svc = builder().allow_origin(Origin::any()).build(EchoService::ok());
    let resp = run(&svc, get(Some("https://anything.test")));
    assert_eq!(
        ac_headers(&resp),
        vec![("access-control-allow-origin".to_string(), "*".to_string())]
    );
}

#[test]
fn list_origin_echoes_request_origin() {
    let svc = builder()
        .allow_origin(list(&["https://a.example", "https://b.example"]))
        .build(EchoService::ok());
    let resp = run(&svc, get(Some("https://b.example")));
    assert_eq!(
        ac_headers(&resp),
        vec![("access-control-allow-origin".to_string(), "https://b.example".to_string())]
    );
}

#[test]
fn expose_headers_emitted_on_simple_request() {
    let svc = builder()
        .allow_origin(Origin::any())
        .expose_headers(ExposeHeaders::list(vec![name("content-encoding")]))
        .build(EchoService::ok());
    let resp = run(&svc, get(Some("https://x.example")));
    assert!(ac_headers(&resp)
        .iter()
        .any(|(n, v)| n == "access-control-expose-headers" && v.contains("content-encoding")));
}

#[test]
fn expose_headers_from_array_emits_list() {
    let svc = builder()
        .allow_origin(Origin::any())
        .expose_headers(ExposeHeaders::list(vec![name("x-trace-id"), name("x-rate-limit")]))
        .build(EchoService::ok());
    let resp = run(&svc, get(Some("https://x.example")));
    let acs = acs(&resp);
    let v = acs.get("access-control-expose-headers").expect("ACEH present");
    assert!(v.contains("x-trace-id"));
    assert!(v.contains("x-rate-limit"));
}

#[test]
fn expose_headers_from_vec_constructor() {
    let svc = builder()
        .allow_origin(Origin::any())
        .expose_headers(ExposeHeaders::list(vec![name("x-a")]))
        .build(EchoService::ok());
    let resp = run(&svc, get(Some("https://x.example")));
    assert_eq!(
        acs(&resp).get("access-control-expose-headers").map(String::as_str),
        Some("x-a")
    );
}

#[test]
fn allow_origin_mirror_request_echoes_request_origin() {
    let svc = builder().allow_origin(Origin::mirror_request()).build(EchoService::ok());
    let resp = run(&svc, get(Some("https://anything.example")));
    assert_eq!(
        acs(&resp).get("access-control-allow-origin").map(String::as_str),
        Some("https://anything.example")
    );
    let resp = run(&svc, get(Some("https://other.example")));
    assert_eq!(
        acs(&resp).get("access-control-allow-origin").map(String::as_str),
        Some("https://other.example")
    );
}

// Preflight

#[test]
fn preflight_with_matching_origin_short_circuits() {
    let svc = builder()
        .allow_origin(list(&["https://app.example.com"]))
        .allow_methods(AllowMethods::list(vec![Method::get(), Method::post()]))
        .max_age(60)
        .build(EchoService::ok());
    let resp = run(&svc, preflight("https://app.example.com", "POST", Some("content-type")));
    assert_eq!(resp.status, 200);
    let acs = acs(&resp);
    assert_eq!(
        acs.get("access-control-allow-origin").map(String::as_str),
        Some("https://app.example.com")
    );
    assert_eq!(acs.get("access-control-allow-methods").map(String::as_str), Some("GET,POST"));
    assert_eq!(acs.get("access-control-max-age").map(String::as_str), Some("60"));
    assert_eq!(
        acs.get("access-control-allow-headers").map(String::as_str),
        Some("content-type")
    );
    assert_eq!(resp.body, "", "preflight body should be empty");
}

#[test]
fn preflight_with_non_matching_origin_omits_acao_and_skips_inner() {
    let svc = builder().allow_origin(list(&["https://app.example.com"])).build(EchoService::ok());
    let resp = run(&svc, preflight("https://evil.example", "POST", None));
    assert_eq!(resp.status, 200);
    assert!(!acs(&resp).contains_key("access-control-allow-origin"));
    assert_eq!(resp.body, "");
}

#[test]
fn preflight_delivered_when_configured() {
    let svc = builder()
        .allow_origin(Origin::any())
        .deliver_preflight(true)
        .build(EchoService::ok());
    let resp = run(&svc, preflight("https://x.example", "POST", None));
    assert_eq!(resp.body, "ok");
}

#[test]
fn preflight_mirror_request_methods() {
    let svc = builder()
        .allow_origin(Origin::any())
        .allow_methods(AllowMethods::mirror_request())
        .build(EchoService::ok());
    let resp = run(&svc, preflight("https://x.example", "DELETE", None));
    assert_eq!(acs(&resp).get("access-control-allow-methods").map(String::as_str), Some("DELETE"));
}

#[test]
fn preflight_mirror_request_headers_sanitised() {
    let svc = builder()
        .allow_origin(Origin::any())
        .allow_headers(AllowHeaders::mirror_request())
        .build(EchoService::ok());
    let resp = run(&svc, preflight("https://x.example", "POST", Some("content-type, x-custom")));
    let acs = acs(&resp);
    let ach = acs.get("access-control-allow-headers").expect("ACAH present");
    assert!(ach.contains("content-type"));
    assert!(ach.contains("x-custom"));
}

#[test]
fn preflight_mirror_request_headers_drops_invalid_tokens() {
    let svc = builder()
        .allow_origin(Origin::any())
        .allow_headers(AllowHeaders::mirror_request())
        .build(EchoService::ok());
    let resp = run(
        &svc,
        preflight("https://x.example", "POST", Some("ok-header, with space, , ,bad-token")),
    );
    let acs = acs(&resp);
    let ach = acs.get("access-control-allow-headers").expect("ACAH present");
    let parts: Vec<&str> = ach.split(',').map(str::trim).collect();
    assert!(parts.contains(&"ok-header"));
    assert!(parts.contains(&"bad-token"));
    assert!(!parts.contains(&"with space"));
    assert!(!parts.contains(&""), "empty entries should be filtered, got parts: {parts:?}");
}

#[test]
fn deliver_preflight_true_emits_preflight_headers_on_response() {
    let svc = builder()
        .allow_origin(list(&["https://app.example.com"]))
        .allow_methods(AllowMethods::list(vec![Method::get(), Method::post()]))
        .max_age(120)
        .deliver_preflight(true)
        .build(EchoService::ok());
    let resp = run(&svc, preflight("https://app.example.com", "POST", Some("content-type")));
    assert_eq!(resp.status, 200);
    let acs = acs(&resp);
    assert_eq!(
        acs.get("access-control-allow-origin").map(String::as_str),
        Some("https://app.example.com"),
        "deliver_preflight=true must still set ACAO"
    );
    assert_eq!(
        acs.get("access-control-allow-methods").map(String::as_str),
        Some("GET,POST"),
        "deliver_preflight=true must still set ACAM"
    );
    assert_eq!(
        acs.get("access-control-allow-headers").map(String::as_str),
        Some("content-type"),
        "deliver_preflight=true must still set ACAH"
    );
    assert_eq!(
        acs.get("access-control-max-age").map(String::as_str),
        Some("120"),
        "deliver_preflight=true must still set ACMA on preflights"
    );
}

#[test]
fn deliver_preflight_true_with_mirror_request_methods() {
    let svc = builder()
        .allow_origin(Origin::any())
        .allow_methods(AllowMethods::mirror_request())
        .deliver_preflight(true)
        .build(EchoService::ok());
    let resp = run(&svc, preflight("https://x.example", "DELETE", None));
    assert_eq!(acs(&resp).get("access-control-allow-methods").map(String::as_str), Some("DELETE"));
}

#[test]
fn allow_headers_list_const_emits_comma_joined() {
    let svc = builder()
        .allow_origin(Origin::any())
        .allow_headers(AllowHeaders::list(vec![name("x-custom"), name("content-type")]))
        .build(EchoService::ok());
    let resp = run(&svc, preflight("https://x.example", "POST", None));
    let acs = acs(&resp);
    let ach = acs.get("access-control-allow-headers").expect("ACAH present");
    let parts: Vec<&str> = ach.split(',').map(str::trim).collect();
    assert_eq!(parts, vec!["x-custom", "content-type"]);
}

#[test]
fn allow_headers_from_vec_delegates_to_list() {
    let svc = builder()
        .allow_origin(Origin::any())
        .allow_headers(AllowHeaders::list(Vec::new()))
        .build(EchoService::ok());
    let resp = run(&svc, preflight("https://x.example", "POST", None));
    assert!(
        !acs(&resp).contains_key("access-control-allow-headers"),
        "empty allow_headers must not emit ACAH"
    );
}

#[test]
fn non_options_with_request_method_is_not_a_preflight() {
    let inner = EchoService::ok();
    let svc = builder().allow_origin(Origin::any()).build(inner.clone());
    let req = RequestHead {
        method: Method::post(),
        origin: Some(hv("https://x.example")),
        request_method: Some(hv("POST")),
        request_headers: None,
        websocket_version: false,
    };
    let _ = run(&svc, req);
    assert_eq!(inner.call_count(), 1, "POST + ACRM must reach inner service");
}

// Credentials in actual responses

#[test]
fn credentials_true_with_matching_origin_sends_acac() {
    let svc = builder()
        .allow_credentials(AllowCredentials::from_bool(true))
        .allow_origin(list(&["https://app.example.com"]))
        .build(EchoService::ok());
    let resp = run(&svc, get(Some("https://app.example.com")));
    assert_eq!(
        acs(&resp).get("access-control-allow-credentials").map(String::as_str),
        Some("true")
    );
}

static CREDENTIAL_CALLS: AtomicUsize = AtomicUsize::new(0);

fn counting_credentials(origin: &[u8]) -> bool {
    CREDENTIAL_CALLS.fetch_add(1, Ordering::SeqCst);
    origin == b"https://app.example.com"
}

#[test]
fn credentials_predicate_emits_only_when_allowed() {
    let svc = builder()
        .allow_origin(list(&["https://app.example.com"]))
        .allow_credentials(AllowCredentials::predicate(counting_credentials as Pred))
        .build(EchoService::ok());
    let resp = run(&svc, get(Some("https://app.example.com")));
    assert_eq!(
        acs(&resp).get("access-control-allow-credentials").map(String::as_str),
        Some("true")
    );
    assert_eq!(
        CREDENTIAL_CALLS.load(Ordering::SeqCst),
        1,
        "predicate must be invoked exactly once per allowed-origin request"
    );
}

#[test]
fn credentials_predicate_denies_when_predicate_returns_false() {
    let svc = builder()
        .allow_origin(list(&["https://app.example.com"]))
        .allow_credentials(AllowCredentials::predicate((|_| false) as Pred))
        .build(EchoService::ok());
    let resp = run(&svc, get(Some("https://app.example.com")));
    let acs = acs(&resp);
    assert!(
        !acs.contains_key("access-control-allow-credentials"),
        "predicate returning false must suppress ACAC, got {acs:?}"
    );
}

#[test]
fn credentials_predicate_not_emitted_without_origin() {
    let svc = builder()
        .allow_origin(list(&["https://app.example.com"]))
        .allow_credentials(AllowCredentials::predicate((|_| true) as Pred))
        .build(EchoService::ok());
    let resp = run(&svc, get(None));
    assert!(!acs(&resp).contains_key("access-control-allow-credentials"));
}

#[test]
fn credentials_yes_not_emitted_without_origin() {
    // A fixed origin is answered even to a request without `Origin`, but credentials
    // belong to cross-origin requests only.
    let svc = builder()
        .allow_origin(Origin::exact(hv("https://app.example.com")))
        .allow_credentials(AllowCredentials::yes())
        .build(EchoService::ok());
    let resp = run(&svc, get(None));
    let found = acs(&resp);
    assert_eq!(
        found.get("access-control-allow-origin").map(String::as_str),
        Some("https://app.example.com")
    );
    assert!(!found.contains_key("access-control-allow-credentials"));
    let resp = run(&svc, get(Some("https://app.example.com")));
    assert_eq!(
        acs(&resp).get("access-control-allow-credentials").map(String::as_str),
        Some("true")
    );
}

#[test]
fn preflight_without_origin_gets_only_vary() {
    // No origin is allowed for a request without `Origin` under a list, so the
    // preflight answer carries no knob header.
    let svc = builder()
        .allow_origin(list(&["https://app.example.com"]))
        .allow_methods(AllowMethods::mirror_request())
        .allow_credentials(AllowCredentials::yes())
        .build(EchoService::ok());
    let head = RequestHead {
        method: Method::options(),
        origin: None,
        request_method: Some(hv("PUT")),
        request_headers: Some(hv("x-custom")),
        websocket_version: false,
    };
    let resp = run(&svc, head);
    assert_eq!(resp.status, 200);
    assert!(ac_headers(&resp).is_empty(), "got {:?}", ac_headers(&resp));
    assert!(vary(&resp).is_some());
    assert_eq!(svc.inner().call_count(), 0);
}

// max_age

#[test]
fn max_age_only_emitted_on_preflight() {
    let svc = builder().allow_origin(Origin::any()).max_age(42).build(EchoService::ok());
    let actual = run(&svc, get(Some("https://x.example")));
    assert!(!ac_headers(&actual).iter().any(|(n, _)| n == "access-control-max-age"));
    let pre = run(&svc, preflight("https://x.example", "POST", None));
    assert_eq!(acs(&pre).get("access-control-max-age").map(String::as_str), Some("42"));
}

#[test]
fn no_max_age_does_not_emit_header() {
    let svc = builder().allow_origin(Origin::any()).build(EchoService::ok());
    let pre = run(&svc, preflight("https://x.example", "POST", None));
    assert!(!acs(&pre).contains_key("access-control-max-age"));
}

#[test]
fn max_age_round_trips_through_builder() {
    let svc = builder().allow_origin(Origin::any()).max_age(3600).build(EchoService::ok());
    let resp = run(&svc, preflight("https://x.example", "POST", None));
    assert_eq!(acs(&resp).get("access-control-max-age").map(String::as_str), Some("3600"));
}

// deliver_non_allowed_origin

#[test]
fn deliver_non_allowed_origin_false_simple_rejects_with_400() {
    let inner = EchoService::ok();
    let svc = builder()
        .allow_origin(list(&["https://app.example.com"]))
        .deliver_non_allowed_origin(false)
        .build(inner.clone());
    let resp = run(&svc, get(Some("https://evil.example")));
    assert_eq!(resp.status, 400);
    let acs = acs(&resp);
    assert!(!acs.contains_key("access-control-allow-origin"));
    assert!(!acs.contains_key("access-control-allow-credentials"));
    assert_eq!(resp.body, "");
    assert_eq!(inner.call_count(), 0, "inner service must not be invoked for a rejected origin");
}

fn allowed_example(origin: &[u8]) -> bool {
    origin == b"https://allowed.example"
}

fn starts_with_allowed(origin: &[u8]) -> bool {
    origin.starts_with(b"https://allowed.")
}

#[test]
fn deliver_non_allowed_origin_false_async_predicate_does_not_invoke_inner() {
    let inner = EchoService::ok();
    let svc = builder()
        .allow_origin(Origin::async_predicate(allowed_example as Pred))
        .deliver_non_allowed_origin(false)
        .build(inner.clone());
    let resp = run(&svc, get(Some("https://evil.example")));
    assert_eq!(resp.status, 400);
    assert_eq!(inner.call_count(), 0, "inner service must not be invoked for a rejected origin");
}

#[test]
fn preflight_short_circuit_does_not_invoke_inner() {
    let inner = EchoService::ok();
    let svc = builder().allow_origin(Origin::any()).build(inner.clone());
    let resp = run(&svc, preflight("https://x.example", "POST", None));
    assert_eq!(resp.status, 200);
    assert_eq!(
        inner.call_count(),
        0,
        "short-circuited preflight must not reach the inner service"
    );
}

#[test]
fn deliver_non_allowed_origin_false_simple_allows_matching_origin() {
    let svc = builder()
        .allow_origin(list(&["https://app.example.com"]))
        .deliver_non_allowed_origin(false)
        .build(EchoService::ok());
    let resp = run(&svc, get(Some("https://app.example.com")));
    assert_eq!(resp.status, 200);
    assert_eq!(
        acs(&resp).get("access-control-allow-origin").map(String::as_str),
        Some("https://app.example.com")
    );
    assert_eq!(resp.body, "ok");
}

#[test]
fn deliver_non_allowed_origin_false_no_origin_passes_through() {
    let svc = builder()
        .allow_origin(list(&["https://app.example.com"]))
        .deliver_non_allowed_origin(false)
        .build(EchoService::ok());
    let resp = run(&svc, get(None));
    assert_eq!(resp.status, 200);
    assert_eq!(resp.body, "ok");
}

#[test]
fn deliver_non_allowed_origin_false_preflight_short_circuit_returns_400() {
    let svc = builder()
        .allow_origin(list(&["https://app.example.com"]))
        .deliver_non_allowed_origin(false)
        .build(EchoService::ok());
    let resp = run(&svc, preflight("https://evil.example", "POST", None));
    assert_eq!(resp.status, 400);
    let acs = acs(&resp);
    assert!(!acs.contains_key("access-control-allow-origin"));
    assert!(!acs.contains_key("access-control-allow-methods"));
}

#[test]
fn deliver_non_allowed_origin_true_preflight_short_circuit_returns_200_no_cors() {
    let svc = builder()
        .allow_origin(list(&["https://app.example.com"]))
        .deliver_non_allowed_origin(true)
        .build(EchoService::ok());
    let resp = run(&svc, preflight("https://evil.example", "POST", None));
    assert_eq!(resp.status, 200);
    assert!(!acs(&resp).contains_key("access-control-allow-origin"));
    assert_eq!(resp.body, "");
}

#[test]
fn deliver_non_allowed_origin_false_preflight_deliver_rejects_with_400() {
    let svc = builder()
        .allow_origin(list(&["https://app.example.com"]))
        .deliver_preflight(true)
        .deliver_non_allowed_origin(false)
        .build(EchoService::ok());
    let resp = run(&svc, preflight("https://evil.example", "POST", None));
    assert_eq!(resp.status, 400);
    assert!(!acs(&resp).contains_key("access-control-allow-origin"));
    assert_eq!(resp.body, "");
}

#[test]
fn deliver_non_allowed_origin_false_credentials_not_emitted_on_rejection() {
    let svc = builder()
        .allow_credentials(AllowCredentials::from_bool(true))
        .allow_origin(list(&["https://app.example.com"]))
        .deliver_non_allowed_origin(false)
        .build(EchoService::ok());
    let resp = run(&svc, get(Some("https://evil.example")));
    assert_eq!(resp.status, 400);
    assert!(!acs(&resp).contains_key("access-control-allow-credentials"));
}

// WebSocket upgrades

#[test]
fn websocket_upgrade_with_disallowed_origin_is_rejected_by_default() {
    let inner = EchoService::ok();
    let svc = builder().allow_origin(list(&["https://app.example.com"])).build(inner.clone());
    let resp = run(&svc, websocket_upgrade(Some("https://evil.example")));
    assert_eq!(resp.status, 400);
    assert_eq!(
        inner.call_count(),
        0,
        "disallowed WebSocket upgrade must not reach the inner service"
    );
    assert!(!acs(&resp).contains_key("access-control-allow-origin"));
}

#[test]
fn websocket_upgrade_with_allowed_origin_passes_through() {
    let inner = EchoService::ok();
    let svc = builder().allow_origin(list(&["https://app.example.com"])).build(inner.clone());
    let resp = run(&svc, websocket_upgrade(Some("https://app.example.com")));
    assert_eq!(resp.status, 200);
    assert_eq!(inner.call_count(), 1);
}

#[test]
fn websocket_upgrade_can_be_opted_into_delivery() {
    let inner = EchoService::ok();
    let svc = builder()
        .allow_origin(list(&["https://app.example.com"]))
        .deliver_non_allowed_origin_websocket_upgrade(true)
        .build(inner.clone());
    let resp = run(&svc, websocket_upgrade(Some("https://evil.example")));
    assert_eq!(resp.status, 200);
    assert_eq!(inner.call_count(), 1);
    assert!(!acs(&resp).contains_key("access-control-allow-origin"));
}

#[test]
fn websocket_upgrade_without_origin_passes_through() {
    let inner = EchoService::ok();
    let svc = builder().allow_origin(list(&["https://app.example.com"])).build(inner.clone());
    let resp = run(&svc, websocket_upgrade(None));
    assert_eq!(resp.status, 200, "originless upgrade must not be rejected");
    assert_eq!(inner.call_count(), 1);
}

#[test]
fn websocket_upgrade_with_allowed_origin_still_emits_cors() {
    let svc = builder()
        .allow_origin(list(&["https://app.example.com"]))
        .allow_credentials(AllowCredentials::from_bool(true))
        .build(EchoService::ok());
    let resp = run(&svc, websocket_upgrade(Some("https://app.example.com")));
    let acs = acs(&resp);
    assert_eq!(
        acs.get("access-control-allow-origin").map(String::as_str),
        Some("https://app.example.com")
    );
    assert_eq!(acs.get("access-control-allow-credentials").map(String::as_str), Some("true"));
}

#[test]
fn options_preflight_with_websocket_version_header_short_circuits() {
    let svc = builder().allow_origin(list(&["https://app.example.com"])).build(EchoService::ok());
    let mut req = preflight("https://app.example.com", "POST", None);
    req.websocket_version = true;
    let resp = run(&svc, req);
    assert_eq!(resp.status, 200);
    assert_eq!(
        acs(&resp).get("access-control-allow-origin").map(String::as_str),
        Some("https://app.example.com")
    );
    assert_eq!(resp.body, "");
}

#[test]
fn non_websocket_request_unaffected_by_websocket_setting() {
    let inner = EchoService::ok();
    let svc = builder().allow_origin(list(&["https://app.example.com"])).build(inner.clone());
    let resp = run(&svc, get(Some("https://evil.example")));
    assert_eq!(resp.status, 200);
    assert_eq!(inner.call_count(), 1);
}

#[test]
fn rejection_status_is_configurable() {
    let svc = builder()
        .allow_origin(list(&["https://app.example.com"]))
        .deliver_non_allowed_origin(false)
        .rejection_status(403)
        .build(EchoService::ok());
    let resp = run(&svc, get(Some("https://evil.example")));
    assert_eq!(resp.status, 403);
    let pre = run(&svc, preflight("https://evil.example", "POST", None));
    assert_eq!(pre.status, 403);
}

#[test]
fn origin_list_rejects_partially_allowed_space_separated_list() {
    let svc = builder().allow_origin(list(&["https://app.example.com"])).build(EchoService::ok());
    let resp = run(&svc, get(Some("https://app.example.com https://evil.example")));
    let acs = acs(&resp);
    assert!(
        !acs.contains_key("access-control-allow-origin"),
        "smuggled origin must not be allowed, got {acs:?}"
    );
}

#[test]
fn deliver_non_allowed_origin_false_async_predicate_rejects() {
    let svc = builder()
        .allow_origin(Origin::async_predicate(allowed_example as Pred))
        .deliver_non_allowed_origin(false)
        .build(EchoService::ok());
    let resp = run(&svc, get(Some("https://evil.example")));
    assert_eq!(resp.status, 400);
}

// Vary

#[test]
fn vary_appended_not_overwritten() {
    let svc = builder()
        .allow_origin(list(&["https://app.example.com"]))
        .build(EchoService::with_vary("Accept-Encoding"));
    let resp = run(&svc, get(Some("https://app.example.com")));
    let v = vary(&resp).unwrap_or_default().to_ascii_lowercase();
    assert!(v.contains("accept-encoding"), "vary should include accept-encoding, got {v:?}");
    assert!(v.contains("origin"), "vary should include origin, got {v:?}");
}

#[test]
fn vary_origin_not_duplicated() {
    let svc = builder()
        .allow_origin(list(&["https://app.example.com"]))
        .allow_headers(AllowHeaders::mirror_request())
        .build(EchoService::with_vary("origin"));
    let resp = run(&svc, get(Some("https://app.example.com")));
    let joined = vary(&resp).unwrap_or_default().to_ascii_lowercase();
    let occurrences = joined.split(',').filter(|t| t.trim() == "origin").count();
    assert_eq!(occurrences, 1, "`Origin` should appear exactly once, got {joined:?}");
    assert!(
        joined.contains("access-control-request-headers"),
        "other vary values should survive dedup, got {joined:?}"
    );
}

#[test]
fn vary_appends_only_when_inner_does_not_cover_token() {
    let svc = builder()
        .allow_origin(list(&["https://app.example.com"]))
        .allow_methods(AllowMethods::mirror_request())
        .build(EchoService::with_vary("ACCEPT-ENCODING, ORIGIN"));
    let resp = run(&svc, get(Some("https://app.example.com")));
    let v = vary(&resp).expect("vary present").to_ascii_lowercase();
    let tokens: Vec<&str> = v.split(',').map(str::trim).collect();
    let count_token = |needle: &str| tokens.iter().filter(|t| **t == needle).count();
    assert_eq!(count_token("origin"), 1, "Origin must appear once, got {v:?}");
    assert_eq!(count_token("accept-encoding"), 1, "Accept-Encoding must appear once, got {v:?}");
    assert_eq!(
        count_token("access-control-request-method"),
        1,
        "Access-Control-Request-Method must appear once, got {v:?}"
    );
}

#[test]
fn vary_omitted_when_all_tokens_already_listed_by_inner() {
    let svc = builder()
        .allow_origin(list(&["https://app.example.com"]))
        .allow_methods(AllowMethods::mirror_request())
        .allow_headers(AllowHeaders::mirror_request())
        .build(EchoService::with_vary(
            "Origin, Access-Control-Request-Method, Access-Control-Request-Headers",
        ));
    let resp = run(&svc, get(Some("https://app.example.com")));
    let v = vary(&resp).expect("vary present").to_ascii_lowercase();
    let tokens: Vec<&str> = v.split(',').map(str::trim).collect();
    let count_token = |needle: &str| tokens.iter().filter(|t| **t == needle).count();
    assert_eq!(count_token("origin"), 1, "Origin should appear exactly once, got {v:?}");
    assert_eq!(
        count_token("access-control-request-method"),
        1,
        "Access-Control-Request-Method should appear exactly once, got {v:?}"
    );
    assert_eq!(
        count_token("access-control-request-headers"),
        1,
        "Access-Control-Request-Headers should appear exactly once, got {v:?}"
    );
    assert!(tokens.iter().all(|t| !t.is_empty()), "no empty tokens should appear, got {v:?}");
}

#[test]
fn vary_from_array_round_trips_through_response() {
    let svc = builder()
        .allow_origin(Origin::any())
        .vary(Vary::list(vec![name("origin"), name("accept-encoding")]))
        .build(EchoService::ok());
    let resp = run(&svc, get(Some("https://x.example")));
    let v = vary(&resp).expect("vary present").to_ascii_lowercase();
    assert!(v.contains("origin"));
    assert!(v.contains("accept-encoding"));
}

#[test]
fn vary_pinned_to_empty_array_emits_no_vary_header() {
    let svc = builder()
        .allow_origin(Origin::any())
        .vary(Vary::list(Vec::new()))
        .build(EchoService::ok());
    let resp = run(&svc, get(Some("https://x.example")));
    assert!(vary(&resp).is_none(), "pinned empty Vary must not emit a header");
}

// Predicates

#[test]
fn async_predicate_allows_matching_origin() {
    let svc = builder()
        .allow_origin(Origin::async_predicate(starts_with_allowed as Pred))
        .build(EchoService::ok());
    let ok = run(&svc, get(Some("https://allowed.x")));
    assert!(ac_headers(&ok)
        .iter()
        .any(|(n, v)| n == "access-control-allow-origin" && v == "https://allowed.x"));
    let denied = run(&svc, get(Some("https://evil.example")));
    assert!(!ac_headers(&denied).iter().any(|(n, _)| n == "access-control-allow-origin"));
}

static ORIGIN_CALLS: AtomicUsize = AtomicUsize::new(0);

fn counting_origin(origin: &[u8]) -> bool {
    ORIGIN_CALLS.fetch_add(1, Ordering::SeqCst);
    origin.starts_with(b"https://allowed.")
}

#[test]
fn async_predicate_preflight_waits_for_future() {
    let svc = builder()
        .allow_origin(Origin::async_predicate(counting_origin as Pred))
        .build(EchoService::ok());
    let _ = run(&svc, preflight("https://allowed.x", "POST", None));
    assert_eq!(ORIGIN_CALLS.load(Ordering::SeqCst), 1, "predicate must have been awaited");
}

#[test]
fn preflight_async_predicate_disallowed_with_reject_returns_400() {
    let svc = builder()
        .allow_origin(Origin::async_predicate(allowed_example as Pred))
        .deliver_non_allowed_origin(false)
        .build(EchoService::ok());
    let resp = run(&svc, preflight("https://evil.example", "POST", None));
    assert_eq!(resp.status, 400);
    assert!(!acs(&resp).contains_key("access-control-allow-origin"));
}

fn app_suffix(origin: &[u8]) -> bool {
    origin.ends_with(b".app.example.com")
}

#[test]
fn sync_predicate_with_suffix_pattern() {
    let svc = builder()
        .allow_origin(Origin::predicate(app_suffix as Pred))
        .build(EchoService::ok());
    let ok = run(&svc, get(Some("https://x.app.example.com")));
    assert_eq!(
        ac_headers(&ok),
        vec![(
            "access-control-allow-origin".to_string(),
            "https://x.app.example.com".to_string()
        )]
    );
    let denied = run(&svc, get(Some("https://x.evil.example")));
    assert_eq!(ac_headers(&denied), vec![]);
}

#[test]
fn service_call_works_through_shared_reference() {
    let svc = builder().allow_origin(Origin::any()).build(EchoService::ok());
    let svc_ref = &svc;
    let r1 = run(svc_ref, get(Some("https://x.example")));
    let r2 = run(svc_ref, get(Some("https://x.example")));
    assert_eq!(r1.status, 200);
    assert_eq!(r2.status, 200);
}
