//! The HTTP vocabulary the CORS rules read and write: header values, header
//! names, request methods, and the head of an incoming request.
//!
//! Each type holds its bytes and keeps the validity rule of the `http` crate as
//! its type invariant; the checking constructors ask the `http` crate itself.

use vstd::prelude::*;

use crate::text::{
    all_bytes, bytes_eq, copy_bytes, is_tchar, is_token, is_value_byte, is_value_bytes, lower,
};

verus! {

/// Every token byte may appear in a header value.
pub proof fn lemma_token_is_value(s: Seq<u8>)
    requires
        all_bytes(s, |b: u8| is_tchar(b)),
    ensures
        is_value_bytes(s),
{
    let p = |b: u8| is_tchar(b);
    let q = |b: u8| is_value_byte(b);
    assert forall|k: int| 0 <= k < s.len() implies #[trigger] q(s[k]) by {
        assert(p(s[k]));
    }
}

/// Lower-casing keeps token bytes token bytes, and is idempotent.
pub proof fn lemma_lower_token(s: Seq<u8>)
    requires
        all_bytes(s, |b: u8| is_tchar(b)),
    ensures
        all_bytes(lower(s), |b: u8| is_tchar(b)),
        lower(lower(s)) == lower(s),
{
    let p = |b: u8| is_tchar(b);
    assert forall|k: int| 0 <= k < lower(s).len() implies #[trigger] p(lower(s)[k]) by {
        assert(p(s[k]));
    }
    assert(lower(lower(s)) =~= lower(s));
}

/// Calls `http::HeaderValue::from_bytes` and reports whether it accepted `src`.
///
/// Claimed of the `http` crate (1.x, `header/value.rs`): `from_bytes` succeeds
/// exactly when every byte is `\t` or lies in 32..=255 and is not 127.
#[verifier::external_body]
fn http_accepts_header_value(src: &[u8]) -> (r: bool)
    ensures
        r == is_value_bytes(src@),
{
    http::HeaderValue::from_bytes(src).is_ok()
}

/// Calls `http::HeaderName::from_bytes` and returns the bytes of the name it built.
///
/// Claimed of the `http` crate (1.x, `header/name.rs`): `from_bytes` succeeds
/// exactly when `src` has 1 to 65535 bytes, all of them `tchar`s, and the name
/// it builds is `src` in ASCII lower case.
#[verifier::external_body]
fn http_header_name(src: &[u8]) -> (r: Option<Vec<u8>>)
    ensures
        r is Some <==> (0 < src@.len() <= 65535 && all_bytes(src@, |b: u8| is_tchar(b))),
        r matches Some(n) ==> n@ == lower(src@),
{
    match http::HeaderName::from_bytes(src) {
        Ok(name) => Some(name.as_str().as_bytes().to_vec()),
        Err(_) => None,
    }
}

/// Calls `http::Method::from_bytes` and returns the bytes of the method it built.
///
/// Claimed of the `http` crate (1.x, `method.rs`): `from_bytes` succeeds exactly
/// when `src` is a token, and the method's `as_str` is `src` unchanged.
#[verifier::external_body]
fn http_method(src: &[u8]) -> (r: Option<Vec<u8>>)
    ensures
        r is Some <==> is_token(src@),
        r matches Some(m) ==> m@ == src@,
{
    match http::Method::from_bytes(src) {
        Ok(method) => Some(method.as_str().as_bytes().to_vec()),
        Err(_) => None,
    }
}

/// A header value: bytes that the `http` crate accepts as one.
#[derive(Debug)]
pub struct HeaderValue {
    bytes: Vec<u8>,
}

impl View for HeaderValue {
    type V = Seq<u8>;

    closed spec fn view(&self) -> Seq<u8> {
        self.bytes@
    }
}

impl HeaderValue {
    #[verifier::type_invariant]
    spec fn inv(self) -> bool {
        is_value_bytes(self.bytes@)
    }

    /// The value holding `src`, or `None` when `src` holds a byte that no header
    /// value may hold (a control byte other than `\t`, or 127).
    pub fn from_bytes(src: &[u8]) -> (r: Option<HeaderValue>)
        ensures
            r is Some <==> is_value_bytes(src@),
            r matches Some(v) ==> v@ == src@,
    {
        if http_accepts_header_value(src) {
            Some(HeaderValue { bytes: copy_bytes(src) })
        } else {
            None
        }
    }

    /// The value holding `bytes`, which the caller has shown to be valid.
    pub(crate) fn from_valid(bytes: Vec<u8>) -> (r: HeaderValue)
        requires
            is_value_bytes(bytes@),
        ensures
            r@ == bytes@,
    {
        HeaderValue { bytes }
    }

    /// The bytes of the value; they are always valid header-value bytes.
    pub fn as_bytes(&self) -> (r: &[u8])
        ensures
            r@ == self@,
            is_value_bytes(r@),
    {
        proof {
            use_type_invariant(self);
        }
        self.bytes.as_slice()
    }

    /// The number of bytes.
    pub fn len(&self) -> (r: usize)
        ensures
            r == self@.len(),
    {
        self.bytes.len()
    }
}

impl Clone for HeaderValue {
    fn clone(&self) -> (r: Self)
        ensures
            r@ == self@,
    {
        proof {
            use_type_invariant(self);
        }
        HeaderValue { bytes: copy_bytes(self.bytes.as_slice()) }
    }
}

/// A header name: a token in ASCII lower case, as the `http` crate stores names.
#[derive(Debug)]
pub struct HeaderName {
    bytes: Vec<u8>,
}

impl View for HeaderName {
    type V = Seq<u8>;

    closed spec fn view(&self) -> Seq<u8> {
        self.bytes@
    }
}

impl HeaderName {
    #[verifier::type_invariant]
    spec fn inv(self) -> bool {
        is_token(self.bytes@) && lower(self.bytes@) == self.bytes@
    }

    /// The name spelled by `src` in ASCII lower case, or `None` when `src` is not a
    /// token of at most 65535 bytes.
    pub fn from_bytes(src: &[u8]) -> (r: Option<HeaderName>)
        ensures
            r is Some <==> (0 < src@.len() <= 65535 && all_bytes(src@, |b: u8| is_tchar(b))),
            r matches Some(n) ==> n@ == lower(src@),
    {
        match http_header_name(src) {
            Some(bytes) => {
                proof {
                    lemma_lower_token(src@);
                }
                Some(HeaderName { bytes })
            },
            None => None,
        }
    }

    /// The bytes of the name; always a lower-case token.
    pub fn as_bytes(&self) -> (r: &[u8])
        ensures
            r@ == self@,
            is_token(r@),
            lower(r@) == r@,
    {
        proof {
            use_type_invariant(self);
        }
        self.bytes.as_slice()
    }

    /// The name as a header value, byte for byte (`From<HeaderName> for HeaderValue`).
    pub fn to_value(&self) -> (r: HeaderValue)
        ensures
            r@ == self@,
    {
        proof {
            use_type_invariant(self);
            lemma_token_is_value(self.bytes@);
        }
        HeaderValue::from_valid(copy_bytes(self.bytes.as_slice()))
    }

    /// Whether two names are the same name.
    pub fn same_as(&self, other: &HeaderName) -> (r: bool)
        ensures
            r == (self@ == other@),
    {
        bytes_eq(self.bytes.as_slice(), other.bytes.as_slice())
    }

    /// The header name `origin`.
    pub fn origin() -> (r: HeaderName)
        ensures
            r@ == origin_name(),
    {
        let bytes: Vec<u8> = vec![111, 114, 105, 103, 105, 110];
        proof {
            assert(bytes@ =~= origin_name());
            assert(is_token(bytes@));
            assert(lower(bytes@) =~= bytes@);
        }
        HeaderName { bytes }
    }

    /// The header name `vary`.
    pub fn vary() -> (r: HeaderName)
        ensures
            r@ == vary_name(),
    {
        let bytes: Vec<u8> = vec![118, 97, 114, 121];
        proof {
            assert(bytes@ =~= vary_name());
            assert(is_token(bytes@));
            assert(lower(bytes@) =~= bytes@);
        }
        HeaderName { bytes }
    }

    /// The header name `access-control-allow-origin`.
    pub fn access_control_allow_origin() -> (r: HeaderName)
        ensures
            r@ == allow_origin_name(),
    {
        let bytes: Vec<u8> = vec![97, 99, 99, 101, 115, 115, 45, 99, 111, 110, 116, 114, 111, 108, 45, 97, 108, 108, 111, 119, 45, 111, 114, 105, 103, 105, 110];
        proof {
            assert(bytes@ =~= allow_origin_name());
            assert(is_token(bytes@));
            assert(lower(bytes@) =~= bytes@);
        }
        HeaderName { bytes }
    }

    /// The header name `access-control-allow-credentials`.
    pub fn access_control_allow_credentials() -> (r: HeaderName)
        ensures
            r@ == allow_credentials_name(),
    {
        let bytes: Vec<u8> = vec![97, 99, 99, 101, 115, 115, 45, 99, 111, 110, 116, 114, 111, 108, 45, 97, 108, 108, 111, 119, 45, 99, 114, 101, 100, 101, 110, 116, 105, 97, 108, 115];
        proof {
            assert(bytes@ =~= allow_credentials_name());
            assert(is_token(bytes@));
            assert(lower(bytes@) =~= bytes@);
        }
        HeaderName { bytes }
    }

    /// The header name `access-control-allow-methods`.
    pub fn access_control_allow_methods() -> (r: HeaderName)
        ensures
            r@ == allow_methods_name(),
    {
        let bytes: Vec<u8> = vec![97, 99, 99, 101, 115, 115, 45, 99, 111, 110, 116, 114, 111, 108, 45, 97, 108, 108, 111, 119, 45, 109, 101, 116, 104, 111, 100, 115];
        proof {
            assert(bytes@ =~= allow_methods_name());
            assert(is_token(bytes@));
            assert(lower(bytes@) =~= bytes@);
        }
        HeaderName { bytes }
    }

    /// The header name `access-control-allow-headers`.
    pub fn access_control_allow_headers() -> (r: HeaderName)
        ensures
            r@ == allow_headers_name(),
    {
        let bytes: Vec<u8> = vec![97, 99, 99, 101, 115, 115, 45, 99, 111, 110, 116, 114, 111, 108, 45, 97, 108, 108, 111, 119, 45, 104, 101, 97, 100, 101, 114, 115];
        proof {
            assert(bytes@ =~= allow_headers_name());
            assert(is_token(bytes@));
            assert(lower(bytes@) =~= bytes@);
        }
        HeaderName { bytes }
    }

    /// The header name `access-control-expose-headers`.
    pub fn access_control_expose_headers() -> (r: HeaderName)
        ensures
            r@ == expose_headers_name(),
    {
        let bytes: Vec<u8> = vec![97, 99, 99, 101, 115, 115, 45, 99, 111, 110, 116, 114, 111, 108, 45, 101, 120, 112, 111, 115, 101, 45, 104, 101, 97, 100, 101, 114, 115];
        proof {
            assert(bytes@ =~= expose_headers_name());
            assert(is_token(bytes@));
            assert(lower(bytes@) =~= bytes@);
        }
        HeaderName { bytes }
    }

    /// The header name `access-control-max-age`.
    pub fn access_control_max_age() -> (r: HeaderName)
        ensures
            r@ == max_age_name(),
    {
        let bytes: Vec<u8> = vec![97, 99, 99, 101, 115, 115, 45, 99, 111, 110, 116, 114, 111, 108, 45, 109, 97, 120, 45, 97, 103, 101];
        proof {
            assert(bytes@ =~= max_age_name());
            assert(is_token(bytes@));
            assert(lower(bytes@) =~= bytes@);
        }
        HeaderName { bytes }
    }

    /// The header name `access-control-request-method`.
    pub fn access_control_request_method() -> (r: HeaderName)
        ensures
            r@ == request_method_name(),
    {
        let bytes: Vec<u8> = vec![97, 99, 99, 101, 115, 115, 45, 99, 111, 110, 116, 114, 111, 108, 45, 114, 101, 113, 117, 101, 115, 116, 45, 109, 101, 116, 104, 111, 100];
        proof {
            assert(bytes@ =~= request_method_name());
            assert(is_token(bytes@));
            assert(lower(bytes@) =~= bytes@);
        }
        HeaderName { bytes }
    }

    /// The header name `access-control-request-headers`.
    pub fn access_control_request_headers() -> (r: HeaderName)
        ensures
            r@ == request_headers_name(),
    {
        let bytes: Vec<u8> = vec![97, 99, 99, 101, 115, 115, 45, 99, 111, 110, 116, 114, 111, 108, 45, 114, 101, 113, 117, 101, 115, 116, 45, 104, 101, 97, 100, 101, 114, 115];
        proof {
            assert(bytes@ =~= request_headers_name());
            assert(is_token(bytes@));
            assert(lower(bytes@) =~= bytes@);
        }
        HeaderName { bytes }
    }
}

impl Clone for HeaderName {
    fn clone(&self) -> (r: Self)
        ensures
            r@ == self@,
    {
        proof {
            use_type_invariant(self);
        }
        HeaderName { bytes: copy_bytes(self.bytes.as_slice()) }
    }
}

/// `origin`
pub open spec fn origin_name() -> Seq<u8> {
    seq![111, 114, 105, 103, 105, 110]
}

/// `vary`
pub open spec fn vary_name() -> Seq<u8> {
    seq![118, 97, 114, 121]
}

/// `access-control-allow-origin`
pub open spec fn allow_origin_name() -> Seq<u8> {
    seq![97, 99, 99, 101, 115, 115, 45, 99, 111, 110, 116, 114, 111, 108, 45, 97, 108, 108, 111, 119, 45, 111, 114, 105, 103, 105, 110]
}

/// `access-control-allow-credentials`
pub open spec fn allow_credentials_name() -> Seq<u8> {
    seq![97, 99, 99, 101, 115, 115, 45, 99, 111, 110, 116, 114, 111, 108, 45, 97, 108, 108, 111, 119, 45, 99, 114, 101, 100, 101, 110, 116, 105, 97, 108, 115]
}

/// `access-control-allow-methods`
pub open spec fn allow_methods_name() -> Seq<u8> {
    seq![97, 99, 99, 101, 115, 115, 45, 99, 111, 110, 116, 114, 111, 108, 45, 97, 108, 108, 111, 119, 45, 109, 101, 116, 104, 111, 100, 115]
}

/// `access-control-allow-headers`
pub open spec fn allow_headers_name() -> Seq<u8> {
    seq![97, 99, 99, 101, 115, 115, 45, 99, 111, 110, 116, 114, 111, 108, 45, 97, 108, 108, 111, 119, 45, 104, 101, 97, 100, 101, 114, 115]
}

/// `access-control-expose-headers`
pub open spec fn expose_headers_name() -> Seq<u8> {
    seq![97, 99, 99, 101, 115, 115, 45, 99, 111, 110, 116, 114, 111, 108, 45, 101, 120, 112, 111, 115, 101, 45, 104, 101, 97, 100, 101, 114, 115]
}

/// `access-control-max-age`
pub open spec fn max_age_name() -> Seq<u8> {
    seq![97, 99, 99, 101, 115, 115, 45, 99, 111, 110, 116, 114, 111, 108, 45, 109, 97, 120, 45, 97, 103, 101]
}

/// `access-control-request-method`
pub open spec fn request_method_name() -> Seq<u8> {
    seq![97, 99, 99, 101, 115, 115, 45, 99, 111, 110, 116, 114, 111, 108, 45, 114, 101, 113, 117, 101, 115, 116, 45, 109, 101, 116, 104, 111, 100]
}

/// `access-control-request-headers`
pub open spec fn request_headers_name() -> Seq<u8> {
    seq![97, 99, 99, 101, 115, 115, 45, 99, 111, 110, 116, 114, 111, 108, 45, 114, 101, 113, 117, 101, 115, 116, 45, 104, 101, 97, 100, 101, 114, 115]
}

/// A request method: a token, case preserved.
#[derive(Debug)]
pub struct Method {
    bytes: Vec<u8>,
}

impl View for Method {
    type V = Seq<u8>;

    closed spec fn view(&self) -> Seq<u8> {
        self.bytes@
    }
}

impl Method {
    #[verifier::type_invariant]
    spec fn inv(self) -> bool {
        is_token(self.bytes@)
    }

    /// The method spelled by `src`, or `None` when `src` is not a token.
    pub fn from_bytes(src: &[u8]) -> (r: Option<Method>)
        ensures
            r is Some <==> is_token(src@),
            r matches Some(m) ==> m@ == src@,
    {
        match http_method(src) {
            Some(bytes) => Some(Method { bytes }),
            None => None,
        }
    }

    /// The bytes of the method; always a token.
    pub fn as_bytes(&self) -> (r: &[u8])
        ensures
            r@ == self@,
            is_token(r@),
    {
        proof {
            use_type_invariant(self);
        }
        self.bytes.as_slice()
    }

    /// The method as a header value, byte for byte.
    pub fn to_value(&self) -> (r: HeaderValue)
        ensures
            r@ == self@,
    {
        proof {
            use_type_invariant(self);
            lemma_token_is_value(self.bytes@);
        }
        HeaderValue::from_valid(copy_bytes(self.bytes.as_slice()))
    }

    /// The `GET` method.
    pub fn get() -> (r: Method)
        ensures
            r@ == method_get(),
    {
        let bytes: Vec<u8> = vec![71, 69, 84];
        proof {
            assert(bytes@ =~= method_get());
            assert(is_token(bytes@));
        }
        Method { bytes }
    }

    /// The `POST` method.
    pub fn post() -> (r: Method)
        ensures
            r@ == method_post(),
    {
        let bytes: Vec<u8> = vec![80, 79, 83, 84];
        proof {
            assert(bytes@ =~= method_post());
            assert(is_token(bytes@));
        }
        Method { bytes }
    }

    /// The `PUT` method.
    pub fn put() -> (r: Method)
        ensures
            r@ == method_put(),
    {
        let bytes: Vec<u8> = vec![80, 85, 84];
        proof {
            assert(bytes@ =~= method_put());
            assert(is_token(bytes@));
        }
        Method { bytes }
    }

    /// The `DELETE` method.
    pub fn delete() -> (r: Method)
        ensures
            r@ == method_delete(),
    {
        let bytes: Vec<u8> = vec![68, 69, 76, 69, 84, 69];
        proof {
            assert(bytes@ =~= method_delete());
            assert(is_token(bytes@));
        }
        Method { bytes }
    }

    /// The `HEAD` method.
    pub fn head() -> (r: Method)
        ensures
            r@ == method_head(),
    {
        let bytes: Vec<u8> = vec![72, 69, 65, 68];
        proof {
            assert(bytes@ =~= method_head());
            assert(is_token(bytes@));
        }
        Method { bytes }
    }

    /// The `OPTIONS` method.
    pub fn options() -> (r: Method)
        ensures
            r@ == method_options(),
    {
        let bytes: Vec<u8> = vec![79, 80, 84, 73, 79, 78, 83];
        proof {
            assert(bytes@ =~= method_options());
            assert(is_token(bytes@));
        }
        Method { bytes }
    }

    /// The `CONNECT` method.
    pub fn connect() -> (r: Method)
        ensures
            r@ == method_connect(),
    {
        let bytes: Vec<u8> = vec![67, 79, 78, 78, 69, 67, 84];
        proof {
            assert(bytes@ =~= method_connect());
            assert(is_token(bytes@));
        }
        Method { bytes }
    }

    /// The `PATCH` method.
    pub fn patch() -> (r: Method)
        ensures
            r@ == method_patch(),
    {
        let bytes: Vec<u8> = vec![80, 65, 84, 67, 72];
        proof {
            assert(bytes@ =~= method_patch());
            assert(is_token(bytes@));
        }
        Method { bytes }
    }

    /// The `TRACE` method.
    pub fn trace() -> (r: Method)
        ensures
            r@ == method_trace(),
    {
        let bytes: Vec<u8> = vec![84, 82, 65, 67, 69];
        proof {
            assert(bytes@ =~= method_trace());
            assert(is_token(bytes@));
        }
        Method { bytes }
    }
}

impl Clone for Method {
    fn clone(&self) -> (r: Self)
        ensures
            r@ == self@,
    {
        proof {
            use_type_invariant(self);
        }
        Method { bytes: copy_bytes(self.bytes.as_slice()) }
    }
}

/// `GET`
pub open spec fn method_get() -> Seq<u8> {
    seq![71, 69, 84]
}

/// `POST`
pub open spec fn method_post() -> Seq<u8> {
    seq![80, 79, 83, 84]
}

/// `PUT`
pub open spec fn method_put() -> Seq<u8> {
    seq![80, 85, 84]
}

/// `DELETE`
pub open spec fn method_delete() -> Seq<u8> {
    seq![68, 69, 76, 69, 84, 69]
}

/// `HEAD`
pub open spec fn method_head() -> Seq<u8> {
    seq![72, 69, 65, 68]
}

/// `OPTIONS`
pub open spec fn method_options() -> Seq<u8> {
    seq![79, 80, 84, 73, 79, 78, 83]
}

/// `CONNECT`
pub open spec fn method_connect() -> Seq<u8> {
    seq![67, 79, 78, 78, 69, 67, 84]
}

/// `PATCH`
pub open spec fn method_patch() -> Seq<u8> {
    seq![80, 65, 84, 67, 72]
}

/// `TRACE`
pub open spec fn method_trace() -> Seq<u8> {
    seq![84, 82, 65, 67, 69]
}

/// The contents of a sequence of header names.
pub open spec fn name_views(ns: Seq<HeaderName>) -> Seq<Seq<u8>> {
    Seq::new(ns.len(), |i: int| ns[i]@)
}

/// The contents of a sequence of methods.
pub open spec fn method_views(ms: Seq<Method>) -> Seq<Seq<u8>> {
    Seq::new(ms.len(), |i: int| ms[i]@)
}

/// The contents of an optional header value.
pub open spec fn opt_view(o: Option<HeaderValue>) -> Option<Seq<u8>> {
    match o {
        Some(v) => Some(v@),
        None => None,
    }
}

/// A copy of an optional header value.
pub fn clone_opt(v: &Option<HeaderValue>) -> (r: Option<HeaderValue>)
    ensures
        opt_view(r) == opt_view(*v),
{
    match v {
        Some(x) => Some(x.clone()),
        None => None,
    }
}

/// The contents of an optional header pair.
pub open spec fn opt_pair_view(o: Option<(HeaderName, HeaderValue)>) -> Option<(Seq<u8>, Seq<u8>)> {
    match o {
        Some(p) => Some((p.0@, p.1@)),
        None => None,
    }
}

/// The names as header values, in order.
pub fn names_to_values(names: &Vec<HeaderName>) -> (r: Vec<HeaderValue>)
    ensures
        r@.len() == names@.len(),
        forall|i: int| 0 <= i < names@.len() ==> #[trigger] r@[i]@ == names@[i]@,
{
    let mut r: Vec<HeaderValue> = Vec::new();
    let mut i: usize = 0;
    while i < names.len()
        invariant
            i <= names.len(),
            r@.len() == i,
            forall|k: int| 0 <= k < i ==> #[trigger] r@[k]@ == names@[k]@,
        decreases names.len() - i,
    {
        r.push(names[i].to_value());
        i += 1;
    }
    r
}

/// What the CORS rules read of an incoming request: its method and the first
/// value of each request header they consult.
#[derive(Clone, Debug)]
pub struct RequestHead {
    /// The request method.
    pub method: Method,
    /// The first `Origin` header, if any.
    pub origin: Option<HeaderValue>,
    /// The first `Access-Control-Request-Method` header, if any.
    pub request_method: Option<HeaderValue>,
    /// The first `Access-Control-Request-Headers` header, if any.
    pub request_headers: Option<HeaderValue>,
    /// Whether the request carries a `Sec-WebSocket-Version` header.
    pub websocket_version: bool,
}

} // verus!
