//! Configuration for the `Access-Control-Allow-Methods` response header.

use vstd::prelude::*;

use crate::header::{
    allow_methods_name, clone_opt, method_views, opt_pair_view, opt_view, HeaderName, HeaderValue,
    Method, RequestHead,
};
use crate::headers::{wildcard, wildcard_bytes};
use crate::text::{bytes_eq, is_token};
use crate::util::{comma_list, is_valid_token, separated_by_commas, value_views};

verus! {

/// What a list-valued knob is set to: a fixed value (or none), or the echo of the
/// matching request header.
pub enum ValueSetting {
    /// Always this value; `None` sends no header.
    Const(Option<Seq<u8>>),
    /// The matching request header, checked.
    MirrorRequest,
}

/// The setting is the literal `*`.
pub open spec fn is_wildcard_setting(s: ValueSetting) -> bool {
    s == ValueSetting::Const(Some(wildcard_bytes()))
}

/// The `Access-Control-Allow-Methods` pair sent for a request whose
/// `Access-Control-Request-Method` is `request_method`.
pub open spec fn allow_methods_header(s: ValueSetting, request_method: Option<Seq<u8>>) -> Option<
    (Seq<u8>, Seq<u8>),
> {
    match s {
        ValueSetting::Const(Some(v)) => Some((allow_methods_name(), v)),
        ValueSetting::Const(None) => None,
        ValueSetting::MirrorRequest => match request_method {
            Some(raw) => if is_token(raw) {
                Some((allow_methods_name(), raw))
            } else {
                None
            },
            None => None,
        },
    }
}

#[derive(Debug)]
enum AllowMethodsInner {
    Const(Option<HeaderValue>),
    MirrorRequest,
}

/// Configuration for the `Access-Control-Allow-Methods` header.
#[derive(Debug)]
pub struct AllowMethods(AllowMethodsInner);

impl Clone for AllowMethods {
    fn clone(&self) -> (r: Self)
        ensures
            r@ == self@,
    {
        match &self.0 {
            AllowMethodsInner::Const(v) => AllowMethods(AllowMethodsInner::Const(clone_opt(v))),
            AllowMethodsInner::MirrorRequest => AllowMethods(AllowMethodsInner::MirrorRequest),
        }
    }
}

impl View for AllowMethods {
    type V = ValueSetting;

    closed spec fn view(&self) -> ValueSetting {
        match self.0 {
            AllowMethodsInner::Const(v) => ValueSetting::Const(opt_view(v)),
            AllowMethodsInner::MirrorRequest => ValueSetting::MirrorRequest,
        }
    }
}

impl AllowMethods {
    /// Responds with `*`. Incompatible with credentials; see `CorsBuilder::build`.
    pub fn any() -> (r: AllowMethods)
        ensures
            r@ == ValueSetting::Const(Some(wildcard_bytes())),
    {
        AllowMethods(AllowMethodsInner::Const(Some(wildcard())))
    }

    /// Responds with a fixed set of methods, joined by `,`.
    pub fn list(methods: Vec<Method>) -> (r: AllowMethods)
        ensures
            r@ == ValueSetting::Const(comma_list(method_views(methods@))),
    {
        let mut values: Vec<HeaderValue> = Vec::new();
        let mut i: usize = 0;
        while i < methods.len()
            invariant
                i <= methods.len(),
                values@.len() == i,
                forall|k: int| 0 <= k < i ==> #[trigger] values@[k]@ == methods@[k]@,
            decreases methods.len() - i,
        {
            values.push(method_to_value(&methods[i]));
            i += 1;
        }
        assert(value_views(values@) =~= method_views(methods@));
        let joined = separated_by_commas(values);
        AllowMethods(AllowMethodsInner::Const(joined))
    }

    /// Echoes the request's `Access-Control-Request-Method` header.
    ///
    /// The reflected value is validated as an HTTP token; non-token values are dropped so a
    /// malformed request header cannot inject control characters into the response.
    pub fn mirror_request() -> (r: AllowMethods)
        ensures
            r@ == ValueSetting::MirrorRequest,
    {
        AllowMethods(AllowMethodsInner::MirrorRequest)
    }

    /// Returns `true` if the configured value is the literal `*` (incompatible with
    /// credentials).
    pub fn is_wildcard(&self) -> (r: bool)
        ensures
            r == is_wildcard_setting(self@),
    {
        match &self.0 {
            AllowMethodsInner::Const(Some(v)) => {
                let star = wildcard();
                bytes_eq(v.as_bytes(), star.as_bytes())
            },
            _ => false,
        }
    }

    /// Returns `true` if the value depends on the request's `Access-Control-Request-Method`
    /// (so `Vary: Access-Control-Request-Method` is required).
    pub fn varies_with_request_method(&self) -> (r: bool)
        ensures
            r == (self@ == ValueSetting::MirrorRequest),
    {
        match &self.0 {
            AllowMethodsInner::MirrorRequest => true,
            _ => false,
        }
    }

    /// The header pair to send on a preflight for `head`, if any.
    pub fn to_header(&self, head: &RequestHead) -> (r: Option<(HeaderName, HeaderValue)>)
        ensures
            opt_pair_view(r) == allow_methods_header(self@, opt_view(head.request_method)),
    {
        match &self.0 {
            AllowMethodsInner::Const(v) => match v {
                Some(v) => Some((HeaderName::access_control_allow_methods(), v.clone())),
                None => None,
            },
            AllowMethodsInner::MirrorRequest => match &head.request_method {
                Some(raw) => {
                    if !is_valid_token(raw.as_bytes()) {
                        return None;
                    }
                    Some((HeaderName::access_control_allow_methods(), raw.clone()))
                },
                None => None,
            },
        }
    }
}

impl Default for AllowMethods {
    fn default() -> (r: AllowMethods)
        ensures
            r@ == ValueSetting::MirrorRequest,
    {
        AllowMethods::mirror_request()
    }
}

/// The method as a header value.
fn method_to_value(m: &Method) -> (r: HeaderValue)
    ensures
        r@ == m@,
{
    m.to_value()
}

} // verus!
