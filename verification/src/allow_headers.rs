//! Configuration for the `Access-Control-Allow-Headers` response header.

use vstd::prelude::*;

use crate::allow_methods::ValueSetting;
use crate::header::{
    allow_headers_name, clone_opt, name_views, names_to_values, opt_pair_view, opt_view,
    HeaderName, HeaderValue, RequestHead,
};
use crate::headers::{wildcard, wildcard_bytes};
use crate::text::{
    all_bytes, bytes_eq, is_tchar, is_token, is_value_byte, is_value_bytes, join,
    lemma_all_bytes_concat, lemma_join_push, lemma_join_split, lemma_split_nonempty,
    lemma_trim_token, push_bytes, split, split_on, trim, trim_ascii, views,
};
use crate::util::{comma, comma_list, is_valid_token, separated_by_commas, value_views};

verus! {

/// The trimmed pieces that are tokens, in order.
pub open spec fn kept_tokens(pieces: Seq<Seq<u8>>) -> Seq<Seq<u8>>
    decreases pieces.len(),
{
    if pieces.len() == 0 {
        Seq::<Seq<u8>>::empty()
    } else {
        let rest = kept_tokens(pieces.drop_last());
        let t = trim(pieces.last());
        if is_token(t) {
            rest.push(t)
        } else {
            rest
        }
    }
}

/// `Access-Control-Request-Headers` reduced to its valid tokens: each `,`-separated
/// entry is trimmed of ASCII whitespace, entries that are not tokens are dropped, and
/// the rest are joined by `,` in their order. `None` when no entry is left.
pub open spec fn sanitized(raw: Seq<u8>) -> Option<Seq<u8>> {
    comma_list(kept_tokens(split(raw, 44u8)))
}

/// The `Access-Control-Allow-Headers` pair sent for a request whose
/// `Access-Control-Request-Headers` is `request_headers`.
pub open spec fn allow_headers_header(s: ValueSetting, request_headers: Option<Seq<u8>>) -> Option<
    (Seq<u8>, Seq<u8>),
> {
    match s {
        ValueSetting::Const(Some(v)) => Some((allow_headers_name(), v)),
        ValueSetting::Const(None) => None,
        ValueSetting::MirrorRequest => match request_headers {
            Some(raw) => match sanitized(raw) {
                Some(v) => Some((allow_headers_name(), v)),
                None => None,
            },
            None => None,
        },
    }
}

/// When every piece is a token, every piece is kept as it is.
pub proof fn lemma_all_tokens_kept(pieces: Seq<Seq<u8>>)
    requires
        forall|j: int| 0 <= j < pieces.len() ==> is_token(#[trigger] pieces[j]),
    ensures
        kept_tokens(pieces) == pieces,
    decreases pieces.len(),
{
    if pieces.len() > 0 {
        let q = pieces.drop_last();
        assert forall|j: int| 0 <= j < q.len() implies is_token(#[trigger] q[j]) by {
            assert(q[j] == pieces[j]);
        }
        lemma_all_tokens_kept(q);
        assert(is_token(pieces[pieces.len() - 1]));
        lemma_trim_token(pieces.last());
        assert(pieces =~= q.push(pieces.last()));
    }
}

/// A token's bytes may appear in a header value.
proof fn lemma_token_value(t: Seq<u8>)
    requires
        is_token(t),
    ensures
        is_value_bytes(t),
{
    let p = |b: u8| is_tchar(b);
    let q = |b: u8| is_value_byte(b);
    assert forall|k: int| 0 <= k < t.len() implies #[trigger] q(t[k]) by {
        assert(p(t[k]));
    }
}

/// Filters `Access-Control-Request-Headers` to valid tokens, preserving their order.
pub fn mirror_sanitized(raw: &HeaderValue) -> (r: Option<HeaderValue>)
    ensures
        opt_view(r) == sanitized(raw@),
{
    let bytes = raw.as_bytes();
    let pieces = split_on(bytes, 44u8);
    let ghost pv = views(pieces@);

    // Fast path: when every piece is already a token, the sanitized output is
    // byte-for-byte identical to the input.
    let mut all_valid = true;
    let mut i: usize = 0;
    while i < pieces.len()
        invariant
            i <= pieces.len(),
            pv == views(pieces@),
            all_valid <==> forall|k: int| 0 <= k < i ==> is_token(#[trigger] pv[k]),
        decreases pieces.len() - i,
    {
        let ok = is_valid_token(pieces[i].as_slice());
        assert(pv[i as int] == pieces@[i as int]@);
        if !ok {
            all_valid = false;
        }
        i += 1;
    }
    if all_valid {
        proof {
            lemma_all_tokens_kept(pv);
            lemma_join_split(bytes@, 44u8);
            lemma_split_nonempty(bytes@, 44u8);
            assert(seq![44u8] =~= comma());
        }
        return Some(raw.clone());
    }

    let mut out: Vec<u8> = Vec::new();
    let mut i: usize = 0;
    while i < pieces.len()
        invariant
            i <= pieces.len(),
            pv == views(pieces@),
            out@ == join(kept_tokens(pv.take(i as int)), comma()),
            out@.len() == 0 <==> kept_tokens(pv.take(i as int)).len() == 0,
            is_value_bytes(out@),
        decreases pieces.len() - i,
    {
        let cleaned = trim_ascii(pieces[i].as_slice());
        proof {
            assert(pv.take(i as int + 1).drop_last() =~= pv.take(i as int));
            assert(pv.take(i as int + 1).last() == pieces@[i as int]@);
        }
        if is_valid_token(cleaned.as_slice()) {
            let ghost before = out@;
            let ghost ks = kept_tokens(pv.take(i as int));
            if out.len() != 0 {
                out.push(44u8);
            }
            push_bytes(&mut out, cleaned.as_slice());
            proof {
                lemma_join_push(ks, cleaned@, comma());
                lemma_token_value(cleaned@);
                let q = |b: u8| is_value_byte(b);
                if before.len() != 0 {
                    assert(all_bytes(comma(), q)) by {
                        assert(q(comma()[0]));
                    }
                    assert(out@ =~= before + comma() + cleaned@);
                    lemma_all_bytes_concat(before, comma(), q);
                    lemma_all_bytes_concat(before + comma(), cleaned@, q);
                } else {
                    assert(out@ =~= cleaned@);
                }
            }
        }
        i += 1;
    }
    assert(pv.take(pieces.len() as int) =~= pv);
    if out.len() == 0 {
        return None;
    }
    Some(HeaderValue::from_valid(out))
}

#[derive(Debug)]
enum AllowHeadersInner {
    Const(Option<HeaderValue>),
    MirrorRequest,
}

/// Configuration for the `Access-Control-Allow-Headers` header.
#[derive(Debug)]
pub struct AllowHeaders(AllowHeadersInner);

impl Clone for AllowHeaders {
    fn clone(&self) -> (r: Self)
        ensures
            r@ == self@,
    {
        match &self.0 {
            AllowHeadersInner::Const(v) => AllowHeaders(AllowHeadersInner::Const(clone_opt(v))),
            AllowHeadersInner::MirrorRequest => AllowHeaders(AllowHeadersInner::MirrorRequest),
        }
    }
}

impl View for AllowHeaders {
    type V = ValueSetting;

    closed spec fn view(&self) -> ValueSetting {
        match self.0 {
            AllowHeadersInner::Const(v) => ValueSetting::Const(opt_view(v)),
            AllowHeadersInner::MirrorRequest => ValueSetting::MirrorRequest,
        }
    }
}

impl AllowHeaders {
    /// Responds with `*`. Incompatible with credentials; see `CorsBuilder::build`.
    pub fn any() -> (r: AllowHeaders)
        ensures
            r@ == ValueSetting::Const(Some(wildcard_bytes())),
    {
        AllowHeaders(AllowHeadersInner::Const(Some(wildcard())))
    }

    /// Responds with a fixed set of header names, joined by `,`.
    pub fn list(headers: Vec<HeaderName>) -> (r: AllowHeaders)
        ensures
            r@ == ValueSetting::Const(comma_list(name_views(headers@))),
    {
        let values = names_to_values(&headers);
        assert(value_views(values@) =~= name_views(headers@));
        AllowHeaders(AllowHeadersInner::Const(separated_by_commas(values)))
    }

    /// Echoes the request's `Access-Control-Request-Headers` header, with each
    /// entry validated as an HTTP token.
    pub fn mirror_request() -> (r: AllowHeaders)
        ensures
            r@ == ValueSetting::MirrorRequest,
    {
        AllowHeaders(AllowHeadersInner::MirrorRequest)
    }

    /// Returns `true` if the configured value is the literal `*`.
    pub fn is_wildcard(&self) -> (r: bool)
        ensures
            r == (self@ == ValueSetting::Const(Some(wildcard_bytes()))),
    {
        match &self.0 {
            AllowHeadersInner::Const(Some(v)) => {
                let star = wildcard();
                bytes_eq(v.as_bytes(), star.as_bytes())
            },
            _ => false,
        }
    }

    /// Returns `true` if the value depends on the request's `Access-Control-Request-Headers`.
    pub fn varies_with_request_headers(&self) -> (r: bool)
        ensures
            r == (self@ == ValueSetting::MirrorRequest),
    {
        match &self.0 {
            AllowHeadersInner::MirrorRequest => true,
            _ => false,
        }
    }

    /// The header pair to send on a preflight for `head`, if any.
    pub fn to_header(&self, head: &RequestHead) -> (r: Option<(HeaderName, HeaderValue)>)
        ensures
            opt_pair_view(r) == allow_headers_header(self@, opt_view(head.request_headers)),
    {
        let value = match &self.0 {
            AllowHeadersInner::Const(v) => match v {
                Some(v) => v.clone(),
                None => {
                    return None;
                },
            },
            AllowHeadersInner::MirrorRequest => match &head.request_headers {
                Some(raw) => match mirror_sanitized(raw) {
                    Some(v) => v,
                    None => {
                        return None;
                    },
                },
                None => {
                    return None;
                },
            },
        };
        Some((HeaderName::access_control_allow_headers(), value))
    }
}

impl Default for AllowHeaders {
    fn default() -> (r: AllowHeaders)
        ensures
            r@ == ValueSetting::MirrorRequest,
    {
        AllowHeaders::mirror_request()
    }
}

} // verus!
