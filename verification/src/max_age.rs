//! Configuration for the `Access-Control-Max-Age` response header.

use vstd::prelude::*;

use crate::header::{clone_opt, max_age_name, opt_pair_view, HeaderName, HeaderValue, RequestHead};
use crate::text::{all_bytes, is_value_byte, is_value_bytes, lemma_all_bytes_concat};

verus! {

/// The decimal digits of `n`, most significant first, without leading zeros.
pub open spec fn decimal(n: nat) -> Seq<u8>
    decreases n,
{
    if n < 10 {
        seq![(48 + n) as u8]
    } else {
        decimal(n / 10).push((48 + n % 10) as u8)
    }
}

/// Decimal digits may appear in a header value.
pub proof fn lemma_decimal_is_value(n: nat)
    ensures
        is_value_bytes(decimal(n)),
        decimal(n).len() > 0,
    decreases n,
{
    let q = |b: u8| is_value_byte(b);
    if n < 10 {
        assert(q(decimal(n)[0]));
        assert forall|k: int| 0 <= k < decimal(n).len() implies #[trigger] q(decimal(n)[k]) by {}
    } else {
        lemma_decimal_is_value(n / 10);
        let d = seq![(48 + n % 10) as u8];
        assert(q(d[0]));
        assert(all_bytes(d, q)) by {
            assert forall|k: int| 0 <= k < d.len() implies #[trigger] q(d[k]) by {}
        }
        lemma_all_bytes_concat(decimal(n / 10), d, q);
        assert(decimal(n) =~= decimal(n / 10) + d);
    }
}

/// Appends the decimal digits of `n` to `out`.
fn push_decimal(out: &mut Vec<u8>, n: u64)
    ensures
        final(out)@ == old(out)@ + decimal(n as nat),
    decreases n,
{
    if n >= 10 {
        push_decimal(out, n / 10);
    }
    let digit: u8 = 48u8 + (n % 10) as u8;
    out.push(digit);
    proof {
        if n < 10 {
            assert(decimal(n as nat) =~= seq![digit]);
        } else {
            assert(decimal(n as nat) =~= decimal((n / 10) as nat).push(digit));
        }
    }
}

/// The decimal representation of `seconds` as a header value.
pub fn seconds_to_header_value(seconds: u64) -> (r: Option<HeaderValue>)
    ensures
        r matches Some(v) && v@ == decimal(seconds as nat),
{
    let mut buf: Vec<u8> = Vec::new();
    push_decimal(&mut buf, seconds);
    proof {
        assert(buf@ =~= decimal(seconds as nat));
        lemma_decimal_is_value(seconds as nat);
    }
    Some(HeaderValue::from_valid(buf))
}

/// Configuration for the `Access-Control-Max-Age` header: the value to send, if any.
#[derive(Debug)]
pub struct MaxAge {
    value: Option<HeaderValue>,
}

impl Clone for MaxAge {
    fn clone(&self) -> (r: Self)
        ensures
            r@ == self@,
    {
        MaxAge { value: clone_opt(&self.value) }
    }
}

impl View for MaxAge {
    type V = Option<Seq<u8>>;

    closed spec fn view(&self) -> Option<Seq<u8>> {
        match self.value {
            Some(v) => Some(v@),
            None => None,
        }
    }
}

impl MaxAge {
    /// Sends `max_age_secs` seconds, in decimal.
    pub fn exact(max_age_secs: u64) -> (r: MaxAge)
        ensures
            r@ == Some(decimal(max_age_secs as nat)),
    {
        MaxAge { value: seconds_to_header_value(max_age_secs) }
    }

    /// Omits `Access-Control-Max-Age` from responses, so browsers re-preflight every time.
    pub fn none() -> (r: MaxAge)
        ensures
            r@ is None,
    {
        MaxAge { value: None }
    }

    /// The header pair to send, or `None` when none is configured. The request does
    /// not change it.
    pub fn to_header(&self, _origin: Option<&HeaderValue>, _head: &RequestHead) -> (r: Option<
        (HeaderName, HeaderValue),
    >)
        ensures
            opt_pair_view(r) == match self@ {
                Some(v) => Some((max_age_name(), v)),
                None => None,
            },
    {
        match &self.value {
            Some(v) => Some((HeaderName::access_control_max_age(), v.clone())),
            None => None,
        }
    }
}

impl Default for MaxAge {
    fn default() -> (r: MaxAge)
        ensures
            r@ is None,
    {
        MaxAge::none()
    }
}

} // verus!
