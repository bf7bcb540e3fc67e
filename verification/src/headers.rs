//! Header values that the middleware emits verbatim.

use vstd::prelude::*;

use crate::header::HeaderValue;
use crate::text::{is_value_byte, is_value_bytes};

verus! {

/// `*`
pub open spec fn wildcard_bytes() -> Seq<u8> {
    seq![42u8]
}

/// `true`
pub open spec fn true_bytes() -> Seq<u8> {
    seq![116u8, 114u8, 117u8, 101u8]
}

/// The value `*`.
pub fn wildcard() -> (r: HeaderValue)
    ensures
        r@ == wildcard_bytes(),
{
    let bytes: Vec<u8> = vec![42u8];
    proof {
        assert(bytes@ =~= wildcard_bytes());
        let q = |b: u8| is_value_byte(b);
        assert forall|k: int| 0 <= k < bytes@.len() implies #[trigger] q(bytes@[k]) by {}
        assert(is_value_bytes(bytes@));
    }
    HeaderValue::from_valid(bytes)
}

/// The value `true`, for `Access-Control-Allow-Credentials`.
pub fn allow_credentials_true() -> (r: HeaderValue)
    ensures
        r@ == true_bytes(),
{
    let bytes: Vec<u8> = vec![116u8, 114u8, 117u8, 101u8];
    proof {
        assert(bytes@ =~= true_bytes());
        let q = |b: u8| is_value_byte(b);
        assert forall|k: int| 0 <= k < bytes@.len() implies #[trigger] q(bytes@[k]) by {}
        assert(is_value_bytes(bytes@));
    }
    HeaderValue::from_valid(bytes)
}

} // verus!
