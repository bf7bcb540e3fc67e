//! Helpers for assembling header values.

use vstd::prelude::*;

use crate::header::HeaderValue;
use crate::text::{
    all_bytes, is_tchar, is_tchar_byte, is_token, is_value_byte, is_value_bytes, join,
    lemma_all_bytes_concat, lemma_join_push, push_bytes,
};

verus! {

/// The contents of a sequence of header values.
pub open spec fn value_views(vs: Seq<HeaderValue>) -> Seq<Seq<u8>> {
    Seq::new(vs.len(), |i: int| vs[i]@)
}

/// A copy of a list of header values.
pub fn clone_values(vs: &Vec<HeaderValue>) -> (r: Vec<HeaderValue>)
    ensures
        value_views(r@) == value_views(vs@),
{
    let mut r: Vec<HeaderValue> = Vec::new();
    let mut i: usize = 0;
    while i < vs.len()
        invariant
            i <= vs.len(),
            value_views(r@) == value_views(vs@).take(i as int),
        decreases vs.len() - i,
    {
        let ghost before = value_views(r@);
        r.push(vs[i].clone());
        assert(value_views(r@) =~= before.push(vs@[i as int]@));
        assert(value_views(vs@).take(i as int + 1) =~= value_views(vs@).take(i as int).push(
            vs@[i as int]@,
        ));
        i += 1;
    }
    assert(value_views(vs@).take(vs.len() as int) =~= value_views(vs@));
    r
}

/// `,` as a separator.
pub open spec fn comma() -> Seq<u8> {
    seq![44u8]
}

/// The values joined by `,`, or `None` for no values.
pub open spec fn comma_list(parts: Seq<Seq<u8>>) -> Option<Seq<u8>> {
    if parts.len() == 0 {
        None
    } else {
        Some(join(parts, comma()))
    }
}

/// Joins the values with `,`. Returns `None` if there are none.
pub fn separated_by_commas(values: Vec<HeaderValue>) -> (r: Option<HeaderValue>)
    ensures
        r is None <==> values@.len() == 0,
        r matches Some(v) ==> v@ == join(value_views(values@), comma()),
{
    if values.len() == 0 {
        assert(value_views(values@).len() == 0);
        return None;
    }
    let mut out: Vec<u8> = Vec::new();
    push_bytes(&mut out, values[0].as_bytes());
    let ghost vw = value_views(values@);
    assert(vw.take(1) =~= seq![vw[0]]);
    let mut i: usize = 1;
    while i < values.len()
        invariant
            1 <= i <= values.len(),
            vw == value_views(values@),
            out@ == join(vw.take(i as int), comma()),
            is_value_bytes(out@),
        decreases values.len() - i,
    {
        let ghost before = out@;
        out.push(44u8);
        let piece = values[i].as_bytes();
        push_bytes(&mut out, piece);
        proof {
            lemma_join_push(vw.take(i as int), vw[i as int], comma());
            assert(vw.take(i as int + 1) =~= vw.take(i as int).push(vw[i as int]));
            assert(out@ =~= before + comma() + piece@);
            let q = |b: u8| is_value_byte(b);
            assert(all_bytes(comma(), q)) by {
                assert(q(comma()[0]));
            }
            lemma_all_bytes_concat(before, comma(), q);
            lemma_all_bytes_concat(before + comma(), piece@, q);
        }
        i += 1;
    }
    assert(vw.take(values.len() as int) =~= vw);
    Some(HeaderValue::from_valid(out))
}

/// Returns `true` if `s` is a valid HTTP token (RFC 7230 Sec. 3.2.6).
pub fn is_valid_token(s: &[u8]) -> (r: bool)
    ensures
        r == is_token(s@),
{
    if s.len() == 0 {
        return false;
    }
    let mut i: usize = 0;
    while i < s.len()
        invariant
            i <= s.len(),
            forall|k: int| 0 <= k < i ==> is_tchar(#[trigger] s@[k]),
        decreases s.len() - i,
    {
        if !is_tchar_byte(s[i]) {
            proof {
                let q = |b: u8| is_tchar(b);
                assert(!q(s@[i as int]));
            }
            return false;
        }
        i += 1;
    }
    proof {
        let q = |b: u8| is_tchar(b);
        assert forall|k: int| 0 <= k < s@.len() implies #[trigger] q(s@[k]) by {
            assert(is_tchar(s@[k]));
        }
    }
    true
}

} // verus!
