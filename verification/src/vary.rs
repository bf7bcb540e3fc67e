//! Configuration for the `Vary` response header.
//!
//! The set of names is derived from the other CORS knobs unless the user pins it via
//! `CorsBuilder::vary`.

use vstd::prelude::*;

use crate::header::{
    clone_opt, name_views, opt_pair_view, opt_view, origin_name, request_headers_name,
    request_method_name, vary_name, HeaderName, HeaderValue,
};
use crate::text::{
    all_bytes, is_tchar, is_value_byte, is_value_bytes, join, lemma_all_bytes_concat,
    lemma_join_push, push_bytes,
};

verus! {

/// `, `, the separator of the names in a `Vary` value.
pub open spec fn comma_space() -> Seq<u8> {
    seq![44u8, 32u8]
}

/// The `Vary` value listing `names`: `None` for no names, else the names joined by `, `.
pub open spec fn vary_value(names: Seq<Seq<u8>>) -> Option<Seq<u8>> {
    if names.len() == 0 {
        None
    } else {
        Some(join(names, comma_space()))
    }
}

/// The names a `Vary` lists when nothing else is configured.
pub open spec fn default_vary_names() -> Seq<Seq<u8>> {
    seq![origin_name(), request_method_name(), request_headers_name()]
}

/// Configuration for the `Vary` header.
///
/// The joined value is computed once at construction.
#[derive(Debug)]
pub struct Vary {
    value: Option<HeaderValue>,
}

impl Clone for Vary {
    fn clone(&self) -> (r: Self)
        ensures
            r@ == self@,
    {
        Vary { value: clone_opt(&self.value) }
    }
}

impl View for Vary {
    type V = Option<Seq<u8>>;

    closed spec fn view(&self) -> Option<Seq<u8>> {
        match self.value {
            Some(v) => Some(v@),
            None => None,
        }
    }
}

impl Vary {
    /// Sets the list of header names returned in `Vary`.
    pub fn list(headers: Vec<HeaderName>) -> (r: Vary)
        ensures
            r@ == vary_value(name_views(headers@)),
    {
        Vary { value: join_names(headers) }
    }

    /// The header pair to send, or `None` for an empty list.
    pub fn to_header(&self) -> (r: Option<(HeaderName, HeaderValue)>)
        ensures
            opt_pair_view(r) == match self@ {
                Some(v) => Some((vary_name(), v)),
                None => None,
            },
    {
        match &self.value {
            Some(v) => Some((HeaderName::vary(), v.clone())),
            None => None,
        }
    }

    /// Returns the default set of header names.
    pub fn default_header_names() -> (r: Vec<HeaderName>)
        ensures
            name_views(r@) == default_vary_names(),
    {
        let r = vec![
            HeaderName::origin(),
            HeaderName::access_control_request_method(),
            HeaderName::access_control_request_headers(),
        ];
        assert(name_views(r@) =~= default_vary_names());
        r
    }
}

impl Default for Vary {
    fn default() -> (r: Vary)
        ensures
            r@ == vary_value(default_vary_names()),
    {
        Vary::list(Vary::default_header_names())
    }
}

/// Joins the names with `, `; `None` for no names.
fn join_names(headers: Vec<HeaderName>) -> (r: Option<HeaderValue>)
    ensures
        opt_view(r) == vary_value(name_views(headers@)),
{
    if headers.len() == 0 {
        return None;
    }
    let ghost nv = name_views(headers@);
    let mut buf: Vec<u8> = Vec::new();
    let first = headers[0].as_bytes();
    push_bytes(&mut buf, first);
    proof {
        let q = |b: u8| is_value_byte(b);
        assert(nv.take(1) =~= seq![nv[0]]);
        assert(all_bytes(buf@, q)) by {
            let t = |b: u8| is_tchar(b);
            assert forall|k: int| 0 <= k < buf@.len() implies #[trigger] q(buf@[k]) by {
                assert(t(first@[k]));
            }
        }
    }
    let mut i: usize = 1;
    while i < headers.len()
        invariant
            1 <= i <= headers.len(),
            nv == name_views(headers@),
            buf@ == join(nv.take(i as int), comma_space()),
            is_value_bytes(buf@),
        decreases headers.len() - i,
    {
        let ghost before = buf@;
        buf.push(44u8);
        buf.push(32u8);
        let name = headers[i].as_bytes();
        push_bytes(&mut buf, name);
        proof {
            lemma_join_push(nv.take(i as int), nv[i as int], comma_space());
            assert(nv.take(i as int + 1) =~= nv.take(i as int).push(nv[i as int]));
            assert(buf@ =~= before + comma_space() + name@);
            let q = |b: u8| is_value_byte(b);
            let t = |b: u8| is_tchar(b);
            assert(all_bytes(comma_space(), q)) by {
                assert(q(comma_space()[0]));
                assert(q(comma_space()[1]));
            }
            assert(all_bytes(name@, q)) by {
                assert forall|k: int| 0 <= k < name@.len() implies #[trigger] q(name@[k]) by {
                    assert(t(name@[k]));
                }
            }
            lemma_all_bytes_concat(before, comma_space(), q);
            lemma_all_bytes_concat(before + comma_space(), name@, q);
        }
        i += 1;
    }
    assert(nv.take(headers.len() as int) =~= nv);
    Some(HeaderValue::from_valid(buf))
}

} // verus!
