//! Fixed-capacity buffer of CORS response headers.

use vstd::prelude::*;

use crate::header::{HeaderName, HeaderValue};

verus! {

/// Maximum number of CORS headers that can appear on a single response.
///
/// `Vary` + `Allow-Origin` + `Allow-Credentials` + `Allow-Methods` + `Allow-Headers` +
/// (`Max-Age` on preflight | `Expose-Headers` on simple requests) = 6.
pub const CAPACITY: usize = 6;

/// The contents of a sequence of header pairs.
pub open spec fn pair_views(ps: Seq<(HeaderName, HeaderValue)>) -> Seq<(Seq<u8>, Seq<u8>)> {
    Seq::new(ps.len(), |i: int| (ps[i].0@, ps[i].1@))
}

/// The pair, as a sequence of zero or one pairs.
pub open spec fn opt_pair_seq(o: Option<(Seq<u8>, Seq<u8>)>) -> Seq<(Seq<u8>, Seq<u8>)> {
    match o {
        Some(p) => seq![p],
        None => Seq::empty(),
    }
}

/// An ordered buffer of at most `CAPACITY` header pairs.
#[derive(Debug)]
pub struct HeaderBuf {
    pairs: Vec<(HeaderName, HeaderValue)>,
}

impl View for HeaderBuf {
    type V = Seq<(Seq<u8>, Seq<u8>)>;

    closed spec fn view(&self) -> Seq<(Seq<u8>, Seq<u8>)> {
        pair_views(self.pairs@)
    }
}

impl HeaderBuf {
    #[verifier::type_invariant]
    spec fn inv(self) -> bool {
        self.pairs@.len() <= CAPACITY
    }

    /// An empty buffer.
    pub fn new() -> (r: HeaderBuf)
        ensures
            r@ == Seq::<(Seq<u8>, Seq<u8>)>::empty(),
    {
        let r = HeaderBuf { pairs: Vec::new() };
        assert(r@ =~= Seq::<(Seq<u8>, Seq<u8>)>::empty());
        r
    }

    /// The number of stored pairs; never more than `CAPACITY`.
    pub fn len(&self) -> (r: usize)
        ensures
            r == self@.len(),
            r <= CAPACITY,
    {
        proof {
            use_type_invariant(self);
        }
        self.pairs.len()
    }

    /// Appends a header pair. The set of CORS headers is fixed, so the callers
    /// show that room is left.
    pub fn push(&mut self, pair: (HeaderName, HeaderValue))
        requires
            old(self)@.len() < CAPACITY,
        ensures
            final(self)@ == old(self)@.push((pair.0@, pair.1@)),
    {
        proof {
            use_type_invariant(&*self);
        }
        let ghost before = self@;
        let mut pairs: Vec<(HeaderName, HeaderValue)> = Vec::new();
        std::mem::swap(&mut pairs, &mut self.pairs);
        pairs.push(pair);
        self.pairs = pairs;
        assert(self@ =~= before.push((pair.0@, pair.1@)));
    }

    /// Appends a header pair if present; a no-op for `None`.
    pub fn push_opt(&mut self, pair: Option<(HeaderName, HeaderValue)>)
        requires
            pair is Some ==> old(self)@.len() < CAPACITY,
        ensures
            final(self)@ == old(self)@ + opt_pair_seq(crate::header::opt_pair_view(pair)),
    {
        match pair {
            Some(pair) => {
                self.push(pair);
                assert(final(self)@ =~= old(self)@ + seq![(pair.0@, pair.1@)]);
            },
            None => {
                assert(self@ =~= old(self)@ + Seq::<(Seq<u8>, Seq<u8>)>::empty());
            },
        }
    }

    /// The stored pairs in insertion order.
    pub fn pairs(&self) -> (r: &[(HeaderName, HeaderValue)])
        ensures
            pair_views(r@) == self@,
    {
        self.pairs.as_slice()
    }
}

impl Default for HeaderBuf {
    fn default() -> (r: HeaderBuf)
        ensures
            r@ == Seq::<(Seq<u8>, Seq<u8>)>::empty(),
    {
        HeaderBuf::new()
    }
}

} // verus!
