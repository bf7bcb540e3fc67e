//! Configuration for the `Access-Control-Allow-Origin` response header.

use vstd::prelude::*;

use crate::header::{allow_origin_name, opt_pair_view, opt_view, HeaderName, HeaderValue};
use crate::headers::{wildcard, wildcard_bytes};
use crate::text::{bytes_eq, split, split_on, trim, trim_ascii, views};
use crate::util::{clone_values, value_views};

verus! {

/// Sentinel for the wildcard `*` origin.
#[derive(Debug, Clone, Copy)]
pub struct Any;

/// What `Access-Control-Allow-Origin` is set to.
pub enum OriginSetting {
    /// Always this value.
    Const(Seq<u8>),
    /// The request's `Origin`, when every origin it names is in the list.
    List(Seq<Seq<u8>>),
    /// The request's `Origin`, when the caller's synchronous predicate accepts it.
    Predicate,
    /// The request's `Origin`, when the caller's asynchronous predicate accepts it.
    AsyncPredicate,
    /// The request's `Origin`, always.
    MirrorRequest,
}

/// The setting is the literal `*`.
pub open spec fn is_wildcard_origin(s: OriginSetting) -> bool {
    s == OriginSetting::Const(wildcard_bytes())
}

/// A request `Origin` matches an allow-list when it names at least one origin and
/// every non-empty space-separated entry, trimmed, is in the list.
pub open spec fn origin_list_matches_spec(allowed: Seq<Seq<u8>>, origin: Seq<u8>) -> bool {
    let pieces = split(origin, 32u8);
    &&& exists|k: int| 0 <= k < pieces.len() && trim(#[trigger] pieces[k]).len() > 0
    &&& forall|k: int|
        0 <= k < pieces.len() && trim(#[trigger] pieces[k]).len() > 0 ==> allowed.contains(
            trim(pieces[k]),
        )
}

/// The caller's predicate has to answer before the decision is known.
pub open spec fn awaits_predicate(s: OriginSetting, origin: Option<Seq<u8>>) -> bool {
    &&& origin is Some
    &&& (s is Predicate || s is AsyncPredicate)
}

/// The `Access-Control-Allow-Origin` value for a request with `origin`, given what the
/// caller's predicate answered (read only when `awaits_predicate`); `None` when the
/// origin is not allowed.
pub open spec fn allowed_origin(s: OriginSetting, origin: Option<Seq<u8>>, verdict: bool) -> Option<
    Seq<u8>,
> {
    match s {
        OriginSetting::Const(v) => Some(v),
        OriginSetting::List(l) => match origin {
            Some(o) => if origin_list_matches_spec(l, o) {
                Some(o)
            } else {
                None
            },
            None => None,
        },
        OriginSetting::Predicate | OriginSetting::AsyncPredicate => match origin {
            Some(o) => if verdict {
                Some(o)
            } else {
                None
            },
            None => None,
        },
        OriginSetting::MirrorRequest => origin,
    }
}

/// The `Access-Control-Allow-Origin` pair for `allowed_origin`.
pub open spec fn allow_origin_pair(s: OriginSetting, origin: Option<Seq<u8>>, verdict: bool) -> Option<
    (Seq<u8>, Seq<u8>),
> {
    match allowed_origin(s, origin, verdict) {
        Some(v) => Some((allow_origin_name(), v)),
        None => None,
    }
}

#[derive(Debug)]
enum OriginInner<P, A> {
    Const(HeaderValue),
    List(Vec<HeaderValue>),
    Predicate(P),
    AsyncPredicate(A),
    MirrorRequest,
}

/// Configuration for the `Access-Control-Allow-Origin` header.
///
/// `P` and `A` are the types of the caller's synchronous and asynchronous
/// predicates, which this library stores and hands back but never calls.
#[derive(Debug)]
pub struct AllowOrigin<P, A>(OriginInner<P, A>);

impl<P: Clone, A: Clone> Clone for AllowOrigin<P, A> {
    fn clone(&self) -> (r: Self)
        ensures
            r@ == self@,
    {
        match &self.0 {
            OriginInner::Const(v) => AllowOrigin(OriginInner::Const(v.clone())),
            OriginInner::List(l) => AllowOrigin(OriginInner::List(clone_values(l))),
            OriginInner::Predicate(f) => AllowOrigin(OriginInner::Predicate(f.clone())),
            OriginInner::AsyncPredicate(f) => AllowOrigin(OriginInner::AsyncPredicate(f.clone())),
            OriginInner::MirrorRequest => AllowOrigin(OriginInner::MirrorRequest),
        }
    }
}

impl<P, A> View for AllowOrigin<P, A> {
    type V = OriginSetting;

    closed spec fn view(&self) -> OriginSetting {
        match self.0 {
            OriginInner::Const(v) => OriginSetting::Const(v@),
            OriginInner::List(l) => OriginSetting::List(value_views(l@)),
            OriginInner::Predicate(_) => OriginSetting::Predicate,
            OriginInner::AsyncPredicate(_) => OriginSetting::AsyncPredicate,
            OriginInner::MirrorRequest => OriginSetting::MirrorRequest,
        }
    }
}

impl<P, A> AllowOrigin<P, A> {
    /// Allows any origin by responding with `*`.
    pub fn any() -> (r: Self)
        ensures
            r@ == OriginSetting::Const(wildcard_bytes()),
    {
        AllowOrigin(OriginInner::Const(wildcard()))
    }

    /// Allows a single, fixed origin. The wildcard (`*`) is configured with `any`.
    pub fn exact(origin: HeaderValue) -> (r: Self)
        requires
            origin@ != wildcard_bytes(),
        ensures
            r@ == OriginSetting::Const(origin@),
    {
        AllowOrigin(OriginInner::Const(origin))
    }

    /// Allows origins from a list. The response carries the request's `Origin` verbatim if
    /// (and only if) every origin it names appears in the list. The wildcard (`*`) is
    /// configured with `any`.
    pub fn list(origins: Vec<HeaderValue>) -> (r: Self)
        requires
            !value_views(origins@).contains(wildcard_bytes()),
        ensures
            r@ == OriginSetting::List(value_views(origins@)),
    {
        AllowOrigin(OriginInner::List(origins))
    }

    /// Allows origins decided by the synchronous predicate `f`, which receives the
    /// request's `Origin` header and the request.
    pub fn predicate(f: P) -> (r: Self)
        ensures
            r@ == OriginSetting::Predicate,
            r.sync_predicate() == Some(f),
    {
        AllowOrigin(OriginInner::Predicate(f))
    }

    /// Allows origins decided by the asynchronous predicate `f`.
    ///
    /// Use this when the origin decision depends on data that is not already cached in
    /// memory (for example, a database lookup per tenant).
    pub fn async_predicate(f: A) -> (r: Self)
        ensures
            r@ == OriginSetting::AsyncPredicate,
            r.async_predicate_spec() == Some(f),
    {
        AllowOrigin(OriginInner::AsyncPredicate(f))
    }

    /// Always echoes the request's `Origin` header: a predicate that accepts every input.
    pub fn mirror_request() -> (r: Self)
        ensures
            r@ == OriginSetting::MirrorRequest,
    {
        AllowOrigin(OriginInner::MirrorRequest)
    }

    /// The stored synchronous predicate, if any.
    pub closed spec fn sync_predicate(&self) -> Option<P> {
        match self.0 {
            OriginInner::Predicate(f) => Some(f),
            _ => None,
        }
    }

    /// The stored asynchronous predicate, if any.
    pub closed spec fn async_predicate_spec(&self) -> Option<A> {
        match self.0 {
            OriginInner::AsyncPredicate(f) => Some(f),
            _ => None,
        }
    }

    /// The stored synchronous predicate, for the caller to evaluate.
    pub fn as_predicate(&self) -> (r: Option<&P>)
        ensures
            r is Some <==> self@ == OriginSetting::Predicate,
            r matches Some(f) ==> self.sync_predicate() == Some(*f),
    {
        match &self.0 {
            OriginInner::Predicate(f) => Some(f),
            _ => None,
        }
    }

    /// The stored asynchronous predicate, for the caller to evaluate.
    pub fn as_async_predicate(&self) -> (r: Option<&A>)
        ensures
            r is Some <==> self@ == OriginSetting::AsyncPredicate,
            r matches Some(f) ==> self.async_predicate_spec() == Some(*f),
    {
        match &self.0 {
            OriginInner::AsyncPredicate(f) => Some(f),
            _ => None,
        }
    }

    /// Returns `true` when this policy responds with the literal `*` (incompatible with
    /// credentials).
    pub fn is_wildcard(&self) -> (r: bool)
        ensures
            r == is_wildcard_origin(self@),
    {
        match &self.0 {
            OriginInner::Const(v) => {
                let star = wildcard();
                bytes_eq(v.as_bytes(), star.as_bytes())
            },
            _ => false,
        }
    }

    /// Starts the origin decision for a request whose `Origin` header is `origin`.
    ///
    /// The result is ready at once for the fixed, list and mirror settings. For the
    /// predicate settings with an `Origin` present it waits for the predicate's answer,
    /// which `AllowOriginFuture::resolve` takes.
    pub fn to_future(&self, origin: Option<&HeaderValue>) -> (r: AllowOriginFuture)
        ensures
            r.has_origin_spec() == (origin is Some),
            r.waits() == awaits_predicate(self@, opt_ref_view(origin)),
            forall|verdict: bool|
                #![trigger r.outcome(verdict)]
                r.outcome(verdict) == allow_origin_pair(self@, opt_ref_view(origin), verdict),
    {
        let has_origin = origin.is_some();
        match &self.0 {
            OriginInner::Const(v) => AllowOriginFuture::ready(
                has_origin,
                Some((HeaderName::access_control_allow_origin(), v.clone())),
            ),
            OriginInner::List(l) => {
                let res = match origin {
                    Some(o) => if origin_list_matches(l.as_slice(), o) {
                        Some((HeaderName::access_control_allow_origin(), o.clone()))
                    } else {
                        None
                    },
                    None => None,
                };
                AllowOriginFuture::ready(has_origin, res)
            },
            OriginInner::Predicate(_) | OriginInner::AsyncPredicate(_) => match origin {
                Some(o) => AllowOriginFuture::pending(has_origin, o.clone()),
                None => AllowOriginFuture::ready(has_origin, None),
            },
            OriginInner::MirrorRequest => {
                let res = match origin {
                    Some(o) => Some((HeaderName::access_control_allow_origin(), o.clone())),
                    None => None,
                };
                AllowOriginFuture::ready(has_origin, res)
            },
        }
    }
}

impl<P, A> Default for AllowOrigin<P, A> {
    fn default() -> (r: Self)
        ensures
            r@ == OriginSetting::List(Seq::empty()),
    {
        let r = AllowOrigin(OriginInner::List(Vec::new()));
        assert(value_views(Seq::<HeaderValue>::empty()) =~= Seq::<Seq<u8>>::empty());
        r
    }
}

impl<P, A> From<Any> for AllowOrigin<P, A> {
    fn from(any: Any) -> (r: Self)
        ensures
            r@ == OriginSetting::Const(wildcard_bytes()),
    {
        Self::any()
    }
}

impl<P, A> vstd::std_specs::convert::FromSpecImpl<Any> for AllowOrigin<P, A> {
    open spec fn obeys_from_spec() -> bool {
        false
    }

    open spec fn from_spec(any: Any) -> Self {
        arbitrary()
    }
}

/// The contents of an optional borrowed header value.
pub open spec fn opt_ref_view(o: Option<&HeaderValue>) -> Option<Seq<u8>> {
    match o {
        Some(v) => Some(v@),
        None => None,
    }
}

/// Matches a request `Origin` header against an allow-list.
///
/// `Origin` is usually a single serialized origin but may be a space-separated list. Every
/// non-empty entry must appear in `allowed`: accepting a list because one of its entries is
/// allowed would let an attacker smuggle a disallowed origin alongside an allowed one.
pub fn origin_list_matches(allowed: &[HeaderValue], origin: &HeaderValue) -> (r: bool)
    ensures
        r == origin_list_matches_spec(value_views(allowed@), origin@),
{
    let ghost av = value_views(allowed@);
    let pieces = split_on(origin.as_bytes(), 32u8);
    let ghost pv = views(pieces@);
    let mut saw_token = false;
    let mut i: usize = 0;
    while i < pieces.len()
        invariant
            i <= pieces.len(),
            pv == views(pieces@),
            pv == split(origin@, 32u8),
            av == value_views(allowed@),
            saw_token <==> exists|k: int| 0 <= k < i && trim(#[trigger] pv[k]).len() > 0,
            forall|k: int|
                0 <= k < i && trim(#[trigger] pv[k]).len() > 0 ==> av.contains(trim(pv[k])),
        decreases pieces.len() - i,
    {
        let token = trim_ascii(pieces[i].as_slice());
        assert(pv[i as int] == pieces@[i as int]@);
        if token.len() == 0 {
            i += 1;
            continue;
        }
        saw_token = true;
        let mut found = false;
        let mut j: usize = 0;
        while j < allowed.len()
            invariant
                j <= allowed.len(),
                av == value_views(allowed@),
                found <==> exists|m: int| 0 <= m < j && #[trigger] av[m] == token@,
            decreases allowed.len() - j,
        {
            assert(av[j as int] == allowed@[j as int]@);
            if bytes_eq(allowed[j].as_bytes(), token.as_slice()) {
                found = true;
            }
            j += 1;
        }
        if !found {
            proof {
                assert(!av.contains(token@));
            }
            return false;
        }
        proof {
            let m = choose|m: int| 0 <= m < allowed.len() && #[trigger] av[m] == token@;
            assert(av.contains(token@));
        }
        i += 1;
    }
    assert(pv.len() == pieces.len());
    saw_token
}

/// Where the origin decision stands for one request.
///
/// `Ready` for the fixed, list and mirror settings; waiting for the caller's predicate
/// for the predicate settings. `has_origin` records whether the request had an `Origin`
/// header at all.
#[derive(Debug)]
pub struct AllowOriginFuture {
    has_origin: bool,
    state: AllowOriginFutureState,
}

#[derive(Debug)]
enum AllowOriginFutureState {
    Ready { res: Option<(HeaderName, HeaderValue)> },
    Pending { origin: HeaderValue },
}

impl AllowOriginFuture {
    /// Whether the request had an `Origin` header.
    pub closed spec fn has_origin_spec(&self) -> bool {
        self.has_origin
    }

    /// Whether the decision waits for the caller's predicate.
    pub closed spec fn waits(&self) -> bool {
        self.state is Pending
    }

    /// The `Access-Control-Allow-Origin` pair once the predicate has answered `verdict`
    /// (which is ignored when nothing waits for it).
    pub closed spec fn outcome(&self, verdict: bool) -> Option<(Seq<u8>, Seq<u8>)> {
        match self.state {
            AllowOriginFutureState::Ready { res } => opt_pair_view(res),
            AllowOriginFutureState::Pending { origin } => if verdict {
                Some((allow_origin_name(), origin@))
            } else {
                None
            },
        }
    }

    fn ready(has_origin: bool, res: Option<(HeaderName, HeaderValue)>) -> (r: Self)
        ensures
            r.has_origin_spec() == has_origin,
            !r.waits(),
            forall|verdict: bool| #![trigger r.outcome(verdict)] r.outcome(verdict) == opt_pair_view(res),
    {
        AllowOriginFuture { has_origin, state: AllowOriginFutureState::Ready { res } }
    }

    fn pending(has_origin: bool, origin: HeaderValue) -> (r: Self)
        ensures
            r.has_origin_spec() == has_origin,
            r.waits(),
            forall|verdict: bool|
                #![trigger r.outcome(verdict)]
                r.outcome(verdict) == if verdict {
                    Some((allow_origin_name(), origin@))
                } else {
                    None
                },
    {
        AllowOriginFuture { has_origin, state: AllowOriginFutureState::Pending { origin } }
    }

    /// Returns `true` if the request carried an `Origin` header (i.e. it was a CORS request).
    pub fn has_origin(&self) -> (r: bool)
        ensures
            r == self.has_origin_spec(),
    {
        self.has_origin
    }

    /// Returns `true` if the decision waits for the caller's predicate.
    pub fn is_pending(&self) -> (r: bool)
        ensures
            r == self.waits(),
    {
        match &self.state {
            AllowOriginFutureState::Pending { .. } => true,
            _ => false,
        }
    }

    /// Whether the decision, when it does not wait for the predicate, allows the origin.
    pub fn is_ready_allowed(&self) -> (r: bool)
        ensures
            !self.waits() ==> (r == (self.outcome(false) is Some)),
    {
        match &self.state {
            AllowOriginFutureState::Ready { res } => res.is_some(),
            _ => false,
        }
    }

    /// The origin the caller's predicate is to be asked about, while the decision waits.
    pub fn pending_origin(&self) -> (r: Option<&HeaderValue>)
        ensures
            r is Some <==> self.waits(),
            r matches Some(o) ==> self.outcome(true) == Some((allow_origin_name(), o@)),
    {
        match &self.state {
            AllowOriginFutureState::Pending { origin } => Some(origin),
            _ => None,
        }
    }

    /// Completes the decision with the predicate's answer `verdict` (ignored when nothing
    /// waits for it): the `Access-Control-Allow-Origin` pair, or `None` if the origin is
    /// not allowed.
    pub fn resolve(self, verdict: bool) -> (r: Option<(HeaderName, HeaderValue)>)
        ensures
            opt_pair_view(r) == self.outcome(verdict),
    {
        match self.state {
            AllowOriginFutureState::Ready { res } => res,
            AllowOriginFutureState::Pending { origin } => if verdict {
                Some((HeaderName::access_control_allow_origin(), origin))
            } else {
                None
            },
        }
    }
}

} // verus!
