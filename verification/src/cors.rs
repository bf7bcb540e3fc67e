//! The `Cors` middleware: how a request is classified, which CORS headers its
//! response carries, and whether it reaches the inner service at all.
//!
//! The decision is a function of the configuration, the request head and the
//! answers of the caller's predicates; the code that runs requests (and awaits the
//! asynchronous predicate) asks the predicates and performs the outcome.

use vstd::prelude::*;

use std::sync::Arc;

use crate::allow_credentials::{credentials_allowed, AllowCredentials, CredentialsSetting};
use crate::allow_headers::{allow_headers_header, AllowHeaders};
use crate::allow_methods::{allow_methods_header, AllowMethods};
use crate::allow_origin::{allow_origin_pair, awaits_predicate, AllowOriginFuture};
use crate::config::{CorsBuilder, CorsConfig};
use crate::expose_headers::ExposeHeaders;
use crate::header::{
    allow_credentials_name, expose_headers_name, max_age_name, method_options, opt_view,
    vary_name, HeaderName, HeaderValue, RequestHead,
};
use crate::header_buf::{opt_pair_seq, HeaderBuf, CAPACITY};
use crate::headers::true_bytes;
use crate::max_age::MaxAge;
use crate::text::{
    all_bytes, bytes_eq, eq_ignore_ascii_case, eq_ignore_case, is_value_byte, is_value_bytes,
    join, lemma_all_bytes_concat, lemma_join_push, lemma_split_all_bytes, lemma_trim_all_bytes,
    push_bytes, split, split_on, trim, trim_ascii, views,
};
use crate::util::value_views;
use crate::vary::comma_space;

verus! {

/// A header pair, as bytes.
pub type PairView = (Seq<u8>, Seq<u8>);

/// `OPTIONS` carrying `Access-Control-Request-Method` (Fetch Sec. 3.1.3).
pub open spec fn is_preflight(head: RequestHead) -> bool {
    head.method@ == method_options() && head.request_method is Some
}

/// The `Vary` pair of the configuration, if any.
pub open spec fn vary_pairs(c: CorsConfig) -> Seq<PairView> {
    match c.vary {
        Some(v) => seq![(vary_name(), v)],
        None => Seq::empty(),
    }
}

/// The `Access-Control-Allow-Credentials` pair, if credentials are allowed.
pub open spec fn credentials_pairs(c: CorsConfig, head: RequestHead, credentials_verdict: bool) -> Seq<
    PairView,
> {
    if credentials_allowed(c.credentials, head.origin is Some, credentials_verdict) {
        seq![(allow_credentials_name(), true_bytes())]
    } else {
        Seq::empty()
    }
}

/// The headers that follow an allowed origin: credentials, then on a preflight the
/// allowed methods, allowed headers and max-age, otherwise the exposed headers.
pub open spec fn lazy_pairs(
    c: CorsConfig,
    head: RequestHead,
    preflight: bool,
    credentials_verdict: bool,
) -> Seq<PairView> {
    credentials_pairs(c, head, credentials_verdict) + if preflight {
        opt_pair_seq(allow_methods_header(c.methods, opt_view(head.request_method)))
            + opt_pair_seq(allow_headers_header(c.headers, opt_view(head.request_headers)))
            + match c.max_age {
            Some(v) => seq![(max_age_name(), v)],
            None => Seq::empty(),
        }
    } else {
        match c.expose {
            Some(v) => seq![(expose_headers_name(), v)],
            None => Seq::empty(),
        }
    }
}

/// What happens to a request.
pub enum OutcomeView {
    /// The middleware answers with an empty response of this status and these headers;
    /// the inner service is not invoked.
    Respond { status: u16, headers: Seq<PairView> },
    /// The request goes to the inner service, and these headers are merged into its
    /// response.
    Forward { headers: Seq<PairView> },
}

/// The outcome for a request with `head` under configuration `c`, given what the
/// origin predicate answered (`origin_verdict`) and what the credentials predicate
/// answered (`credentials_verdict`); each answer is read only where that predicate
/// decides.
pub open spec fn cors_outcome(
    c: CorsConfig,
    head: RequestHead,
    origin_verdict: bool,
    credentials_verdict: bool,
) -> OutcomeView {
    let origin = opt_view(head.origin);
    let has_origin = origin is Some;
    let acao = allow_origin_pair(c.origin, origin, origin_verdict);
    let allowed = acao is Some;
    let common = vary_pairs(c) + opt_pair_seq(acao);
    if is_preflight(head) && !c.deliver_preflight {
        if !allowed && has_origin {
            OutcomeView::Respond {
                status: if c.deliver_non_allowed_origin {
                    200
                } else {
                    c.rejection_status
                },
                headers: common,
            }
        } else {
            // The knob headers answer an allowed origin only; a preflight without
            // `Origin` that no origin setting allows gets `Vary` alone.
            OutcomeView::Respond {
                status: 200,
                headers: if allowed {
                    common + lazy_pairs(c, head, true, credentials_verdict)
                } else {
                    common
                },
            }
        }
    } else {
        let reject_websocket_upgrade = head.websocket_version
            && !c.deliver_non_allowed_origin_websocket_upgrade;
        if !allowed && has_origin && (!c.deliver_non_allowed_origin || reject_websocket_upgrade) {
            OutcomeView::Respond { status: c.rejection_status, headers: common }
        } else {
            OutcomeView::Forward {
                headers: if allowed {
                    common + lazy_pairs(c, head, is_preflight(head), credentials_verdict)
                } else {
                    common
                },
            }
        }
    }
}

/// Whether the credentials predicate decides anything for this request: credentials
/// are set to a predicate, the request has an `Origin`, and that origin is allowed.
pub open spec fn wants_credentials_verdict(
    c: CorsConfig,
    head: RequestHead,
    origin_verdict: bool,
) -> bool {
    &&& c.credentials == CredentialsSetting::Predicate
    &&& head.origin is Some
    &&& allow_origin_pair(c.origin, opt_view(head.origin), origin_verdict) is Some
}

/// What happens to a request, with the headers to send.
#[derive(Debug)]
pub enum Outcome {
    /// Answer with an empty response of this status carrying these headers; the inner
    /// service is not invoked.
    Respond { status: u16, headers: HeaderBuf },
    /// Pass the request to the inner service, then merge these headers into its response.
    Forward { headers: HeaderBuf },
}

/// The contents of an outcome.
pub open spec fn outcome_view(o: Outcome) -> OutcomeView {
    match o {
        Outcome::Respond { status, headers } => OutcomeView::Respond { status, headers: headers@ },
        Outcome::Forward { headers } => OutcomeView::Forward { headers: headers@ },
    }
}

/// CORS middleware: the inner service and the configuration it is wrapped with.
///
/// The configuration sits behind an `Arc`: cloning the middleware (as a server does for
/// every connection) shares it rather than copying it.
#[derive(Debug)]
pub struct Cors<S, P, A> {
    inner: S,
    config: Arc<CorsBuilder<P, A>>,
}

/// Calls `Arc::clone`: a second handle to the same configuration.
///
/// Claimed of std (as its documentation says): the clone points to the same
/// allocation, so it holds the same value.
#[verifier::external_body]
fn share_config<P, A>(config: &Arc<CorsBuilder<P, A>>) -> (r: Arc<CorsBuilder<P, A>>)
    ensures
        *r == **config,
{
    Arc::clone(config)
}

impl<S: Clone, P, A> Clone for Cors<S, P, A> {
    /// A clone of the inner service, sharing the configuration.
    fn clone(&self) -> (r: Self)
        ensures
            r.config_spec() == self.config_spec(),
            cloned(self.inner_spec(), r.inner_spec()),
    {
        Cors { inner: self.inner.clone(), config: share_config(&self.config) }
    }
}

impl<S, P, A> Cors<S, P, A> {
    /// The inner service.
    pub closed spec fn inner_spec(&self) -> S {
        self.inner
    }

    /// The configuration.
    pub closed spec fn config_spec(&self) -> CorsBuilder<P, A> {
        *self.config
    }

    /// Returns a reference to the inner service.
    pub fn inner(&self) -> (r: &S)
        ensures
            *r == self.inner_spec(),
    {
        &self.inner
    }

    /// Returns a mutable reference to the inner service.
    pub fn inner_mut(&mut self) -> (r: &mut S)
        ensures
            *r == old(self).inner_spec(),
            final(self).inner_spec() == *final(r),
            final(self).config_spec() == old(self).config_spec(),
    {
        &mut self.inner
    }

    /// Returns the configured builder.
    pub fn config(&self) -> (r: &CorsBuilder<P, A>)
        ensures
            *r == self.config_spec(),
    {
        &self.config
    }

    pub(crate) fn from_parts(inner: S, config: CorsBuilder<P, A>) -> (r: Self)
        ensures
            r.inner_spec() == inner,
            r.config_spec() == config,
    {
        Self { inner, config: Arc::new(config) }
    }

    /// Starts handling a request with `head`: classifies it, starts the origin
    /// decision and collects the `Vary` header, which every CORS-shaped response
    /// carries regardless of the origin decision.
    pub fn call(&self, head: &RequestHead) -> (r: CorsFuture)
        ensures
            r.made_for(self.config_spec()@, *head),
    {
        let config: &CorsBuilder<P, A> = &self.config;
        proof {
            config.lemma_fields();
        }
        let origin = match &head.origin {
            Some(o) => Some(o.clone()),
            None => None,
        };
        let is_preflight = is_preflight_request(head);
        let is_websocket_upgrade = is_websocket_upgrade_request(head);

        let allow_origin_future = config.allow_origin.to_future(head.origin.as_ref());
        let has_origin = allow_origin_future.has_origin();

        // `Vary` applies to every CORS-shaped response regardless of origin match, so caches
        // don't conflate responses for different origins.
        let mut common_headers = HeaderBuf::new();
        common_headers.push_opt(config.vary.to_header());

        CorsFuture {
            allow_origin_future,
            headers: common_headers,
            short_circuit: is_preflight && !config.deliver_preflight,
            is_preflight,
            has_origin,
            origin,
            deliver_non_allowed_origin: config.deliver_non_allowed_origin,
            rejection_status: config.rejection_status,
            reject_websocket_upgrade: is_websocket_upgrade
                && !config.deliver_non_allowed_origin_websocket_upgrade,
        }
    }
}

/// Returns a new `CorsBuilder` with default settings.
pub fn builder<P, A>() -> (r: CorsBuilder<P, A>)
    ensures
        r@ == crate::config::default_config(),
{
    CorsBuilder::new()
}

/// Returns `true` if `head` is a CORS preflight request (`OPTIONS` carrying
/// `Access-Control-Request-Method`), per Fetch Sec. 3.1.3.
pub fn is_preflight_request(head: &RequestHead) -> (r: bool)
    ensures
        r == is_preflight(*head),
{
    let options = crate::header::Method::options();
    bytes_eq(head.method.as_bytes(), options.as_bytes()) && head.request_method.is_some()
}

/// Returns `true` if `head` is a WebSocket handshake request (carries
/// `Sec-WebSocket-Version`).
///
/// Browsers do not apply CORS to WebSocket handshakes, so these are handled separately; see
/// `CorsBuilder::deliver_non_allowed_origin_websocket_upgrade`.
pub fn is_websocket_upgrade_request(head: &RequestHead) -> (r: bool)
    ensures
        r == head.websocket_version,
{
    head.websocket_version
}

/// CORS configuration knobs whose headers depend on the `allow_origin` decision.
struct LazyHeaders<'a, P> {
    allow_credentials: &'a AllowCredentials<P>,
    allow_methods: &'a AllowMethods,
    allow_headers: &'a AllowHeaders,
    expose_headers: &'a ExposeHeaders,
    max_age: &'a MaxAge,
}

impl<'a, P> LazyHeaders<'a, P> {
    /// These knobs as settings, the rest taken from `c`.
    spec fn settings(&self, c: CorsConfig) -> CorsConfig {
        CorsConfig {
            credentials: self.allow_credentials@,
            methods: self.allow_methods@,
            headers: self.allow_headers@,
            expose: self.expose_headers@,
            max_age: self.max_age@,
            ..c
        }
    }

    /// Appends the CORS headers appropriate for an allowed-origin request into `out`.
    fn compute_into(
        &self,
        out: &mut HeaderBuf,
        head: &RequestHead,
        origin: Option<&HeaderValue>,
        is_preflight: bool,
        credentials_verdict: bool,
    )
        requires
            old(out)@.len() + 4 <= CAPACITY,
            opt_view(head.origin) == match origin {
                Some(o) => Some(o@),
                None => None::<Seq<u8>>,
            },
        ensures
            forall|c: CorsConfig|
                #![trigger self.settings(c)]
                final(out)@ == old(out)@ + lazy_pairs(
                    self.settings(c),
                    *head,
                    is_preflight,
                    credentials_verdict,
                ),
    {
        let ghost start = out@;
        out.push_opt(self.allow_credentials.to_header(origin, credentials_verdict));
        if is_preflight {
            out.push_opt(self.allow_methods.to_header(head));
            out.push_opt(self.allow_headers.to_header(head));
            out.push_opt(self.max_age.to_header(origin, head));
        } else {
            out.push_opt(self.expose_headers.to_header(head));
        }
        proof {
            assert forall|c: CorsConfig|
                #![trigger self.settings(c)]
                out@ == start + lazy_pairs(
                    self.settings(c),
                    *head,
                    is_preflight,
                    credentials_verdict,
                ) by {
                let s = self.settings(c);
                if credentials_allowed(s.credentials, head.origin is Some, credentials_verdict) {
                    assert(credentials_pairs(s, *head, credentials_verdict) =~= seq![
                        (allow_credentials_name(), true_bytes()),
                    ]);
                }
                assert(out@ =~= start + lazy_pairs(s, *head, is_preflight, credentials_verdict));
            }
        }
    }
}

/// A request in flight: its classification, the pending origin decision, and the
/// headers collected so far.
#[derive(Debug)]
pub struct CorsFuture {
    allow_origin_future: AllowOriginFuture,
    headers: HeaderBuf,
    short_circuit: bool,
    is_preflight: bool,
    has_origin: bool,
    origin: Option<HeaderValue>,
    deliver_non_allowed_origin: bool,
    rejection_status: u16,
    reject_websocket_upgrade: bool,
}

impl CorsFuture {
    /// This is the state `Cors::call` starts for a request with `head` under `c`.
    pub closed spec fn made_for(&self, c: CorsConfig, head: RequestHead) -> bool {
        let origin = opt_view(head.origin);
        &&& self.allow_origin_future.has_origin_spec() == (origin is Some)
        &&& self.allow_origin_future.waits() == awaits_predicate(c.origin, origin)
        &&& forall|v: bool|
            #![trigger self.allow_origin_future.outcome(v)]
            self.allow_origin_future.outcome(v) == allow_origin_pair(c.origin, origin, v)
        &&& self.headers@ == vary_pairs(c)
        &&& self.short_circuit == (is_preflight(head) && !c.deliver_preflight)
        &&& self.is_preflight == is_preflight(head)
        &&& self.has_origin == (origin is Some)
        &&& opt_view(self.origin) == origin
        &&& self.deliver_non_allowed_origin == c.deliver_non_allowed_origin
        &&& self.rejection_status == c.rejection_status
        &&& self.reject_websocket_upgrade == (head.websocket_version
            && !c.deliver_non_allowed_origin_websocket_upgrade)
    }

    /// The origin the caller's origin predicate is to be asked about, or `None` when the
    /// origin decision does not wait for a predicate.
    pub fn pending_origin(&self) -> (r: Option<&HeaderValue>)
        ensures
            forall|c: CorsConfig, head: RequestHead|
                #![trigger self.made_for(c, head)]
                self.made_for(c, head) ==> {
                    &&& (r is Some <==> awaits_predicate(c.origin, opt_view(head.origin)))
                    &&& (r matches Some(o) ==> opt_view(head.origin) == Some(o@))
                },
    {
        let r = self.allow_origin_future.pending_origin();
        proof {
            assert forall|c: CorsConfig, head: RequestHead|
                #![trigger self.made_for(c, head)]
                self.made_for(c, head) implies {
                    &&& (r is Some <==> awaits_predicate(c.origin, opt_view(head.origin)))
                    &&& (r matches Some(o) ==> opt_view(head.origin) == Some(o@))
                } by {
                if r is Some {
                    assert(self.allow_origin_future.outcome(true) == allow_origin_pair(
                        c.origin,
                        opt_view(head.origin),
                        true,
                    ));
                }
            }
        }
        r
    }

    /// Whether the caller's credentials predicate decides anything for this request,
    /// once the origin predicate answered `origin_verdict` (ignored when nothing waits
    /// for it).
    pub fn needs_credentials_verdict<P, A>(
        &self,
        config: &CorsBuilder<P, A>,
        head: &RequestHead,
        origin_verdict: bool,
    ) -> (r: bool)
        requires
            self.made_for(config@, *head),
        ensures
            r == wants_credentials_verdict(config@, *head, origin_verdict),
    {
        proof {
            config.lemma_fields();
        }
        let creds = config.allow_credentials.as_predicate().is_some();
        let allowed = match self.allow_origin_future.pending_origin() {
            Some(_) => origin_verdict,
            None => self.allow_origin_future.is_ready_allowed(),
        };
        proof {
            assert(self.allow_origin_future.outcome(origin_verdict) == allow_origin_pair(
                config@.origin,
                opt_view(head.origin),
                origin_verdict,
            ));
            if self.allow_origin_future.waits() {
                assert(self.allow_origin_future.outcome(true) is Some);
            }
        }
        creds && self.has_origin && allowed
    }

    /// Completes the request once the predicates have answered: `origin_verdict` from
    /// the origin predicate and `credentials_verdict` from the credentials predicate,
    /// each read only where that predicate decides.
    pub fn poll<P, A>(
        self,
        config: &CorsBuilder<P, A>,
        head: &RequestHead,
        origin_verdict: bool,
        credentials_verdict: bool,
    ) -> (r: Outcome)
        requires
            self.made_for(config@, *head),
        ensures
            outcome_view(r) == cors_outcome(config@, *head, origin_verdict, credentials_verdict),
    {
        proof {
            config.lemma_fields();
        }
        let ghost c = config@;
        let CorsFuture {
            allow_origin_future,
            mut headers,
            short_circuit,
            is_preflight,
            has_origin,
            origin,
            deliver_non_allowed_origin,
            rejection_status,
            reject_websocket_upgrade,
        } = self;
        let ghost acao = allow_origin_pair(c.origin, opt_view(head.origin), origin_verdict);
        let ghost common = vary_pairs(c) + opt_pair_seq(acao);
        assert(allow_origin_future.outcome(origin_verdict) == acao);
        let origin_allowed = match allow_origin_future.resolve(origin_verdict) {
            Some(pair) => {
                headers.push(pair);
                true
            },
            None => false,
        };
        assert(headers@ =~= common);
        let lazy = LazyHeaders {
            allow_credentials: &config.allow_credentials,
            allow_methods: &config.allow_methods,
            allow_headers: &config.allow_headers,
            expose_headers: &config.expose_headers,
            max_age: &config.max_age,
        };
        assert(lazy.settings(c) =~= c);
        if short_circuit {
            if !origin_allowed && has_origin {
                let status = if deliver_non_allowed_origin {
                    200
                } else {
                    rejection_status
                };
                return Outcome::Respond { status, headers };
            }
            if origin_allowed {
                lazy.compute_into(&mut headers, head, origin.as_ref(), true, credentials_verdict);
            }
            return Outcome::Respond { status: 200, headers };
        }
        // Reject when the request has an `Origin` and either `deliver_non_allowed_origin`
        // is off, or this is a WebSocket upgrade and WebSocket upgrades are not exempted.
        // The WebSocket case applies even when ordinary requests are being delivered,
        // because browsers don't enforce CORS on WebSocket handshakes.
        if !origin_allowed && has_origin && (!deliver_non_allowed_origin
            || reject_websocket_upgrade) {
            // Only `Vary` (already in `headers`) survives.
            return Outcome::Respond { status: rejection_status, headers };
        }
        // Allowed origin (or non-CORS request). Compute the lazy CORS headers.
        if origin_allowed {
            lazy.compute_into(&mut headers, head, origin.as_ref(), is_preflight, credentials_verdict);
        }
        Outcome::Forward { headers }
    }
}

/// `tok` already appears, up to ASCII case and surrounding whitespace, among the
/// `,`-separated entries of the `Vary` values `existing`.
pub open spec fn already_listed(existing: Seq<Seq<u8>>, tok: Seq<u8>) -> bool {
    exists|i: int, j: int|
        0 <= i < existing.len() && 0 <= j < split(existing[i], 44u8).len() && eq_ignore_case(
            trim(#[trigger] split(existing[i], 44u8)[j]),
            tok,
        )
}

/// The trimmed, non-empty entries of `pieces` that `existing` does not list yet, in order.
pub open spec fn fresh_tokens(existing: Seq<Seq<u8>>, pieces: Seq<Seq<u8>>) -> Seq<Seq<u8>>
    decreases pieces.len(),
{
    if pieces.len() == 0 {
        Seq::<Seq<u8>>::empty()
    } else {
        let rest = fresh_tokens(existing, pieces.drop_last());
        let t = trim(pieces.last());
        if t.len() > 0 && !already_listed(existing, t) {
            rest.push(t)
        } else {
            rest
        }
    }
}

/// The `Vary` value to append to a response whose `Vary` values are `existing`: `value`
/// as it is when there are none, else its entries not listed yet joined by `, `, and
/// `None` when every entry is listed already.
pub open spec fn deduped_vary(existing: Seq<Seq<u8>>, value: Seq<u8>) -> Option<Seq<u8>> {
    if existing.len() == 0 {
        Some(value)
    } else {
        let ts = fresh_tokens(existing, split(value, 44u8));
        if ts.len() == 0 {
            None
        } else {
            Some(join(ts, comma_space()))
        }
    }
}

/// Returns `true` if `tok` is among the entries of the `Vary` values `target`.
fn already_listed_in(target: &[HeaderValue], tok: &[u8]) -> (r: bool)
    ensures
        r == already_listed(value_views(target@), tok@),
{
    let ghost tv = value_views(target@);
    let mut i: usize = 0;
    while i < target.len()
        invariant
            i <= target.len(),
            tv == value_views(target@),
            forall|a: int, b: int|
                0 <= a < i && 0 <= b < split(tv[a], 44u8).len() ==> !eq_ignore_case(
                    trim(#[trigger] split(tv[a], 44u8)[b]),
                    tok@,
                ),
        decreases target.len() - i,
    {
        let entries = split_on(target[i].as_bytes(), 44u8);
        let ghost ev = views(entries@);
        assert(tv[i as int] == target@[i as int]@);
        let mut j: usize = 0;
        while j < entries.len()
            invariant
                j <= entries.len(),
                i < target.len(),
                tv == value_views(target@),
                ev == views(entries@),
                ev == split(tv[i as int], 44u8),
                forall|b: int|
                    0 <= b < j ==> !eq_ignore_case(
                        trim(#[trigger] split(tv[i as int], 44u8)[b]),
                        tok@,
                    ),
            decreases entries.len() - j,
        {
            let e = trim_ascii(entries[j].as_slice());
            assert(ev[j as int] == entries@[j as int]@);
            if eq_ignore_ascii_case(e.as_slice(), tok) {
                assert(eq_ignore_case(trim(split(tv[i as int], 44u8)[j as int]), tok@));
                return true;
            }
            j += 1;
        }
        i += 1;
    }
    false
}

/// Returns `value` with tokens already present in `target` (the `Vary` values of the
/// response) removed, or `None` when every token is already covered.
pub fn dedup_vary(target: &[HeaderValue], value: &HeaderValue) -> (r: Option<HeaderValue>)
    ensures
        opt_view(r) == deduped_vary(value_views(target@), value@),
{
    // Fast path: nothing to deduplicate against.
    if target.len() == 0 {
        return Some(value.clone());
    }
    let ghost tv = value_views(target@);
    let bytes = value.as_bytes();
    let pieces = split_on(bytes, 44u8);
    let ghost pv = views(pieces@);
    proof {
        lemma_split_all_bytes(bytes@, 44u8, |b: u8| is_value_byte(b));
    }
    let mut out: Vec<u8> = Vec::new();
    let mut i: usize = 0;
    while i < pieces.len()
        invariant
            i <= pieces.len(),
            tv == value_views(target@),
            tv.len() > 0,
            pv == views(pieces@),
            pv == split(value@, 44u8),
            forall|j: int|
                0 <= j < pv.len() ==> all_bytes(#[trigger] pv[j], |b: u8| is_value_byte(b)),
            out@ == join(fresh_tokens(tv, pv.take(i as int)), comma_space()),
            out@.len() == 0 <==> fresh_tokens(tv, pv.take(i as int)).len() == 0,
            is_value_bytes(out@),
        decreases pieces.len() - i,
    {
        let tok = trim_ascii(pieces[i].as_slice());
        proof {
            assert(pv.take(i as int + 1).drop_last() =~= pv.take(i as int));
            assert(pv.take(i as int + 1).last() == pieces@[i as int]@);
            assert(pv[i as int] == pieces@[i as int]@);
        }
        if tok.len() == 0 || already_listed_in(target, tok.as_slice()) {
            i += 1;
            continue;
        }
        let ghost before = out@;
        let ghost ts = fresh_tokens(tv, pv.take(i as int));
        if out.len() != 0 {
            out.push(44u8);
            out.push(32u8);
        }
        push_bytes(&mut out, tok.as_slice());
        proof {
            let q = |b: u8| is_value_byte(b);
            lemma_trim_all_bytes(pv[i as int], q);
            lemma_join_push(ts, tok@, comma_space());
            if before.len() != 0 {
                assert(all_bytes(comma_space(), q)) by {
                    assert(q(comma_space()[0]));
                    assert(q(comma_space()[1]));
                }
                assert(out@ =~= before + comma_space() + tok@);
                lemma_all_bytes_concat(before, comma_space(), q);
                lemma_all_bytes_concat(before + comma_space(), tok@, q);
            } else {
                assert(out@ =~= tok@);
            }
        }
        i += 1;
    }
    assert(pv.take(pieces.len() as int) =~= pv);
    if out.len() == 0 {
        return None;
    }
    Some(HeaderValue::from_valid(out))
}

/// One change to the response's headers: `append` adds a value beside those present,
/// otherwise the value replaces every value of that name.
#[derive(Debug)]
pub struct HeaderOp {
    /// The header name.
    pub name: HeaderName,
    /// The value to set or add.
    pub value: HeaderValue,
    /// Whether to append rather than replace.
    pub append: bool,
}

/// The contents of a sequence of header changes.
pub open spec fn op_views(ops: Seq<HeaderOp>) -> Seq<(Seq<u8>, Seq<u8>, bool)> {
    Seq::new(ops.len(), |i: int| (ops[i].name@, ops[i].value@, ops[i].append))
}

/// The changes that merge `pairs` into a response whose `Vary` values are `vary`, in
/// order: a `Vary` pair is appended with the entries the response does not list yet
/// (and dropped when it lists them all), every other pair replaces its header.
pub open spec fn merge_ops(vary: Seq<Seq<u8>>, pairs: Seq<PairView>) -> Seq<(Seq<u8>, Seq<u8>, bool)>
    decreases pairs.len(),
{
    if pairs.len() == 0 {
        Seq::empty()
    } else {
        let name = pairs[0].0;
        let value = pairs[0].1;
        let rest = pairs.drop_first();
        if name == vary_name() {
            match deduped_vary(vary, value) {
                Some(d) => seq![(name, d, true)] + merge_ops(vary.push(d), rest),
                None => merge_ops(vary, rest),
            }
        } else {
            seq![(name, value, false)] + merge_ops(vary, rest)
        }
    }
}

/// The changes that merge `headers` into a response whose `Vary` values are
/// `target_vary`, *appending* any `Vary` value (so an inner service's `Vary` is not
/// clobbered) and overwriting the rest.
///
/// `Vary` tokens already present on the response are skipped so an inner service that itself
/// emits e.g. `Vary: Origin` does not end up with a redundant duplicate.
pub fn merge_headers(target_vary: &[HeaderValue], headers: &HeaderBuf) -> (r: Vec<HeaderOp>)
    ensures
        op_views(r@) == merge_ops(value_views(target_vary@), headers@),
{
    let mut vary: Vec<HeaderValue> = Vec::new();
    let mut k: usize = 0;
    while k < target_vary.len()
        invariant
            k <= target_vary.len(),
            value_views(vary@) == value_views(target_vary@).take(k as int),
        decreases target_vary.len() - k,
    {
        let ghost before = value_views(vary@);
        vary.push(target_vary[k].clone());
        assert(value_views(vary@) =~= before.push(target_vary@[k as int]@));
        assert(value_views(target_vary@).take(k as int + 1) =~= value_views(target_vary@).take(
            k as int,
        ).push(target_vary@[k as int]@));
        k += 1;
    }
    assert(value_views(target_vary@).take(target_vary.len() as int) =~= value_views(
        target_vary@,
    ));
    let pairs = headers.pairs();
    let ghost pv = headers@;
    let vary_header = HeaderName::vary();
    let mut ops: Vec<HeaderOp> = Vec::new();
    let mut i: usize = 0;
    assert(pv.skip(0) =~= pv);
    while i < pairs.len()
        invariant
            i <= pairs.len(),
            pv == headers@,
            crate::header_buf::pair_views(pairs@) == pv,
            vary_header@ == vary_name(),
            merge_ops(value_views(target_vary@), pv) == op_views(ops@) + merge_ops(
                value_views(vary@),
                pv.skip(i as int),
            ),
        decreases pairs.len() - i,
    {
        let (name, value) = &pairs[i];
        let ghost rest = pv.skip(i as int);
        let ghost before = op_views(ops@);
        proof {
            assert(rest[0] == (name@, value@));
            assert(rest.drop_first() =~= pv.skip(i as int + 1));
        }
        if name.same_as(&vary_header) {
            match dedup_vary(vary.as_slice(), value) {
                Some(d) => {
                    let ghost dv = d@;
                    let ghost vv = value_views(vary@);
                    vary.push(d.clone());
                    ops.push(HeaderOp { name: name.clone(), value: d, append: true });
                    proof {
                        assert(value_views(vary@) =~= vv.push(dv));
                        assert(op_views(ops@) =~= before + seq![(name@, dv, true)]);
                    }
                },
                None => {},
            }
        } else {
            ops.push(HeaderOp { name: name.clone(), value: value.clone(), append: false });
            assert(op_views(ops@) =~= before + seq![(name@, value@, false)]);
        }
        i += 1;
    }
    assert(pv.skip(pairs.len() as int) =~= Seq::<PairView>::empty());
    assert(op_views(ops@) + Seq::<(Seq<u8>, Seq<u8>, bool)>::empty() =~= op_views(ops@));
    ops
}

} // verus!
