//! Properties of the library as a whole, stated over the specifications its
//! functions' contracts use and proved from them.

use vstd::prelude::*;

use crate::allow_credentials::CredentialsSetting;
use crate::allow_headers::{kept_tokens, lemma_all_tokens_kept, sanitized};
use crate::allow_origin::{allow_origin_pair, allowed_origin, origin_list_matches_spec, OriginSetting};
use crate::config::{derived_vary_names, first_conflict, with_updated_vary, CorsConfig};
use crate::cors::{
    already_listed, cors_outcome, credentials_pairs, deduped_vary, fresh_tokens, is_preflight,
    lazy_pairs, merge_ops, vary_pairs, OutcomeView, PairView,
};
use crate::header::{
    allow_credentials_name, allow_headers_name, allow_methods_name, allow_origin_name,
    expose_headers_name, max_age_name, method_connect, method_delete, method_get, method_head,
    method_options, method_patch, method_post, method_put, method_trace, opt_view, origin_name,
    request_headers_name, request_method_name, vary_name, RequestHead,
};
use crate::header_buf::opt_pair_seq;
use crate::text::{
    free_of, is_ascii_ws, is_tchar, is_token, join, lemma_join_comma_space, lemma_join_push,
    lemma_join_split, lemma_split_free_of, lemma_split_join, lemma_split_nonempty,
    lemma_token_free_of, lemma_trim_ends, lemma_trim_free_of, lemma_trim_space_led, space_led,
    split, trim,
};
use crate::util::{comma, comma_list};
use crate::vary::comma_space;

verus! {

/// The headers of an outcome.
pub open spec fn outcome_headers(o: OutcomeView) -> Seq<PairView> {
    match o {
        OutcomeView::Respond { headers, .. } => headers,
        OutcomeView::Forward { headers } => headers,
    }
}

/// No pair of `hs` is named `name`.
pub open spec fn lacks_header(hs: Seq<PairView>, name: Seq<u8>) -> bool {
    forall|k: int| 0 <= k < hs.len() ==> (#[trigger] hs[k]).0 != name
}

/// A join starts with its first piece.
pub proof fn lemma_join_starts_with_first(parts: Seq<Seq<u8>>, sep: Seq<u8>)
    requires
        parts.len() > 0,
    ensures
        join(parts, sep).len() >= parts[0].len(),
        join(parts, sep).subrange(0, parts[0].len() as int) == parts[0],
    decreases parts.len(),
{
    if parts.len() > 1 {
        let q = parts.drop_last();
        lemma_join_starts_with_first(q, sep);
        assert(q[0] == parts[0]);
        let a = join(q, sep);
        assert((a + sep + parts.last()).subrange(0, parts[0].len() as int) =~= a.subrange(
            0,
            parts[0].len() as int,
        ));
    }
}

/// Building never fails unless credentials are always allowed: `try_build` reports,
/// and `build` refuses, exactly the configurations that pair
/// `Access-Control-Allow-Credentials: true` with a wildcard origin, method list, header
/// list or exposed-header list.
pub proof fn law_only_credentials_with_wildcards_conflict(c: CorsConfig)
    ensures
        first_conflict(c) is Some <==> (c.credentials == CredentialsSetting::Yes && (
        crate::allow_origin::is_wildcard_origin(c.origin) || crate::allow_methods::is_wildcard_setting(
            c.methods,
        ) || crate::allow_methods::is_wildcard_setting(c.headers) || c.expose == Some(
            crate::headers::wildcard_bytes(),
        ))),
{
}

/// Unless `Vary` was pinned, the built middleware's `Vary` lists `Origin` first: caches
/// must not serve one origin's response to another, whatever the origin policy.
pub proof fn law_derived_vary_starts_with_origin(c: CorsConfig)
    requires
        !c.vary_pinned,
    ensures
        with_updated_vary(c).vary matches Some(v) && v.len() >= origin_name().len() && v.subrange(
            0,
            origin_name().len() as int,
        ) == origin_name(),
{
    let names = derived_vary_names(c.methods, c.headers);
    assert(names[0] == origin_name());
    lemma_join_starts_with_first(names, comma_space());
}

/// A request whose origin is not allowed (a disallowed `Origin`, or none that the
/// origin setting answers) gets no CORS header but `Vary`, whether it is rejected,
/// answered as a preflight, or delivered: none of the six `Access-Control-*` response
/// headers.
pub proof fn law_not_allowed_gets_only_vary(
    c: CorsConfig,
    head: RequestHead,
    origin_verdict: bool,
    credentials_verdict: bool,
)
    requires
        allow_origin_pair(c.origin, opt_view(head.origin), origin_verdict) is None,
    ensures
        ({
            let hs = outcome_headers(cors_outcome(c, head, origin_verdict, credentials_verdict));
            &&& hs == vary_pairs(c)
            &&& lacks_header(hs, allow_origin_name())
            &&& lacks_header(hs, allow_credentials_name())
            &&& lacks_header(hs, allow_methods_name())
            &&& lacks_header(hs, allow_headers_name())
            &&& lacks_header(hs, max_age_name())
            &&& lacks_header(hs, expose_headers_name())
        }),
{
    assert(vary_pairs(c) + opt_pair_seq(None) =~= vary_pairs(c));
    assert(vary_name().len() == 4);
    assert(allow_origin_name().len() == 27);
    assert(allow_credentials_name().len() == 32);
    assert(allow_methods_name().len() == 28);
    assert(allow_headers_name().len() == 28);
    assert(expose_headers_name().len() == 29);
    assert(max_age_name().len() == 22);
}

/// With `deliver_non_allowed_origin(false)`, a cross-origin request whose origin is not
/// allowed never reaches the inner service: it is answered with the rejection status.
pub proof fn law_disallowed_origin_rejected_when_not_delivered(
    c: CorsConfig,
    head: RequestHead,
    origin_verdict: bool,
    credentials_verdict: bool,
)
    requires
        head.origin is Some,
        allow_origin_pair(c.origin, opt_view(head.origin), origin_verdict) is None,
        !c.deliver_non_allowed_origin,
    ensures
        cors_outcome(c, head, origin_verdict, credentials_verdict) matches OutcomeView::Respond {
            status,
            ..
        } && status == c.rejection_status,
{
}

/// A request without `Origin` is not a CORS request and is never rejected: it reaches
/// the inner service, or (a short-circuited preflight) is answered with `200`.
pub proof fn law_no_origin_never_rejected(
    c: CorsConfig,
    head: RequestHead,
    origin_verdict: bool,
    credentials_verdict: bool,
)
    requires
        head.origin is None,
    ensures
        match cors_outcome(c, head, origin_verdict, credentials_verdict) {
            OutcomeView::Forward { .. } => !(is_preflight(head) && !c.deliver_preflight),
            OutcomeView::Respond { status, .. } => status == 200 && is_preflight(head)
                && !c.deliver_preflight,
        },
{
}

/// Preflight requests are short-circuited unless `deliver_preflight` is set: the inner
/// service never sees them, and with it set they are delivered like other requests.
pub proof fn law_preflight_short_circuited(
    c: CorsConfig,
    head: RequestHead,
    origin_verdict: bool,
    credentials_verdict: bool,
)
    requires
        is_preflight(head),
    ensures
        !c.deliver_preflight ==> cors_outcome(
            c,
            head,
            origin_verdict,
            credentials_verdict,
        ) is Respond,
{
}

/// A WebSocket upgrade from a disallowed origin is rejected unless upgrades are opted
/// into delivery, even when ordinary disallowed requests are delivered.
pub proof fn law_disallowed_websocket_upgrade_rejected(
    c: CorsConfig,
    head: RequestHead,
    origin_verdict: bool,
    credentials_verdict: bool,
)
    requires
        head.websocket_version,
        !is_preflight(head),
        head.origin is Some,
        allow_origin_pair(c.origin, opt_view(head.origin), origin_verdict) is None,
        !c.deliver_non_allowed_origin_websocket_upgrade,
    ensures
        cors_outcome(c, head, origin_verdict, credentials_verdict) matches OutcomeView::Respond {
            status,
            ..
        } && status == c.rejection_status,
{
}

/// Only a preflight carries `Access-Control-Max-Age`, `Access-Control-Allow-Methods`
/// and `Access-Control-Allow-Headers`; only a request that is not a preflight carries
/// `Access-Control-Expose-Headers`.
pub proof fn law_preflight_only_headers(
    c: CorsConfig,
    head: RequestHead,
    origin_verdict: bool,
    credentials_verdict: bool,
)
    ensures
        !is_preflight(head) ==> {
            let hs = outcome_headers(cors_outcome(c, head, origin_verdict, credentials_verdict));
            &&& lacks_header(hs, max_age_name())
            &&& lacks_header(hs, allow_methods_name())
            &&& lacks_header(hs, allow_headers_name())
        },
        is_preflight(head) ==> lacks_header(
            outcome_headers(cors_outcome(c, head, origin_verdict, credentials_verdict)),
            expose_headers_name(),
        ),
{
    let origin = opt_view(head.origin);
    let acao = allow_origin_pair(c.origin, origin, origin_verdict);
    let common = vary_pairs(c) + opt_pair_seq(acao);
    let hs = outcome_headers(cors_outcome(c, head, origin_verdict, credentials_verdict));
    let creds = credentials_pairs(c, head, credentials_verdict);
    assert(vary_name().len() == 4);
    assert(allow_origin_name().len() == 27);
    assert(allow_credentials_name().len() == 32);
    assert(allow_methods_name().len() == 28);
    assert(allow_headers_name().len() == 28);
    assert(expose_headers_name().len() == 29);
    assert(max_age_name().len() == 22);
    assert(allow_methods_name() != allow_headers_name()) by {
        assert(allow_methods_name()[21] != allow_headers_name()[21]);
    }
    assert forall|k: int| 0 <= k < common.len() implies {
        let n = (#[trigger] common[k]).0;
        n == vary_name() || n == allow_origin_name()
    } by {
        if k < vary_pairs(c).len() {
            assert(common[k] == vary_pairs(c)[k]);
        } else {
            assert(common[k] == opt_pair_seq(acao)[k - vary_pairs(c).len()]);
        }
    }
    assert forall|k: int| 0 <= k < creds.len() implies (#[trigger] creds[k]).0
        == allow_credentials_name() by {}
    if !is_preflight(head) {
        let l = lazy_pairs(c, head, false, credentials_verdict);
        let ex = match c.expose {
            Some(v) => seq![(expose_headers_name(), v)],
            None => Seq::<PairView>::empty(),
        };
        assert(l == creds + ex);
        assert forall|k: int| 0 <= k < hs.len() implies {
            let n = (#[trigger] hs[k]).0;
            n == vary_name() || n == allow_origin_name() || n == allow_credentials_name() || n
                == expose_headers_name()
        } by {
            if hs == common + l {
                if k < common.len() {
                    assert(hs[k] == common[k]);
                } else if k < common.len() + creds.len() {
                    assert(hs[k] == creds[k - common.len()]);
                } else {
                    assert(hs[k] == ex[k - common.len() - creds.len()]);
                }
            } else {
                assert(hs == common);
            }
        }
    } else {
        let l = lazy_pairs(c, head, true, credentials_verdict);
        assert forall|k: int| 0 <= k < hs.len() implies (#[trigger] hs[k]).0
            != expose_headers_name() by {
            if hs == common + l && k >= common.len() {
                let rest = l.subrange(creds.len() as int, l.len() as int);
                if k < common.len() + creds.len() {
                    assert(hs[k] == creds[k - common.len()]);
                } else {
                    assert(hs[k] == l[k - common.len()]);
                    let m = crate::allow_methods::allow_methods_header(
                        c.methods,
                        opt_view(head.request_method),
                    );
                    let h = crate::allow_headers::allow_headers_header(
                        c.headers,
                        opt_view(head.request_headers),
                    );
                    let ma = match c.max_age {
                        Some(v) => seq![(max_age_name(), v)],
                        None => Seq::<PairView>::empty(),
                    };
                    let tail = opt_pair_seq(m) + opt_pair_seq(h) + ma;
                    assert(l == creds + tail);
                    let i = k - common.len() - creds.len();
                    assert(hs[k] == tail[i]);
                    if i < opt_pair_seq(m).len() {
                        assert(tail[i] == opt_pair_seq(m)[i]);
                    } else if i < opt_pair_seq(m).len() + opt_pair_seq(h).len() {
                        assert(tail[i] == opt_pair_seq(h)[i - opt_pair_seq(m).len()]);
                    } else {
                        assert(tail[i] == ma[i - opt_pair_seq(m).len() - opt_pair_seq(h).len()]);
                    }
                }
            } else if hs == common + l {
                assert(hs[k] == common[k]);
            } else {
                assert(hs == common);
                assert(hs[k] == common[k]);
            }
        }
    }
}

/// A request without `Origin` is not a CORS request and never carries
/// `Access-Control-Allow-Credentials`, whatever the credentials setting.
pub proof fn law_no_credentials_without_origin(
    c: CorsConfig,
    head: RequestHead,
    origin_verdict: bool,
    credentials_verdict: bool,
)
    requires
        head.origin is None,
    ensures
        lacks_header(
            outcome_headers(cors_outcome(c, head, origin_verdict, credentials_verdict)),
            allow_credentials_name(),
        ),
{
    let origin = opt_view(head.origin);
    let acao = allow_origin_pair(c.origin, origin, origin_verdict);
    let common = vary_pairs(c) + opt_pair_seq(acao);
    let hs = outcome_headers(cors_outcome(c, head, origin_verdict, credentials_verdict));
    assert(credentials_pairs(c, head, credentials_verdict) =~= Seq::<PairView>::empty());
    assert(vary_name().len() == 4);
    assert(allow_origin_name().len() == 27);
    assert(allow_credentials_name().len() == 32);
    assert(allow_methods_name().len() == 28);
    assert(allow_headers_name().len() == 28);
    assert(expose_headers_name().len() == 29);
    assert(max_age_name().len() == 22);
    assert forall|k: int| 0 <= k < hs.len() implies (#[trigger] hs[k]).0
        != allow_credentials_name() by {
        if k < common.len() {
            if k < vary_pairs(c).len() {
                assert(common[k] == vary_pairs(c)[k]);
            } else {
                assert(common[k] == opt_pair_seq(acao)[k - vary_pairs(c).len()]);
            }
        }
        if hs != common && k >= common.len() {
            let p = is_preflight(head) && !c.deliver_preflight || is_preflight(head);
            let l = lazy_pairs(c, head, p, credentials_verdict);
            assert(hs == common + l);
            assert(hs[k] == l[k - common.len()]);
            if p {
                let m = crate::allow_methods::allow_methods_header(
                    c.methods,
                    opt_view(head.request_method),
                );
                let h = crate::allow_headers::allow_headers_header(
                    c.headers,
                    opt_view(head.request_headers),
                );
                let ma = match c.max_age {
                    Some(v) => seq![(max_age_name(), v)],
                    None => Seq::<PairView>::empty(),
                };
                let tail = opt_pair_seq(m) + opt_pair_seq(h) + ma;
                assert(l =~= tail);
                let i = k - common.len();
                if i < opt_pair_seq(m).len() {
                    assert(tail[i] == opt_pair_seq(m)[i]);
                } else if i < opt_pair_seq(m).len() + opt_pair_seq(h).len() {
                    assert(tail[i] == opt_pair_seq(h)[i - opt_pair_seq(m).len()]);
                } else {
                    assert(tail[i] == ma[i - opt_pair_seq(m).len() - opt_pair_seq(h).len()]);
                }
            }
        } else {
            assert(hs[k] == common[k]);
        }
    }
}

/// An allow-list echoes a request's `Origin` only when every origin the header names
/// is in the list, so a disallowed origin cannot be smuggled beside an allowed one.
pub proof fn law_origin_list_rejects_smuggling(
    l: Seq<Seq<u8>>,
    origin: Seq<u8>,
    verdict: bool,
    k: int,
)
    requires
        0 <= k < split(origin, 32u8).len(),
        trim(split(origin, 32u8)[k]).len() > 0,
        !l.contains(trim(split(origin, 32u8)[k])),
    ensures
        allowed_origin(OriginSetting::List(l), Some(origin), verdict) is None,
{
}

/// Every `,`-separated entry of a mirrored `Access-Control-Allow-Headers` value is a
/// token: nothing of a malformed request header but its valid tokens is reflected.
pub proof fn law_sanitized_entries_are_tokens(raw: Seq<u8>)
    ensures
        sanitized(raw) matches Some(v) ==> {
            &&& split(v, 44u8) == kept_tokens(split(raw, 44u8))
            &&& forall|j: int|
                0 <= j < split(v, 44u8).len() ==> is_token(#[trigger] split(v, 44u8)[j])
        },
{
    let ts = kept_tokens(split(raw, 44u8));
    lemma_kept_are_tokens(split(raw, 44u8));
    if ts.len() > 0 {
        assert forall|j: int| 0 <= j < ts.len() implies crate::text::free_of(
            #[trigger] ts[j],
            44u8,
        ) by {
            lemma_token_free_of(ts[j], 44u8);
        }
        lemma_split_join(ts, 44u8);
        assert(comma() =~= seq![44u8]);
    }
}

proof fn lemma_kept_are_tokens(pieces: Seq<Seq<u8>>)
    ensures
        forall|j: int|
            0 <= j < kept_tokens(pieces).len() ==> is_token(#[trigger] kept_tokens(pieces)[j]),
    decreases pieces.len(),
{
    if pieces.len() > 0 {
        lemma_kept_are_tokens(pieces.drop_last());
        let rest = kept_tokens(pieces.drop_last());
        let t = trim(pieces.last());
        if is_token(t) {
            assert forall|j: int| 0 <= j < rest.push(t).len() implies is_token(
                #[trigger] rest.push(t)[j],
            ) by {
                if j < rest.len() {
                    assert(rest.push(t)[j] == rest[j]);
                }
            }
        }
    }
}

/// Merging never overwrites `Vary`: every change to `Vary` is an append, and every
/// other header is replaced.
pub proof fn law_vary_appended_others_replaced(vary: Seq<Seq<u8>>, pairs: Seq<PairView>)
    ensures
        forall|k: int|
            0 <= k < merge_ops(vary, pairs).len() ==> ((#[trigger] merge_ops(vary, pairs)[k]).2
                <==> merge_ops(vary, pairs)[k].0 == vary_name()),
    decreases pairs.len(),
{
    if pairs.len() > 0 {
        let rest = pairs.drop_first();
        let name = pairs[0].0;
        let value = pairs[0].1;
        law_vary_appended_others_replaced(vary, rest);
        if name == vary_name() {
            match crate::cors::deduped_vary(vary, value) {
                Some(d) => {
                    law_vary_appended_others_replaced(vary.push(d), rest);
                    let tail = merge_ops(vary.push(d), rest);
                    let all = seq![(name, d, true)] + tail;
                    assert forall|k: int| 0 <= k < all.len() implies ((#[trigger] all[k]).2
                        <==> all[k].0 == vary_name()) by {
                        if k > 0 {
                            assert(all[k] == tail[k - 1]);
                        }
                    }
                },
                None => {},
            }
        } else {
            let tail = merge_ops(vary, rest);
            let all = seq![(name, value, false)] + tail;
            assert forall|k: int| 0 <= k < all.len() implies ((#[trigger] all[k]).2 <==> all[k].0
                == vary_name()) by {
                if k > 0 {
                    assert(all[k] == tail[k - 1]);
                }
            }
        }
    }
}

/// The list setting echoes the request's `Origin` verbatim when it matches, and the
/// mirror setting always does.
pub proof fn law_echoed_origin_is_request_origin(
    s: OriginSetting,
    origin: Seq<u8>,
    verdict: bool,
)
    requires
        s is List || s is MirrorRequest || s is Predicate || s is AsyncPredicate,
    ensures
        allowed_origin(s, Some(origin), verdict) matches Some(v) ==> v == origin,
{
}

/// The trimmed `,`-separated entries of a header value.
pub open spec fn entries(v: Seq<u8>) -> Seq<Seq<u8>> {
    Seq::new(split(v, 44u8).len(), |j: int| trim(split(v, 44u8)[j]))
}

proof fn lemma_fresh_tokens_shape(existing: Seq<Seq<u8>>, pieces: Seq<Seq<u8>>)
    requires
        forall|j: int| 0 <= j < pieces.len() ==> free_of(#[trigger] pieces[j], 44u8),
    ensures
        forall|j: int|
            0 <= j < fresh_tokens(existing, pieces).len() ==> {
                let t = #[trigger] fresh_tokens(existing, pieces)[j];
                &&& t.len() > 0
                &&& !is_ascii_ws(t[0])
                &&& !is_ascii_ws(t.last())
                &&& free_of(t, 44u8)
                &&& !already_listed(existing, t)
            },
    decreases pieces.len(),
{
    if pieces.len() > 0 {
        let q = pieces.drop_last();
        assert forall|j: int| 0 <= j < q.len() implies free_of(#[trigger] q[j], 44u8) by {
            assert(q[j] == pieces[j]);
        }
        lemma_fresh_tokens_shape(existing, q);
        let rest = fresh_tokens(existing, q);
        let l = pieces.last();
        let t = trim(l);
        if t.len() > 0 && !already_listed(existing, t) {
            lemma_trim_ends(l);
            assert(free_of(l, 44u8)) by {
                assert(l == pieces[pieces.len() - 1]);
            }
            lemma_trim_free_of(l, 44u8);
            let all = rest.push(t);
            assert forall|j: int| 0 <= j < all.len() implies {
                let u = #[trigger] all[j];
                &&& u.len() > 0
                &&& !is_ascii_ws(u[0])
                &&& !is_ascii_ws(u.last())
                &&& free_of(u, 44u8)
                &&& !already_listed(existing, u)
            } by {
                if j < rest.len() {
                    assert(all[j] == rest[j]);
                }
            }
        }
    }
}

/// Appending `Vary` never repeats what the response lists already: the entries of the
/// appended value are exactly the non-empty entries of the CORS value, trimmed, that no
/// `Vary` value of the response lists (up to ASCII case), in their order.
pub proof fn law_appended_vary_lists_only_new_entries(existing: Seq<Seq<u8>>, value: Seq<u8>)
    requires
        existing.len() > 0,
    ensures
        deduped_vary(existing, value) matches Some(d) ==> {
            &&& entries(d) == fresh_tokens(existing, split(value, 44u8))
            &&& forall|j: int|
                0 <= j < entries(d).len() ==> (#[trigger] entries(d)[j]).len() > 0
                    && !already_listed(existing, entries(d)[j])
        },
{
    let ts = fresh_tokens(existing, split(value, 44u8));
    lemma_split_free_of(value, 44u8);
    lemma_fresh_tokens_shape(existing, split(value, 44u8));
    if ts.len() > 0 {
        let d = join(ts, comma_space());
        assert(comma_space() =~= seq![44u8, 32u8]);
        lemma_join_comma_space(ts);
        let sl = space_led(ts);
        assert forall|j: int| 0 <= j < sl.len() implies free_of(#[trigger] sl[j], 44u8) by {
            assert(free_of(ts[j], 44u8));
            if j > 0 {
                assert forall|k: int| 0 <= k < sl[j].len() implies sl[j][k] != 44u8 by {
                    if k > 0 {
                        assert(sl[j][k] == ts[j][k - 1]);
                    }
                }
            }
        }
        lemma_split_join(sl, 44u8);
        assert forall|j: int| 0 <= j < sl.len() implies trim(#[trigger] sl[j]) == ts[j] by {
            lemma_trim_space_led(ts[j]);
        }
        assert(entries(d) =~= ts);
    }
}

/// Every response the middleware shapes starts with its `Vary` header, whatever the
/// origin decision: caches must not conflate responses for different origins.
pub proof fn law_vary_on_every_response(
    c: CorsConfig,
    head: RequestHead,
    origin_verdict: bool,
    credentials_verdict: bool,
)
    ensures
        ({
            let hs = outcome_headers(cors_outcome(c, head, origin_verdict, credentials_verdict));
            hs.len() >= vary_pairs(c).len() && hs.subrange(0, vary_pairs(c).len() as int)
                == vary_pairs(c)
        }),
{
    let origin = opt_view(head.origin);
    let acao = allow_origin_pair(c.origin, origin, origin_verdict);
    let common = vary_pairs(c) + opt_pair_seq(acao);
    let hs = outcome_headers(cors_outcome(c, head, origin_verdict, credentials_verdict));
    let n = vary_pairs(c).len() as int;
    assert(common.subrange(0, n) =~= vary_pairs(c));
    if hs != common {
        let p = is_preflight(head);
        let l = lazy_pairs(c, head, p, credentials_verdict);
        assert(hs == common + l);
        assert((common + l).subrange(0, n) =~= vary_pairs(c));
    }
}

/// Mirroring the request's `Origin` answers exactly as a predicate that accepts every
/// origin would.
pub proof fn law_mirror_request_is_accept_all_predicate(origin: Option<Seq<u8>>, verdict: bool)
    ensures
        allowed_origin(OriginSetting::MirrorRequest, origin, verdict) == allowed_origin(
            OriginSetting::Predicate,
            origin,
            true,
        ),
{
}

/// A mirrored `Access-Control-Allow-Methods` is the request's
/// `Access-Control-Request-Method` itself, and is sent only when that is a token.
pub proof fn law_mirrored_method_is_request_token(request_method: Option<Seq<u8>>)
    ensures
        crate::allow_methods::allow_methods_header(
            crate::allow_methods::ValueSetting::MirrorRequest,
            request_method,
        ) matches Some(p) ==> request_method == Some(p.1) && is_token(p.1),
        (request_method matches Some(m) && is_token(m)) ==> crate::allow_methods::allow_methods_header(
            crate::allow_methods::ValueSetting::MirrorRequest,
            request_method,
        ) is Some,
{
}

/// A `Vary` pinned by hand survives building unchanged; only an unpinned one is derived.
pub proof fn law_pinned_vary_is_kept(c: CorsConfig)
    requires
        c.vary_pinned,
    ensures
        with_updated_vary(c) == c,
{
}

/// With `deliver_preflight`, a preflight from an allowed origin reaches the inner
/// service, and its response gets the preflight headers (allowed methods, allowed
/// headers, max-age), not the exposed headers.
pub proof fn law_delivered_preflight_gets_preflight_headers(
    c: CorsConfig,
    head: RequestHead,
    origin_verdict: bool,
    credentials_verdict: bool,
)
    requires
        c.deliver_preflight,
        is_preflight(head),
        allow_origin_pair(c.origin, opt_view(head.origin), origin_verdict) is Some,
    ensures
        cors_outcome(c, head, origin_verdict, credentials_verdict) == (OutcomeView::Forward {
            headers: vary_pairs(c) + opt_pair_seq(
                allow_origin_pair(c.origin, opt_view(head.origin), origin_verdict),
            ) + lazy_pairs(c, head, true, credentials_verdict),
        }),
{
}

/// By default (`deliver_non_allowed_origin`), a request from a disallowed origin still
/// reaches the inner service, with `Vary` as its only CORS header; short-circuited
/// preflights and refused WebSocket upgrades aside.
pub proof fn law_disallowed_origin_delivered_when_configured(
    c: CorsConfig,
    head: RequestHead,
    origin_verdict: bool,
    credentials_verdict: bool,
)
    requires
        head.origin is Some,
        allow_origin_pair(c.origin, opt_view(head.origin), origin_verdict) is None,
        c.deliver_non_allowed_origin,
        !(is_preflight(head) && !c.deliver_preflight),
        !(head.websocket_version && !c.deliver_non_allowed_origin_websocket_upgrade),
    ensures
        cors_outcome(c, head, origin_verdict, credentials_verdict) == (OutcomeView::Forward {
            headers: vary_pairs(c),
        }),
{
    assert(vary_pairs(c) + opt_pair_seq(None) =~= vary_pairs(c));
}

/// A mirrored `Access-Control-Request-Headers` whose entries are all tokens as they
/// stand is echoed byte for byte.
pub proof fn law_valid_request_headers_echoed_verbatim(raw: Seq<u8>)
    requires
        forall|j: int| 0 <= j < split(raw, 44u8).len() ==> is_token(#[trigger] split(raw, 44u8)[j]),
    ensures
        sanitized(raw) == Some(raw),
{
    lemma_all_tokens_kept(split(raw, 44u8));
    lemma_join_split(raw, 44u8);
    lemma_split_nonempty(raw, 44u8);
    assert(seq![44u8] =~= comma());
}

/// An unpinned `Vary` is `origin`, then `, access-control-request-method` exactly when
/// the allowed methods mirror the request, then `, access-control-request-headers`
/// exactly when the allowed headers mirror the request.
pub proof fn law_derived_vary_follows_mirrored_settings(c: CorsConfig)
    requires
        !c.vary_pinned,
    ensures
        ({
            let origin = seq![111u8, 114, 105, 103, 105, 110];
            let acrm = seq![
                97u8, 99, 99, 101, 115, 115, 45, 99, 111, 110, 116, 114, 111, 108, 45, 114,
                101, 113, 117, 101, 115, 116, 45, 109, 101, 116, 104, 111, 100,
            ];
            let acrh = seq![
                97u8, 99, 99, 101, 115, 115, 45, 99, 111, 110, 116, 114, 111, 108, 45, 114,
                101, 113, 117, 101, 115, 116, 45, 104, 101, 97, 100, 101, 114, 115,
            ];
            let sep = seq![44u8, 32u8];
            with_updated_vary(c).vary == Some(
                origin + (if c.methods is MirrorRequest {
                    sep + acrm
                } else {
                    Seq::<u8>::empty()
                }) + (if c.headers is MirrorRequest {
                    sep + acrh
                } else {
                    Seq::<u8>::empty()
                }),
            )
        }),
{
    let o = origin_name();
    let m = request_method_name();
    let h = request_headers_name();
    let sep = comma_space();
    assert(sep =~= seq![44u8, 32u8]);
    let names = derived_vary_names(c.methods, c.headers);
    let e = Seq::<Seq<u8>>::empty();
    lemma_join_push(e, o, sep);
    assert(e.push(o) =~= seq![o]);
    let first = if c.methods is MirrorRequest {
        seq![o, m]
    } else {
        seq![o]
    };
    if c.methods is MirrorRequest {
        lemma_join_push(seq![o], m, sep);
        assert(seq![o].push(m) =~= seq![o, m]);
    }
    if c.headers is MirrorRequest {
        lemma_join_push(first, h, sep);
        assert(names =~= first.push(h));
    } else {
        assert(names =~= first);
    }
    assert(o =~= seq![111u8, 114, 105, 103, 105, 110]);
    assert(m =~= seq![
        97u8, 99, 99, 101, 115, 115, 45, 99, 111, 110, 116, 114, 111, 108, 45, 114, 101, 113,
        117, 101, 115, 116, 45, 109, 101, 116, 104, 111, 100,
    ]);
    assert(h =~= seq![
        97u8, 99, 99, 101, 115, 115, 45, 99, 111, 110, 116, 114, 111, 108, 45, 114, 101, 113,
        117, 101, 115, 116, 45, 104, 101, 97, 100, 101, 114, 115,
    ]);
    let j = join(names, sep);
    let expect = o + (if c.methods is MirrorRequest {
        sep + m
    } else {
        Seq::<u8>::empty()
    }) + (if c.headers is MirrorRequest {
        sep + h
    } else {
        Seq::<u8>::empty()
    });
    assert(j =~= expect);
}

/// A request with an `Origin` that is allowed gets `Access-Control-Allow-Credentials:
/// true` when credentials are set to always, or to a predicate that accepted it,
/// whether or not the request is a preflight.
pub proof fn law_credentials_sent_to_allowed_origin(
    c: CorsConfig,
    head: RequestHead,
    origin_verdict: bool,
    credentials_verdict: bool,
)
    requires
        head.origin is Some,
        allow_origin_pair(c.origin, opt_view(head.origin), origin_verdict) is Some,
        c.credentials == CredentialsSetting::Yes || (c.credentials
            == CredentialsSetting::Predicate && credentials_verdict),
    ensures
        ({
            let hs = outcome_headers(cors_outcome(c, head, origin_verdict, credentials_verdict));
            let acac = seq![
                97u8, 99, 99, 101, 115, 115, 45, 99, 111, 110, 116, 114, 111, 108, 45, 97, 108,
                108, 111, 119, 45, 99, 114, 101, 100, 101, 110, 116, 105, 97, 108, 115,
            ];
            exists|k: int| 0 <= k < hs.len() && #[trigger] hs[k] == (acac, seq![116u8, 114, 117, 101])
        }),
{
    let acao = allow_origin_pair(c.origin, opt_view(head.origin), origin_verdict);
    let common = vary_pairs(c) + opt_pair_seq(acao);
    let hs = outcome_headers(cors_outcome(c, head, origin_verdict, credentials_verdict));
    let p = is_preflight(head);
    let l = lazy_pairs(c, head, p, credentials_verdict);
    let pair = (allow_credentials_name(), crate::headers::true_bytes());
    assert(credentials_pairs(c, head, credentials_verdict) =~= seq![pair]);
    assert(hs == common + l);
    assert(l[0] == pair);
    assert(hs[common.len() as int] == pair);
    assert(pair.0 =~= seq![
        97u8, 99, 99, 101, 115, 115, 45, 99, 111, 110, 116, 114, 111, 108, 45, 97, 108, 108,
        111, 119, 45, 99, 114, 101, 100, 101, 110, 116, 105, 97, 108, 115,
    ]);
    assert(pair.1 =~= seq![116u8, 114, 117, 101]);
}

/// An allow-list accepts a request whose `Origin` is one origin (no space in it) that
/// equals, once trimmed, any entry of the list, wherever the entry stands; the response
/// echoes that `Origin`.
pub proof fn law_listed_origin_is_allowed(l: Seq<Seq<u8>>, origin: Seq<u8>, m: int, verdict: bool)
    requires
        0 <= m < l.len(),
        free_of(origin, 32u8),
        trim(origin).len() > 0,
        l[m] == trim(origin),
    ensures
        allowed_origin(OriginSetting::List(l), Some(origin), verdict) == Some(origin),
{
    lemma_split_join(seq![origin], 32u8);
    assert(join(seq![origin], seq![32u8]) == origin);
    let pieces = split(origin, 32u8);
    assert(pieces =~= seq![origin]);
    assert(trim(pieces[0]).len() > 0);
    assert(l.contains(trim(origin)));
    assert(origin_list_matches_spec(l, origin));
}

proof fn lemma_fresh_tokens_complete(existing: Seq<Seq<u8>>, pieces: Seq<Seq<u8>>, j: int)
    requires
        0 <= j < pieces.len(),
        trim(pieces[j]).len() > 0,
        !already_listed(existing, trim(pieces[j])),
    ensures
        fresh_tokens(existing, pieces).contains(trim(pieces[j])),
    decreases pieces.len(),
{
    let q = pieces.drop_last();
    let rest = fresh_tokens(existing, q);
    let t = trim(pieces.last());
    if j == pieces.len() - 1 {
        assert(pieces.last() == pieces[j]);
        assert(rest.push(t)[rest.len() as int] == t);
    } else {
        assert(q[j] == pieces[j]);
        lemma_fresh_tokens_complete(existing, q, j);
        let k = choose|k: int| 0 <= k < rest.len() && rest[k] == trim(pieces[j]);
        if t.len() > 0 && !already_listed(existing, t) {
            assert(rest.push(t)[k] == rest[k]);
        }
    }
}

/// Appending `Vary` drops nothing new: when the response already has `Vary` values, every
/// non-empty entry of the CORS value that they do not list (up to ASCII case) is among
/// the entries of the appended value, whatever its length.
pub proof fn law_appended_vary_keeps_every_new_entry(
    existing: Seq<Seq<u8>>,
    value: Seq<u8>,
    j: int,
)
    requires
        existing.len() > 0,
        0 <= j < split(value, 44u8).len(),
        trim(split(value, 44u8)[j]).len() > 0,
        !already_listed(existing, trim(split(value, 44u8)[j])),
    ensures
        deduped_vary(existing, value) matches Some(d) && entries(d).contains(
            trim(split(value, 44u8)[j]),
        ),
{
    lemma_fresh_tokens_complete(existing, split(value, 44u8), j);
    law_appended_vary_lists_only_new_entries(existing, value);
}

/// The method constants spell their names.
pub proof fn law_method_constants_spell_their_names()
    ensures
        method_get() == seq![71u8, 69, 84],
        method_post() == seq![80u8, 79, 83, 84],
        method_put() == seq![80u8, 85, 84],
        method_delete() == seq![68u8, 69, 76, 69, 84, 69],
        method_head() == seq![72u8, 69, 65, 68],
        method_options() == seq![79u8, 80, 84, 73, 79, 78, 83],
        method_connect() == seq![67u8, 79, 78, 78, 69, 67, 84],
        method_patch() == seq![80u8, 65, 84, 67, 72],
        method_trace() == seq![84u8, 82, 65, 67, 69],
{
}

/// A list of methods is sent as their names joined by `,`: splitting the value on `,`
/// gives back exactly those names, in order.
pub proof fn law_listed_methods_come_back(ms: Seq<Seq<u8>>)
    requires
        ms.len() > 0,
        forall|j: int| 0 <= j < ms.len() ==> is_token(#[trigger] ms[j]),
    ensures
        comma_list(ms) matches Some(v) && split(v, 44u8) == ms,
{
    assert forall|j: int| 0 <= j < ms.len() implies free_of(#[trigger] ms[j], 44u8) by {
        lemma_token_free_of(ms[j], 44u8);
    }
    lemma_split_join(ms, 44u8);
    assert(comma() =~= seq![44u8]);
}

} // verus!
