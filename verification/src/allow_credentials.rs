//! Configuration for the `Access-Control-Allow-Credentials` response header.

use vstd::prelude::*;

use crate::header::{allow_credentials_name, opt_pair_view, HeaderName, HeaderValue};
use crate::headers::{allow_credentials_true, true_bytes};

verus! {

/// What `Access-Control-Allow-Credentials` is set to.
pub enum CredentialsSetting {
    /// Always allow credentials.
    Yes,
    /// Never allow credentials.
    No,
    /// Allow them when the caller's predicate accepts the request.
    Predicate,
}

/// Whether credentials are allowed for a request with `origin`, given what the
/// caller's predicate answered for it (consulted only under `Predicate`). A request
/// without `Origin` is not a CORS request and never gets credentials.
pub open spec fn credentials_allowed(s: CredentialsSetting, has_origin: bool, verdict: bool) -> bool {
    match s {
        CredentialsSetting::Yes => has_origin,
        CredentialsSetting::No => false,
        CredentialsSetting::Predicate => has_origin && verdict,
    }
}

#[derive(Debug)]
enum AllowCredentialsInner<P> {
    Yes,
    No,
    Predicate(P),
}

/// Configuration for the `Access-Control-Allow-Credentials` header.
///
/// `P` is the type of the caller's predicate, which this library stores and hands
/// back but never calls: whoever runs the request evaluates it and passes its answer in.
#[derive(Debug)]
pub struct AllowCredentials<P>(AllowCredentialsInner<P>);

impl<P: Clone> Clone for AllowCredentials<P> {
    fn clone(&self) -> (r: Self)
        ensures
            r@ == self@,
    {
        match &self.0 {
            AllowCredentialsInner::Yes => AllowCredentials(AllowCredentialsInner::Yes),
            AllowCredentialsInner::No => AllowCredentials(AllowCredentialsInner::No),
            AllowCredentialsInner::Predicate(f) => AllowCredentials(
                AllowCredentialsInner::Predicate(f.clone()),
            ),
        }
    }
}

impl<P> View for AllowCredentials<P> {
    type V = CredentialsSetting;

    closed spec fn view(&self) -> CredentialsSetting {
        match self.0 {
            AllowCredentialsInner::Yes => CredentialsSetting::Yes,
            AllowCredentialsInner::No => CredentialsSetting::No,
            AllowCredentialsInner::Predicate(_) => CredentialsSetting::Predicate,
        }
    }
}

impl<P> AllowCredentials<P> {
    /// Allows credentials for every cross-origin request.
    pub fn yes() -> (r: Self)
        ensures
            r@ == CredentialsSetting::Yes,
    {
        AllowCredentials(AllowCredentialsInner::Yes)
    }

    /// Never allows credentials.
    pub fn no() -> (r: Self)
        ensures
            r@ == CredentialsSetting::No,
    {
        AllowCredentials(AllowCredentialsInner::No)
    }

    /// `yes()` for `true`, `no()` for `false`.
    pub fn from_bool(v: bool) -> (r: Self)
        ensures
            r@ == if v {
                CredentialsSetting::Yes
            } else {
                CredentialsSetting::No
            },
    {
        if v {
            Self::yes()
        } else {
            Self::no()
        }
    }

    /// Allows credentials per request, as the predicate `f` decides. The predicate
    /// receives the request's `Origin` header and the request.
    pub fn predicate(f: P) -> (r: Self)
        ensures
            r@ == CredentialsSetting::Predicate,
            r.stored_predicate() == Some(f),
    {
        AllowCredentials(AllowCredentialsInner::Predicate(f))
    }

    /// The stored predicate, if any.
    pub closed spec fn stored_predicate(&self) -> Option<P> {
        match self.0 {
            AllowCredentialsInner::Predicate(f) => Some(f),
            _ => None,
        }
    }

    /// The stored predicate, for the caller to evaluate.
    pub fn as_predicate(&self) -> (r: Option<&P>)
        ensures
            r is Some <==> self@ == CredentialsSetting::Predicate,
            r matches Some(f) ==> self.stored_predicate() == Some(*f),
    {
        match &self.0 {
            AllowCredentialsInner::Predicate(f) => Some(f),
            _ => None,
        }
    }

    /// Returns `true` if credentials are unconditionally allowed. Used to enforce the Fetch
    /// spec's incompatibility with wildcard origin / method / header / expose-headers values
    /// at configuration time.
    pub fn is_true(&self) -> (r: bool)
        ensures
            r == (self@ == CredentialsSetting::Yes),
    {
        match &self.0 {
            AllowCredentialsInner::Yes => true,
            _ => false,
        }
    }

    /// Returns the header pair to set, or `None` if credentials are not allowed for this
    /// request. `verdict` is what the predicate answered for `origin`; it is read only
    /// for a predicate setting, and when the `Origin` header is absent (no CORS request)
    /// a predicate never allows credentials.
    pub fn to_header(&self, origin: Option<&HeaderValue>, verdict: bool) -> (r: Option<
        (HeaderName, HeaderValue),
    >)
        ensures
            opt_pair_view(r) == if credentials_allowed(self@, origin is Some, verdict) {
                Some((allow_credentials_name(), true_bytes()))
            } else {
                None
            },
    {
        let allow_creds = match &self.0 {
            AllowCredentialsInner::Yes => origin.is_some(),
            AllowCredentialsInner::No => false,
            AllowCredentialsInner::Predicate(_) => origin.is_some() && verdict,
        };
        if allow_creds {
            Some((HeaderName::access_control_allow_credentials(), allow_credentials_true()))
        } else {
            None
        }
    }
}

impl<P> Default for AllowCredentials<P> {
    fn default() -> (r: Self)
        ensures
            r@ == CredentialsSetting::No,
    {
        AllowCredentials::no()
    }
}

} // verus!
