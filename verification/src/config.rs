//! Builder for the `Cors` middleware.

use vstd::prelude::*;
use vstd::string::StringExecFns;

use crate::allow_credentials::{AllowCredentials, CredentialsSetting};
use crate::allow_headers::AllowHeaders;
use crate::allow_methods::{is_wildcard_setting, AllowMethods, ValueSetting};
use crate::allow_origin::{is_wildcard_origin, AllowOrigin, OriginSetting};
use crate::cors::Cors;
use crate::expose_headers::ExposeHeaders;
use crate::header::{origin_name, request_headers_name, request_method_name, HeaderName};
use crate::headers::wildcard_bytes;
use crate::max_age::{decimal, MaxAge};
use crate::vary::{default_vary_names, vary_value, Vary};

verus! {

/// Error returned by `CorsBuilder::try_build` when the configuration violates a
/// Fetch-mandated incompatibility.
///
/// Mirrors the panics produced by `CorsBuilder::build`, so callers can choose to surface
/// the message as a startup error rather than a process abort.
#[derive(Clone, Debug, Eq, PartialEq)]
pub struct ConfigError {
    message: &'static str,
}

impl ConfigError {
    /// The explanation carried by the error.
    pub closed spec fn message_view(&self) -> Seq<char> {
        self.message@
    }

    /// An error carrying `message`.
    pub fn new(message: &'static str) -> (r: Self)
        ensures
            r.message_view() == message@,
    {
        Self { message }
    }

    /// The explanation carried by the error.
    pub fn message(&self) -> (r: &'static str)
        ensures
            r@ == self.message_view(),
    {
        self.message
    }

    /// `Invalid CORS configuration: ` followed by the explanation.
    pub fn to_string(&self) -> (r: String)
        ensures
            r@ == "Invalid CORS configuration: "@ + self.message_view(),
    {
        let prefix = "Invalid CORS configuration: ";
        String::from_str(prefix).concat(self.message)
    }
}

/// Which Fetch-mandated incompatibility a configuration violates.
pub enum Conflict {
    /// Credentials with `Access-Control-Allow-Origin: *`.
    Origin,
    /// Credentials with `Access-Control-Allow-Methods: *`.
    Methods,
    /// Credentials with `Access-Control-Allow-Headers: *`.
    Headers,
    /// Credentials with `Access-Control-Expose-Headers: *`.
    ExposeHeaders,
}

/// The explanation `try_build` gives for a conflict.
pub open spec fn conflict_message(c: Conflict) -> Seq<char> {
    match c {
        Conflict::Origin => CREDENTIALS_WITH_ANY_ORIGIN@,
        Conflict::Methods => CREDENTIALS_WITH_ANY_METHODS@,
        Conflict::Headers => CREDENTIALS_WITH_ANY_HEADERS@,
        Conflict::ExposeHeaders => CREDENTIALS_WITH_ANY_EXPOSE_HEADERS@,
    }
}

/// Explanation for credentials with a wildcard origin.
pub const CREDENTIALS_WITH_ANY_ORIGIN: &'static str = "cannot combine `Access-Control-Allow-Credentials: true` with `Access-Control-Allow-Origin: *`. Echo the request origin instead.";

/// Explanation for credentials with wildcard methods.
pub const CREDENTIALS_WITH_ANY_METHODS: &'static str = "cannot combine `Access-Control-Allow-Credentials: true` with `Access-Control-Allow-Methods: *`.";

/// Explanation for credentials with wildcard request headers.
pub const CREDENTIALS_WITH_ANY_HEADERS: &'static str = "cannot combine `Access-Control-Allow-Credentials: true` with `Access-Control-Allow-Headers: *`.";

/// Explanation for credentials with wildcard exposed headers.
pub const CREDENTIALS_WITH_ANY_EXPOSE_HEADERS: &'static str = "cannot combine `Access-Control-Allow-Credentials: true` with `Access-Control-Expose-Headers: *`.";

/// Everything a `CorsBuilder` is set to, with the caller's predicates reduced to
/// which kind of setting holds them.
pub struct CorsConfig {
    /// `Access-Control-Allow-Origin` policy.
    pub origin: OriginSetting,
    /// `Access-Control-Allow-Credentials` policy.
    pub credentials: CredentialsSetting,
    /// `Access-Control-Allow-Methods` setting.
    pub methods: ValueSetting,
    /// `Access-Control-Allow-Headers` setting.
    pub headers: ValueSetting,
    /// `Access-Control-Expose-Headers` value, if any.
    pub expose: Option<Seq<u8>>,
    /// `Access-Control-Max-Age` value, if any.
    pub max_age: Option<Seq<u8>>,
    /// `Vary` value, if any.
    pub vary: Option<Seq<u8>>,
    /// Whether `Vary` was set by hand and is kept as it is.
    pub vary_pinned: bool,
    /// Whether preflight requests reach the inner service.
    pub deliver_preflight: bool,
    /// Whether requests from a disallowed origin reach the inner service.
    pub deliver_non_allowed_origin: bool,
    /// Whether WebSocket upgrades from a disallowed origin reach the inner service.
    pub deliver_non_allowed_origin_websocket_upgrade: bool,
    /// Status of the response that rejects a disallowed origin.
    pub rejection_status: u16,
}

/// The first Fetch-mandated incompatibility of `c`, in the order `try_build` checks them:
/// all of them pair `Access-Control-Allow-Credentials: true` with a wildcard.
pub open spec fn first_conflict(c: CorsConfig) -> Option<Conflict> {
    if c.credentials != CredentialsSetting::Yes {
        None
    } else if is_wildcard_origin(c.origin) {
        Some(Conflict::Origin)
    } else if is_wildcard_setting(c.methods) {
        Some(Conflict::Methods)
    } else if is_wildcard_setting(c.headers) {
        Some(Conflict::Headers)
    } else if c.expose == Some(wildcard_bytes()) {
        Some(Conflict::ExposeHeaders)
    } else {
        None
    }
}

/// The header names `Vary` lists when it is derived: `Origin` always, then
/// `Access-Control-Request-Method` and `Access-Control-Request-Headers` when the
/// respective setting echoes that request header.
pub open spec fn derived_vary_names(methods: ValueSetting, headers: ValueSetting) -> Seq<Seq<u8>> {
    seq![origin_name()] + (if methods is MirrorRequest {
        seq![request_method_name()]
    } else {
        Seq::empty()
    }) + (if headers is MirrorRequest {
        seq![request_headers_name()]
    } else {
        Seq::empty()
    })
}

/// `c` with `Vary` derived from the other settings, unless it was pinned.
pub open spec fn with_updated_vary(c: CorsConfig) -> CorsConfig {
    if c.vary_pinned {
        c
    } else {
        CorsConfig { vary: vary_value(derived_vary_names(c.methods, c.headers)), ..c }
    }
}

/// The settings of a fresh builder.
pub open spec fn default_config() -> CorsConfig {
    CorsConfig {
        origin: OriginSetting::List(Seq::empty()),
        credentials: CredentialsSetting::No,
        methods: ValueSetting::MirrorRequest,
        headers: ValueSetting::MirrorRequest,
        expose: None,
        max_age: None,
        vary: vary_value(default_vary_names()),
        vary_pinned: false,
        deliver_preflight: false,
        deliver_non_allowed_origin: true,
        deliver_non_allowed_origin_websocket_upgrade: false,
        rejection_status: 400,
    }
}

/// Builder for `Cors`.
///
/// Construct one with `CorsBuilder::new` (or `builder`), chain the configuration
/// methods, and call `CorsBuilder::build` to produce the middleware.
///
/// `P` and `A` are the types of the caller's synchronous and asynchronous
/// predicates (see `AllowOrigin::predicate`, `AllowOrigin::async_predicate`,
/// `AllowCredentials::predicate`).
#[derive(Debug)]
pub struct CorsBuilder<P, A> {
    pub(crate) allow_origin: AllowOrigin<P, A>,
    pub(crate) allow_credentials: AllowCredentials<P>,
    pub(crate) allow_methods: AllowMethods,
    pub(crate) allow_headers: AllowHeaders,
    pub(crate) expose_headers: ExposeHeaders,
    pub(crate) max_age: MaxAge,
    pub(crate) vary: Vary,
    pub(crate) vary_pinned: bool,
    pub(crate) deliver_preflight: bool,
    pub(crate) deliver_non_allowed_origin: bool,
    pub(crate) deliver_non_allowed_origin_websocket_upgrade: bool,
    pub(crate) rejection_status: u16,
}

impl<P, A> View for CorsBuilder<P, A> {
    type V = CorsConfig;

    closed spec fn view(&self) -> CorsConfig {
        CorsConfig {
            origin: self.allow_origin@,
            credentials: self.allow_credentials@,
            methods: self.allow_methods@,
            headers: self.allow_headers@,
            expose: self.expose_headers@,
            max_age: self.max_age@,
            vary: self.vary@,
            vary_pinned: self.vary_pinned,
            deliver_preflight: self.deliver_preflight,
            deliver_non_allowed_origin: self.deliver_non_allowed_origin,
            deliver_non_allowed_origin_websocket_upgrade:
                self.deliver_non_allowed_origin_websocket_upgrade,
            rejection_status: self.rejection_status,
        }
    }
}

impl<P, A> CorsBuilder<P, A> {
    #[verifier::type_invariant]
    spec fn inv(self) -> bool {
        100 <= self.rejection_status <= 999
    }

    /// The origin policy, predicates included.
    pub closed spec fn origin_policy(&self) -> AllowOrigin<P, A> {
        self.allow_origin
    }

    /// The credentials policy, predicate included.
    pub closed spec fn credentials_policy(&self) -> AllowCredentials<P> {
        self.allow_credentials
    }

    /// Connects the settings to the fields that hold them.
    pub(crate) proof fn lemma_fields(&self)
        ensures
            self@.origin == self.allow_origin@,
            self@.credentials == self.allow_credentials@,
            self@.methods == self.allow_methods@,
            self@.headers == self.allow_headers@,
            self@.expose == self.expose_headers@,
            self@.max_age == self.max_age@,
            self@.vary == self.vary@,
            self@.deliver_preflight == self.deliver_preflight,
            self@.deliver_non_allowed_origin == self.deliver_non_allowed_origin,
            self@.deliver_non_allowed_origin_websocket_upgrade
                == self.deliver_non_allowed_origin_websocket_upgrade,
            self@.rejection_status == self.rejection_status,
            self.origin_policy() == self.allow_origin,
            self.credentials_policy() == self.allow_credentials,
    {
    }

    /// Returns a builder with default settings.
    pub fn new() -> (r: Self)
        ensures
            r@ == default_config(),
    {
        Self {
            allow_origin: AllowOrigin::default(),
            allow_credentials: AllowCredentials::default(),
            allow_methods: AllowMethods::default(),
            allow_headers: AllowHeaders::default(),
            expose_headers: ExposeHeaders::default(),
            max_age: MaxAge::default(),
            vary: Vary::default(),
            vary_pinned: false,
            deliver_preflight: false,
            deliver_non_allowed_origin: true,
            // Browsers do not enforce CORS on WebSocket handshakes, so an unchecked upgrade
            // is a cross-site hijacking vector; reject by default.
            deliver_non_allowed_origin_websocket_upgrade: false,
            rejection_status: 400,
        }
    }

    /// Sets the `Access-Control-Allow-Origin` policy.
    pub fn allow_origin(self, allow_origin: AllowOrigin<P, A>) -> (r: Self)
        ensures
            r@ == (CorsConfig { origin: allow_origin@, ..self@ }),
            r.origin_policy() == allow_origin,
            r.credentials_policy() == self.credentials_policy(),
    {
        proof {
            use_type_invariant(&self);
        }
        Self { allow_origin, ..self }
    }

    /// Sets whether to send `Access-Control-Allow-Credentials`.
    pub fn allow_credentials(self, allow_credentials: AllowCredentials<P>) -> (r: Self)
        ensures
            r@ == (CorsConfig { credentials: allow_credentials@, ..self@ }),
            r.origin_policy() == self.origin_policy(),
            r.credentials_policy() == allow_credentials,
    {
        proof {
            use_type_invariant(&self);
        }
        Self { allow_credentials, ..self }
    }

    /// Sets the methods advertised in `Access-Control-Allow-Methods`.
    pub fn allow_methods(self, allow_methods: AllowMethods) -> (r: Self)
        ensures
            r@ == (CorsConfig { methods: allow_methods@, ..self@ }),
            r.origin_policy() == self.origin_policy(),
            r.credentials_policy() == self.credentials_policy(),
    {
        proof {
            use_type_invariant(&self);
        }
        Self { allow_methods, ..self }
    }

    /// Sets the headers advertised in `Access-Control-Allow-Headers`.
    pub fn allow_headers(self, allow_headers: AllowHeaders) -> (r: Self)
        ensures
            r@ == (CorsConfig { headers: allow_headers@, ..self@ }),
            r.origin_policy() == self.origin_policy(),
            r.credentials_policy() == self.credentials_policy(),
    {
        proof {
            use_type_invariant(&self);
        }
        Self { allow_headers, ..self }
    }

    /// Sets the headers advertised in `Access-Control-Expose-Headers`.
    pub fn expose_headers(self, expose_headers: ExposeHeaders) -> (r: Self)
        ensures
            r@ == (CorsConfig { expose: expose_headers@, ..self@ }),
            r.origin_policy() == self.origin_policy(),
            r.credentials_policy() == self.credentials_policy(),
    {
        proof {
            use_type_invariant(&self);
        }
        Self { expose_headers, ..self }
    }

    /// Sets the `Access-Control-Max-Age` value, in seconds.
    pub fn max_age(self, max_age_secs: u64) -> (r: Self)
        ensures
            r@ == (CorsConfig { max_age: Some(decimal(max_age_secs as nat)), ..self@ }),
            r.origin_policy() == self.origin_policy(),
            r.credentials_policy() == self.credentials_policy(),
    {
        proof {
            use_type_invariant(&self);
        }
        Self { max_age: MaxAge::exact(max_age_secs), ..self }
    }

    /// Pins `Vary` to a specific list of header names, disabling automatic derivation.
    pub fn vary(self, headers: Vary) -> (r: Self)
        ensures
            r@ == (CorsConfig { vary: headers@, vary_pinned: true, ..self@ }),
            r.origin_policy() == self.origin_policy(),
            r.credentials_policy() == self.credentials_policy(),
    {
        proof {
            use_type_invariant(&self);
        }
        Self { vary: headers, vary_pinned: true, ..self }
    }

    /// If `false` (default), preflight requests are short-circuited and answered with a
    /// synthetic `200 OK` carrying the CORS headers. If `true`, preflight is forwarded to
    /// the inner service after CORS headers are added.
    pub fn deliver_preflight(self, deliver: bool) -> (r: Self)
        ensures
            r@ == (CorsConfig { deliver_preflight: deliver, ..self@ }),
            r.origin_policy() == self.origin_policy(),
            r.credentials_policy() == self.credentials_policy(),
    {
        proof {
            use_type_invariant(&self);
        }
        Self { deliver_preflight: deliver, ..self }
    }

    /// If `true` (default), requests whose `Origin` is not allowed are still passed to the
    /// inner service (the response just won't carry CORS headers). If `false`, such requests
    /// are rejected with the rejection status directly.
    pub fn deliver_non_allowed_origin(self, deliver: bool) -> (r: Self)
        ensures
            r@ == (CorsConfig { deliver_non_allowed_origin: deliver, ..self@ }),
            r.origin_policy() == self.origin_policy(),
            r.credentials_policy() == self.credentials_policy(),
    {
        proof {
            use_type_invariant(&self);
        }
        Self { deliver_non_allowed_origin: deliver, ..self }
    }

    /// If `false` (default), disallowed-origin WebSocket upgrade requests (those carrying
    /// `Sec-WebSocket-Version`) are rejected, even when `deliver_non_allowed_origin`
    /// is `true`.
    ///
    /// Browsers do not apply CORS to WebSocket handshakes, so an unchecked upgrade is a
    /// cross-site hijacking vector: the browser opens the socket with the user's cookies
    /// attached.
    pub fn deliver_non_allowed_origin_websocket_upgrade(self, deliver: bool) -> (r: Self)
        ensures
            r@ == (CorsConfig { deliver_non_allowed_origin_websocket_upgrade: deliver, ..self@ }),
            r.origin_policy() == self.origin_policy(),
            r.credentials_policy() == self.credentials_policy(),
    {
        proof {
            use_type_invariant(&self);
        }
        Self { deliver_non_allowed_origin_websocket_upgrade: deliver, ..self }
    }

    /// Sets the status code used to reject disallowed-origin requests when
    /// `deliver_non_allowed_origin` is `false`. Defaults to `400 Bad Request`;
    /// `status` is a valid HTTP status code (100 to 999).
    pub fn rejection_status(self, status: u16) -> (r: Self)
        requires
            100 <= status <= 999,
        ensures
            r@ == (CorsConfig { rejection_status: status, ..self@ }),
            r.origin_policy() == self.origin_policy(),
            r.credentials_policy() == self.credentials_policy(),
    {
        Self { rejection_status: status, ..self }
    }

    /// The configured rejection status; always a valid HTTP status code.
    pub fn rejection_status_code(&self) -> (r: u16)
        ensures
            r == self@.rejection_status,
            100 <= r <= 999,
    {
        proof {
            use_type_invariant(self);
        }
        self.rejection_status
    }

    /// The origin policy, predicates included.
    pub fn origin_setting(&self) -> (r: &AllowOrigin<P, A>)
        ensures
            *r == self.origin_policy(),
            r@ == self@.origin,
    {
        &self.allow_origin
    }

    /// The credentials policy, predicate included.
    pub fn credentials_setting(&self) -> (r: &AllowCredentials<P>)
        ensures
            *r == self.credentials_policy(),
            r@ == self@.credentials,
    {
        &self.allow_credentials
    }

    /// Whether preflight requests are delivered to the inner service.
    pub fn delivers_preflight(&self) -> (r: bool)
        ensures
            r == self@.deliver_preflight,
    {
        self.deliver_preflight
    }

    /// The `Vary` setting.
    pub fn vary_setting(&self) -> (r: &Vary)
        ensures
            r@ == self@.vary,
    {
        &self.vary
    }

    /// Builds the `Cors` middleware wrapping `inner`. The configuration has no
    /// Fetch-mandated incompatibility (`try_build` reports one as an error).
    pub fn build<S>(self, inner: S) -> (r: Cors<S, P, A>)
        requires
            first_conflict(self@) is None,
        ensures
            r.inner_spec() == inner,
            r.config_spec()@ == with_updated_vary(self@),
            r.config_spec().origin_policy() == self.origin_policy(),
            r.config_spec().credentials_policy() == self.credentials_policy(),
    {
        match self.try_build(inner) {
            Ok(cors) => cors,
            Err(_) => vstd::pervasive::unreached(),
        }
    }

    /// Builds the `Cors` middleware wrapping `inner`, validating the configuration.
    ///
    /// Returns a `ConfigError` when any Fetch-mandated incompatibility is violated:
    /// `allow_credentials: true` combined with `*` in `allow_origin`, `allow_methods`,
    /// `allow_headers`, or `expose_headers`.
    pub fn try_build<S>(self, inner: S) -> (r: Result<Cors<S, P, A>, ConfigError>)
        ensures
            match first_conflict(self@) {
                Some(c) => r matches Err(e) && e.message_view() == conflict_message(c),
                None => r matches Ok(cors) && {
                    &&& cors.inner_spec() == inner
                    &&& cors.config_spec()@ == with_updated_vary(self@)
                    &&& cors.config_spec().origin_policy() == self.origin_policy()
                    &&& cors.config_spec().credentials_policy() == self.credentials_policy()
                },
            },
    {
        match self.validate() {
            Err(e) => Err(e),
            Ok(()) => {
                let mut me = self;
                me.update_vary();
                Ok(Cors::from_parts(inner, me))
            },
        }
    }

    fn validate(&self) -> (r: Result<(), ConfigError>)
        ensures
            match first_conflict(self@) {
                Some(c) => r matches Err(e) && e.message_view() == conflict_message(c),
                None => r is Ok,
            },
    {
        if !self.allow_credentials.is_true() {
            return Ok(());
        }
        if self.allow_origin.is_wildcard() {
            return Err(ConfigError::new(CREDENTIALS_WITH_ANY_ORIGIN));
        }
        if self.allow_methods.is_wildcard() {
            return Err(ConfigError::new(CREDENTIALS_WITH_ANY_METHODS));
        }
        if self.allow_headers.is_wildcard() {
            return Err(ConfigError::new(CREDENTIALS_WITH_ANY_HEADERS));
        }
        if self.expose_headers.is_wildcard() {
            return Err(ConfigError::new(CREDENTIALS_WITH_ANY_EXPOSE_HEADERS));
        }
        Ok(())
    }

    /// Recompute the default `Vary` header set, unless the user pinned it via `vary`.
    pub(crate) fn update_vary(&mut self)
        ensures
            final(self)@ == with_updated_vary(old(self)@),
            final(self).origin_policy() == old(self).origin_policy(),
            final(self).credentials_policy() == old(self).credentials_policy(),
    {
        proof {
            use_type_invariant(&*self);
        }
        if self.vary_pinned {
            return;
        }
        let vary_method = self.allow_methods.varies_with_request_method();
        let vary_headers = self.allow_headers.varies_with_request_headers();

        let mut names: Vec<HeaderName> = Vec::new();
        // `Origin` is always included: the response is always potentially origin-dependent
        // when a CORS middleware is installed, so caches must not serve one origin's response
        // to another.
        names.push(HeaderName::origin());
        if vary_method {
            names.push(HeaderName::access_control_request_method());
        }
        if vary_headers {
            names.push(HeaderName::access_control_request_headers());
        }
        proof {
            assert(crate::header::name_views(names@) =~= derived_vary_names(
                self@.methods,
                self@.headers,
            ));
        }
        self.vary = Vary::list(names);
    }
}

impl<P: Clone, A: Clone> Clone for CorsBuilder<P, A> {
    fn clone(&self) -> (r: Self)
        ensures
            r@ == self@,
    {
        proof {
            use_type_invariant(self);
        }
        Self {
            allow_origin: self.allow_origin.clone(),
            allow_credentials: self.allow_credentials.clone(),
            allow_methods: self.allow_methods.clone(),
            allow_headers: self.allow_headers.clone(),
            expose_headers: self.expose_headers.clone(),
            max_age: self.max_age.clone(),
            vary: self.vary.clone(),
            vary_pinned: self.vary_pinned,
            deliver_preflight: self.deliver_preflight,
            deliver_non_allowed_origin: self.deliver_non_allowed_origin,
            deliver_non_allowed_origin_websocket_upgrade:
                self.deliver_non_allowed_origin_websocket_upgrade,
            rejection_status: self.rejection_status,
        }
    }
}

impl<P, A> Default for CorsBuilder<P, A> {
    fn default() -> (r: Self)
        ensures
            r@ == default_config(),
    {
        Self::new()
    }
}

} // verus!
