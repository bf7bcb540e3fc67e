//! Configuration for the `Access-Control-Expose-Headers` response header.

use vstd::prelude::*;

use crate::header::{
    clone_opt, expose_headers_name, name_views, names_to_values, opt_pair_view, opt_view,
    HeaderName, HeaderValue, RequestHead,
};
use crate::headers::{wildcard, wildcard_bytes};
use crate::text::bytes_eq;
use crate::util::{comma_list, separated_by_commas, value_views};

verus! {

/// Configuration for the `Access-Control-Expose-Headers` header: the value to send, if any.
#[derive(Debug)]
pub struct ExposeHeaders(Option<HeaderValue>);

impl Clone for ExposeHeaders {
    fn clone(&self) -> (r: Self)
        ensures
            r@ == self@,
    {
        ExposeHeaders(clone_opt(&self.0))
    }
}

impl View for ExposeHeaders {
    type V = Option<Seq<u8>>;

    closed spec fn view(&self) -> Option<Seq<u8>> {
        opt_view(self.0)
    }
}

impl ExposeHeaders {
    /// Responds with `*`. Incompatible with credentials; see `CorsBuilder::build`.
    pub fn any() -> (r: ExposeHeaders)
        ensures
            r@ == Some(wildcard_bytes()),
    {
        ExposeHeaders(Some(wildcard()))
    }

    /// Responds with the given set of response header names, joined by `,`.
    pub fn list(headers: Vec<HeaderName>) -> (r: ExposeHeaders)
        ensures
            r@ == comma_list(name_views(headers@)),
    {
        let values = names_to_values(&headers);
        assert(value_views(values@) =~= name_views(headers@));
        ExposeHeaders(separated_by_commas(values))
    }

    /// Returns `true` if the configured value is the literal `*`.
    pub fn is_wildcard(&self) -> (r: bool)
        ensures
            r == (self@ == Some(wildcard_bytes())),
    {
        match &self.0 {
            Some(v) => {
                let star = wildcard();
                bytes_eq(v.as_bytes(), star.as_bytes())
            },
            None => false,
        }
    }

    /// The header pair to send, if any. The request does not change it.
    pub fn to_header(&self, _head: &RequestHead) -> (r: Option<(HeaderName, HeaderValue)>)
        ensures
            opt_pair_view(r) == match self@ {
                Some(v) => Some((expose_headers_name(), v)),
                None => None,
            },
    {
        match &self.0 {
            Some(v) => Some((HeaderName::access_control_expose_headers(), v.clone())),
            None => None,
        }
    }
}

impl Default for ExposeHeaders {
    fn default() -> (r: ExposeHeaders)
        ensures
            r@ is None,
    {
        ExposeHeaders(None)
    }
}

} // verus!
