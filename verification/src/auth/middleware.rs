//! Authenticating requests: exempt paths, disabled authentication and API keys.
use vstd::prelude::*;
use super::api_key::{ApiKeyValidator, first_match, key_digest_text, some_match};
use super::config::{AuthConfig, path_exempt};
use super::context::{AuthContext, AuthScope, all_scopes};
use crate::error::XervError;
use crate::strmap::StringMap;
use crate::text::{lowercase, opt_string, owned, spec_lowercase};

verus! {

/// Access to the headers of an HTTP request.
pub trait HeaderAccess {
    /// Whether this header source's answers are described by `header_value`; only a
    /// source that says so is held to it.
    open spec fn obeys_header_spec(&self) -> bool {
        false
    }

    /// The value the source gives for a header name, if any.
    open spec fn header_value(&self, name: Seq<char>) -> Option<Seq<char>> {
        None
    }

    /// The value of a header by name (case-insensitive).
    fn get_header(&self, name: &str) -> (r: Option<String>)
        ensures
            self.obeys_header_spec() ==> opt_string(r) == self.header_value(name@);
}

/// What authentication answers, given the header value found for the API key (when the
/// configuration reads one).
pub open spec fn auth_outcome(config: AuthConfig, path: Seq<char>, key: Option<Seq<char>>, r: Result<AuthContext, XervError>) -> bool {
    if !config.enabled {
        r matches Ok(ctx) && ctx.identity@ == "anonymous"@ && ctx.scopes@ == all_scopes()
    } else if path_exempt(config, path) {
        r matches Ok(ctx) && ctx.identity@ == "anonymous"@ && ctx.scopes@ == Set::<AuthScope>::empty()
    } else {
        match (config.api_key, key) {
            (Some(akc), Some(k)) => if some_match(akc.keys@, key_digest_text(k)) {
                r matches Ok(ctx) && exists|i: int| first_match(akc.keys@, key_digest_text(k), i)
                    && ctx.identity@ == akc.keys@[i].identity@ && ctx.scopes@ == akc.keys@[i].scopes@
            } else {
                r matches Err(XervError::AuthenticationFailed { cause }) && cause@ == "Invalid API key"@
            },
            _ => r matches Err(XervError::AuthenticationFailed { cause }) && cause@ == "Missing authentication credentials"@,
        }
    }
}

/// Authentication middleware that validates requests.
pub struct AuthMiddleware;

impl AuthMiddleware {
    /// Authenticate a request given the API key header value found for it (`None` when
    /// the request carries none): with authentication off, the anonymous context with
    /// every scope; on an exempt path, the anonymous context with no scope; else the
    /// context of the matching API key, or an authentication failure.
    pub fn authenticate_key(config: &AuthConfig, path: &str, key: Option<&str>) -> (r: Result<AuthContext, XervError>)
        ensures
            auth_outcome(*config, path@, match key {
                Some(k) => Some(k@),
                None => None,
            }, r),
    {
        if !config.enabled {
            return Ok(AuthContext::new("anonymous", AuthScope::all()));
        }
        if config.is_path_exempt(path) {
            return Ok(AuthContext::anonymous());
        }
        match &config.api_key {
            Some(api_key_config) => match key {
                Some(k) => {
                    let validator = ApiKeyValidator::new(api_key_config);
                    match validator.validate(k) {
                        Some(ctx) => Ok(ctx),
                        None => Err(XervError::AuthenticationFailed { cause: owned("Invalid API key") }),
                    }
                },
                None => Err(XervError::AuthenticationFailed { cause: owned("Missing authentication credentials") }),
            },
            None => Err(XervError::AuthenticationFailed { cause: owned("Missing authentication credentials") }),
        }
    }

    /// Authenticate a request: as `authenticate_key`, with the key read from the header
    /// the API key configuration names (only when authentication is on, the path is not
    /// exempt and API keys are configured).
    pub fn authenticate<H: HeaderAccess>(config: &AuthConfig, path: &str, headers: &H) -> (r: Result<AuthContext, XervError>)
        ensures
            exists|key: Option<Seq<char>>| auth_outcome(*config, path@, key, r),
            !config.enabled || path_exempt(*config, path@) || config.api_key is None ==> auth_outcome(*config, path@, None, r),
            config.enabled && !path_exempt(*config, path@) && headers.obeys_header_spec() ==> (
                config.api_key matches Some(akc) ==> auth_outcome(*config, path@, headers.header_value(akc.header_name@), r)),
    {
        if !config.enabled || config.is_path_exempt(path) {
            let r = AuthMiddleware::authenticate_key(config, path, None);
            assert(auth_outcome(*config, path@, None, r));
            return r;
        }
        match &config.api_key {
            Some(api_key_config) => {
                let found = headers.get_header(api_key_config.header_name.as_str());
                match found {
                    Some(k) => {
                        let r = AuthMiddleware::authenticate_key(config, path, Some(k.as_str()));
                        assert(auth_outcome(*config, path@, Some(k@), r));
                        r
                    },
                    None => {
                        let r = AuthMiddleware::authenticate_key(config, path, None);
                        assert(auth_outcome(*config, path@, None, r));
                        r
                    },
                }
            },
            None => {
                let r = AuthMiddleware::authenticate_key(config, path, None);
                assert(auth_outcome(*config, path@, None, r));
                r
            },
        }
    }

    /// Whether a path needs authentication: authentication is on and the path is not exempt.
    pub fn requires_auth(config: &AuthConfig, path: &str) -> (r: bool)
        ensures
            r == (config.enabled && !path_exempt(*config, path@)),
    {
        config.enabled && !config.is_path_exempt(path)
    }
}

/// A simple header map; names are stored lower-cased.
#[derive(Debug)]
pub struct SimpleHeaders {
    headers: StringMap,
}

impl SimpleHeaders {
    /// The headers, by lower-cased name.
    pub closed spec fn spec_headers(&self) -> Map<Seq<char>, Seq<char>> {
        self.headers@
    }

    /// An empty header map.
    pub fn new() -> (r: Self)
        ensures
            r.spec_headers() == Map::<Seq<char>, Seq<char>>::empty(),
    {
        SimpleHeaders { headers: StringMap::new() }
    }

    /// Insert a header (its name lower-cased), replacing an earlier value.
    pub fn insert(&mut self, name: &str, value: &str)
        ensures
            final(self).spec_headers() == old(self).spec_headers().insert(spec_lowercase(name@), value@),
    {
        let key = lowercase(name);
        self.headers.insert(key.as_str(), value);
    }

    /// A header map with one header.
    pub fn with(name: &str, value: &str) -> (r: Self)
        ensures
            r.spec_headers() == Map::<Seq<char>, Seq<char>>::empty().insert(spec_lowercase(name@), value@),
    {
        let mut h = SimpleHeaders::new();
        h.insert(name, value);
        h
    }
}

impl Default for SimpleHeaders {
    /// An empty header map.
    fn default() -> (r: Self)
        ensures
            r.spec_headers() == Map::<Seq<char>, Seq<char>>::empty(),
    {
        SimpleHeaders::new()
    }
}

impl HeaderAccess for SimpleHeaders {
    /// A header map answers from what it stores.
    open spec fn obeys_header_spec(&self) -> bool {
        true
    }

    /// The value stored under the lower-cased name.
    open spec fn header_value(&self, name: Seq<char>) -> Option<Seq<char>> {
        if self.spec_headers().dom().contains(spec_lowercase(name)) {
            Some(self.spec_headers()[spec_lowercase(name)])
        } else {
            None
        }
    }

    /// The value stored under the lower-cased name.
    fn get_header(&self, name: &str) -> (r: Option<String>)
        ensures
            r is Some <==> self.spec_headers().dom().contains(spec_lowercase(name@)),
            r matches Some(v) ==> v@ == self.spec_headers()[spec_lowercase(name@)],
    {
        let key = lowercase(name);
        match self.headers.get(key.as_str()) {
            Some(v) => Some(owned(v)),
            None => None,
        }
    }
}

} // verus!
