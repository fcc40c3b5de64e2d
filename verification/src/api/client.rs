//! The client's own state: the backend's address and the stored tokens.

use super::sessions::Endpoint;
use super::types::{ApiError, ErrorResponse};
use crate::text::text_of;
use vstd::prelude::*;

verus! {

/// The tokens that accompany authenticated requests.
pub struct TokenState {
    pub access_token: Option<String>,
    pub refresh_token: Option<String>,
}

impl Default for TokenState {
    fn default() -> (tokens: Self)
        ensures
            tokens.access_token is None,
            tokens.refresh_token is None,
    {
        TokenState { access_token: None, refresh_token: None }
    }
}

/// What a client knows between requests: where the backend is, and the
/// tokens of the current login, if any.
pub struct ApiClient {
    base_url: String,
    tokens: TokenState,
}

/// Copies an optional string.
fn copy_of(s: &Option<String>) -> (copy: Option<String>)
    ensures
        text_of(copy) == text_of(*s),
{
    match s {
        Some(t) => Some(t.clone()),
        None => None,
    }
}

impl ApiClient {
    /// The backend's base address.
    pub closed spec fn spec_base_url(&self) -> Seq<char> {
        self.base_url@
    }

    /// The stored access token.
    pub closed spec fn spec_access_token(&self) -> Option<Seq<char>> {
        text_of(self.tokens.access_token)
    }

    /// The stored refresh token.
    pub closed spec fn spec_refresh_token(&self) -> Option<Seq<char>> {
        text_of(self.tokens.refresh_token)
    }

    /// A client for the backend at `base_url`, not logged in.
    pub fn new(base_url: &str) -> (client: Self)
        ensures
            client.spec_base_url() == base_url@,
            client.spec_access_token() is None,
            client.spec_refresh_token() is None,
    {
        ApiClient { base_url: String::from_str(base_url), tokens: TokenState::default() }
    }

    /// The base address to use: the configured one, or that of a backend
    /// on this machine where none is configured.
    pub fn base_url_or_default(configured: Option<String>) -> (url: String)
        ensures
            url@ == match configured {
                Some(address) => address@,
                None => "http://localhost:8080"@,
            },
    {
        match configured {
            Some(address) => address,
            None => String::from_str("http://localhost:8080"),
        }
    }

    /// The backend's base address.
    pub fn base_url(&self) -> (url: &str)
        ensures
            url@ == self.spec_base_url(),
    {
        self.base_url.as_str()
    }

    /// Stores an access token, keeping the refresh token.
    pub fn set_access_token(&mut self, token: String)
        ensures
            final(self).spec_access_token() == Some(token@),
            final(self).spec_refresh_token() == old(self).spec_refresh_token(),
            final(self).spec_base_url() == old(self).spec_base_url(),
    {
        self.tokens.access_token = Some(token);
    }

    /// Stores a refresh token, keeping the access token.
    pub fn set_refresh_token(&mut self, token: String)
        ensures
            final(self).spec_refresh_token() == Some(token@),
            final(self).spec_access_token() == old(self).spec_access_token(),
            final(self).spec_base_url() == old(self).spec_base_url(),
    {
        self.tokens.refresh_token = Some(token);
    }

    /// Stores both tokens.
    pub fn set_tokens(&mut self, access_token: String, refresh_token: String)
        ensures
            final(self).spec_access_token() == Some(access_token@),
            final(self).spec_refresh_token() == Some(refresh_token@),
            final(self).spec_base_url() == old(self).spec_base_url(),
    {
        self.tokens.access_token = Some(access_token);
        self.tokens.refresh_token = Some(refresh_token);
    }

    /// The stored access token.
    pub fn access_token(&self) -> (token: Option<String>)
        ensures
            text_of(token) == self.spec_access_token(),
    {
        copy_of(&self.tokens.access_token)
    }

    /// The stored refresh token.
    pub fn refresh_token(&self) -> (token: Option<String>)
        ensures
            text_of(token) == self.spec_refresh_token(),
    {
        copy_of(&self.tokens.refresh_token)
    }

    /// Forgets both tokens.
    pub fn clear_tokens(&mut self)
        ensures
            final(self).spec_access_token() is None,
            final(self).spec_refresh_token() is None,
            final(self).spec_base_url() == old(self).spec_base_url(),
    {
        self.tokens.access_token = None;
        self.tokens.refresh_token = None;
    }

    /// Whether an access token is stored.
    pub fn is_authenticated(&self) -> (yes: bool)
        ensures
            yes == self.spec_access_token().is_some(),
    {
        self.tokens.access_token.is_some()
    }

    /// The full address of `path`: the base address followed by the path,
    /// with nothing added between them.
    pub fn url(&self, path: &str) -> (url: String)
        ensures
            url@ == self.spec_base_url() + path@,
    {
        self.base_url.clone().concat(path)
    }

    /// The full address of an endpoint.
    pub fn endpoint_url(&self, endpoint: &Endpoint) -> (url: String)
        ensures
            url@ == self.spec_base_url() + endpoint.spec_path(),
    {
        let path = endpoint.path();
        self.url(path.as_str())
    }

    /// The text reported for an unsuccessful answer: the body's, or a
    /// fixed one where the body could not be read.
    pub open spec fn spec_error_text(body: Option<ErrorResponse>) -> Seq<char> {
        match body {
            Some(b) => b.error@,
            None => "Unknown error"@,
        }
    }

    /// Whether `error` is what an unsuccessful answer with this status and
    /// this text means.
    pub open spec fn spec_error_for(status: u16, text: Seq<char>, error: ApiError) -> bool {
        &&& error.spec_message() == text
        &&& if status == 401 {
            error is Auth
        } else if status == 404 {
            error is NotFound
        } else if status == 409 {
            error is Conflict
        } else if 500 <= status <= 599 {
            error is Server
        } else {
            error is Unknown
        }
    }

    /// Turns an unsuccessful answer into an error: the status picks the
    /// variant, the body gives the text.
    pub fn parse_error(status: u16, body: Option<ErrorResponse>) -> (error: ApiError)
        ensures
            Self::spec_error_for(status, Self::spec_error_text(body), error),
    {
        let text = match body {
            Some(b) => b.error,
            None => String::from_str("Unknown error"),
        };
        if status == 401 {
            ApiError::Auth(text)
        } else if status == 404 {
            ApiError::NotFound(text)
        } else if status == 409 {
            ApiError::Conflict(text)
        } else if 500 <= status && status <= 599 {
            ApiError::Server(text)
        } else {
            ApiError::Unknown(text)
        }
    }

    /// The access token for a request that needs one, or the error that
    /// stands for its absence.
    pub fn bearer_token(&self) -> (token: Result<String, ApiError>)
        ensures
            match token {
                Ok(t) => self.spec_access_token() == Some(t@),
                Err(e) => self.spec_access_token() is None && e is Auth && e.spec_message()
                    == "Not authenticated"@,
            },
    {
        match &self.tokens.access_token {
            Some(t) => Ok(t.clone()),
            None => Err(ApiError::Auth(String::from_str("Not authenticated"))),
        }
    }
}

} // verus!
