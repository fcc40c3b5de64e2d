//! Registration, login, token refresh and logout: the bodies to send and
//! what a successful answer changes.

use super::client::ApiClient;
use super::types::{
    ApiError, AuthResponse, CreateSessionRequest, ErrorResponse, LoginRequest, LogoutRequest,
    RefreshRequest, RefreshResponse, RegisterRequest,
};
use vstd::prelude::*;

verus! {

impl ApiClient {
    /// The body of a registration request.
    pub fn register_request(username: &str, email: &str, password: &str) -> (request:
        RegisterRequest)
        ensures
            request.username@ == username@,
            request.email@ == email@,
            request.password@ == password@,
    {
        RegisterRequest {
            username: String::from_str(username),
            email: String::from_str(email),
            password: String::from_str(password),
        }
    }

    /// The body of a login request.
    pub fn login_request(email: &str, password: &str) -> (request: LoginRequest)
        ensures
            request.email@ == email@,
            request.password@ == password@,
    {
        LoginRequest { email: String::from_str(email), password: String::from_str(password) }
    }

    /// Stores the tokens of a successful registration or login.
    pub fn accept_auth(&mut self, auth: &AuthResponse)
        ensures
            final(self).spec_access_token() == Some(auth.access_token@),
            final(self).spec_refresh_token() == Some(auth.refresh_token@),
            final(self).spec_base_url() == old(self).spec_base_url(),
    {
        self.set_tokens(auth.access_token.clone(), auth.refresh_token.clone());
    }

    /// The body of a token refresh, which needs a stored refresh token.
    pub fn refresh_request(&self) -> (request: Result<RefreshRequest, ApiError>)
        ensures
            match request {
                Ok(r) => self.spec_refresh_token() == Some(r.refresh_token@),
                Err(e) => self.spec_refresh_token() is None && e is Auth && e.spec_message()
                    == "No refresh token available"@,
            },
    {
        match self.refresh_token() {
            Some(refresh_token) => Ok(RefreshRequest { refresh_token }),
            None => Err(ApiError::Auth(String::from_str("No refresh token available"))),
        }
    }

    /// Stores the access token of a successful refresh and hands it back.
    pub fn accept_refresh(&mut self, refreshed: RefreshResponse) -> (token: String)
        ensures
            token@ == refreshed.access_token@,
            final(self).spec_access_token() == Some(refreshed.access_token@),
            final(self).spec_refresh_token() == old(self).spec_refresh_token(),
            final(self).spec_base_url() == old(self).spec_base_url(),
    {
        self.set_access_token(refreshed.access_token.clone());
        refreshed.access_token
    }

    /// The body of a logout request, or nothing where no refresh token is
    /// stored and the backend need not be told.
    pub fn logout_request(&self) -> (request: Option<LogoutRequest>)
        ensures
            match request {
                Some(r) => self.spec_refresh_token() == Some(r.refresh_token@),
                None => self.spec_refresh_token() is None,
            },
    {
        match self.refresh_token() {
            Some(refresh_token) => Some(LogoutRequest { refresh_token }),
            None => None,
        }
    }

    /// Finishes a logout. `answer` is the backend's unsuccessful answer,
    /// its status and its body where that could be read; it is `None`
    /// where no request was sent, for want of a refresh token, and where
    /// the backend answered with success. Both tokens are forgotten in
    /// every case: a logout that the backend refused still logs out here.
    pub fn conclude_logout(&mut self, answer: Option<(u16, Option<ErrorResponse>)>) -> (result:
        Result<(), ApiError>)
        ensures
            final(self).spec_access_token() is None,
            final(self).spec_refresh_token() is None,
            final(self).spec_base_url() == old(self).spec_base_url(),
            match answer {
                None => result is Ok,
                Some((status, body)) => result matches Err(e) && Self::spec_error_for(
                    status,
                    Self::spec_error_text(body),
                    e,
                ),
            },
    {
        self.clear_tokens();
        match answer {
            None => Ok(()),
            Some((status, body)) => Err(Self::parse_error(status, body)),
        }
    }

    /// The body of a request to open a session.
    pub fn create_session_request(name: &str, max_players: i32) -> (request:
        CreateSessionRequest)
        ensures
            request.name@ == name@,
            request.max_players == max_players,
    {
        CreateSessionRequest { name: String::from_str(name), max_players }
    }
}

} // verus!
