//! The values exchanged with the backend.
//!
//! Identifiers are 128-bit UUIDs carried as `u128`, most significant byte
//! first.

use vstd::prelude::*;

verus! {

/// Why a request did not produce its answer.
#[derive(Debug, Clone)]
pub enum ApiError {
    /// The request carried no usable credentials (status 401, or no token
    /// was stored to begin with).
    Auth(String),
    /// The addressed resource does not exist (status 404).
    NotFound(String),
    /// The request conflicts with the resource's state (status 409).
    Conflict(String),
    /// The backend failed (status 500 to 599).
    Server(String),
    /// Any other unsuccessful status.
    Unknown(String),
}

impl ApiError {
    /// The text carried by the error, whatever its variant.
    pub open spec fn spec_message(&self) -> Seq<char> {
        match self {
            ApiError::Auth(m) => m@,
            ApiError::NotFound(m) => m@,
            ApiError::Conflict(m) => m@,
            ApiError::Server(m) => m@,
            ApiError::Unknown(m) => m@,
        }
    }

    /// The text carried by the error, whatever its variant.
    pub fn message(&self) -> (m: &str)
        ensures
            m@ == self.spec_message(),
    {
        match self {
            ApiError::Auth(m) => m.as_str(),
            ApiError::NotFound(m) => m.as_str(),
            ApiError::Conflict(m) => m.as_str(),
            ApiError::Server(m) => m.as_str(),
            ApiError::Unknown(m) => m.as_str(),
        }
    }
}

/// A registered player.
#[derive(Debug, Clone)]
pub struct Player {
    pub id: u128,
    pub username: String,
    pub email: String,
    pub skill_rating: i32,
}

/// The answer to a successful registration or login.
#[derive(Debug, Clone)]
pub struct AuthResponse {
    pub access_token: String,
    pub refresh_token: String,
    pub player: Player,
}

/// The answer to a successful token refresh.
#[derive(Debug, Clone)]
pub struct RefreshResponse {
    pub access_token: String,
}

/// Where a game session stands in its life.
#[derive(Debug, Clone, Copy, PartialEq, Eq, Structural)]
pub enum SessionStatus {
    Waiting,
    InProgress,
    Finished,
}

/// A game session as the backend reports it.
#[derive(Debug, Clone)]
pub struct GameSession {
    pub id: u128,
    pub owner_id: u128,
    pub name: String,
    pub max_players: i32,
    pub status: SessionStatus,
    pub players: Vec<Player>,
}

/// Whether the matchmaker has found a session yet.
#[derive(Debug, Clone, Copy, PartialEq, Eq, Structural)]
pub enum MatchmakingState {
    Queued,
    Matched,
}

/// The caller's place in the matchmaking queue.
#[derive(Debug, Clone)]
pub struct MatchmakingStatus {
    pub status: MatchmakingState,
    pub session_id: Option<u128>,
    pub position: Option<i32>,
}

/// The body of an unsuccessful answer.
#[derive(Debug, Clone)]
pub struct ErrorResponse {
    pub error: String,
}

/// The body of an answer that only acknowledges.
#[derive(Debug, Clone)]
pub struct MessageResponse {
    pub message: String,
}

/// The body of a registration request.
#[derive(Debug, Clone)]
pub struct RegisterRequest {
    pub username: String,
    pub email: String,
    pub password: String,
}

/// The body of a login request.
#[derive(Debug, Clone)]
pub struct LoginRequest {
    pub email: String,
    pub password: String,
}

/// The body of a token refresh request.
#[derive(Debug, Clone)]
pub struct RefreshRequest {
    pub refresh_token: String,
}

/// The body of a logout request.
#[derive(Debug, Clone)]
pub struct LogoutRequest {
    pub refresh_token: String,
}

/// The body of a request to open a session.
#[derive(Debug, Clone)]
pub struct CreateSessionRequest {
    pub name: String,
    pub max_players: i32,
}

} // verus!
