//! Client-side state and request shaping for the backend's REST interface.
//!
//! Sending a request and decoding its body are left to the caller; this
//! module decides what is sent where, which token accompanies it, and what
//! an unsuccessful status means.

pub mod auth;
pub mod client;
pub mod sessions;
pub mod types;

pub use client::{ApiClient, TokenState};
pub use sessions::Endpoint;
pub use types::{
    ApiError, AuthResponse, CreateSessionRequest, ErrorResponse, GameSession, LoginRequest,
    LogoutRequest, MatchmakingState, MatchmakingStatus, MessageResponse, Player, RefreshRequest,
    RefreshResponse, RegisterRequest, SessionStatus,
};
