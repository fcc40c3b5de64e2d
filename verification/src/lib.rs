//! Host side of an embedded scripting bridge for a small 2D game client,
//! with the client-side rules of the backend's REST interface.

pub mod api;
pub mod game;
pub mod scripting;
pub mod text;

pub use api::ApiClient;
pub use game::{ConnectionStatus, CurrentPlayer, GameState};
