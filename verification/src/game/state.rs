//! The client's screens and what it knows of its login.

use vstd::prelude::*;

verus! {

/// The screen the client is on.
#[derive(Debug, Clone, Copy, PartialEq, Eq, Hash, Structural)]
pub enum GameState {
    /// Starting up.
    Loading,
    /// Not logged in.
    MainMenu,
    /// A login is under way.
    Authenticating,
    /// Logged in and browsing sessions.
    Lobby,
    /// Waiting for the matchmaker.
    Matchmaking,
    /// Playing.
    InGame,
}

impl Default for GameState {
    fn default() -> (state: Self)
        ensures
            state == GameState::Loading,
    {
        GameState::Loading
    }
}

/// Whether the backend can be reached.
#[derive(Debug, Clone, Copy, PartialEq, Eq, Structural)]
pub enum ConnectionStatus {
    Disconnected,
    Connecting,
    Connected,
    Error,
}

impl Default for ConnectionStatus {
    fn default() -> (status: Self)
        ensures
            status == ConnectionStatus::Disconnected,
    {
        ConnectionStatus::Disconnected
    }
}

/// The player who is logged in, if anyone is.
#[derive(Debug, Clone)]
pub struct CurrentPlayer {
    pub username: Option<String>,
    pub email: Option<String>,
}

impl Default for CurrentPlayer {
    fn default() -> (player: Self)
        ensures
            player.username is None,
            player.email is None,
    {
        CurrentPlayer { username: None, email: None }
    }
}

impl CurrentPlayer {
    /// Whether someone is logged in: a user name is known.
    pub fn is_logged_in(&self) -> (yes: bool)
        ensures
            yes == self.username.is_some(),
    {
        self.username.is_some()
    }

    /// Forgets the player.
    pub fn clear(&mut self)
        ensures
            final(self).username is None,
            final(self).email is None,
    {
        self.username = None;
        self.email = None;
    }
}

} // verus!
