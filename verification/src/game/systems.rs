//! When the client leaves its loading screen.

use super::state::{ConnectionStatus, GameState};
use vstd::prelude::*;

verus! {

/// Starts connecting to the backend.
pub fn setup_api_client(connection_status: &mut ConnectionStatus)
    ensures
        *final(connection_status) == ConnectionStatus::Connecting,
{
    *connection_status = ConnectionStatus::Connecting;
}

/// Finishes connecting: a client that was connecting is now connected and
/// goes to the main menu. In any other status nothing happens.
pub fn check_connection(connection_status: &mut ConnectionStatus) -> (next: Option<GameState>)
    ensures
        *old(connection_status) == ConnectionStatus::Connecting ==> *final(connection_status)
            == ConnectionStatus::Connected && next == Some(GameState::MainMenu),
        *old(connection_status) != ConnectionStatus::Connecting ==> *final(connection_status)
            == *old(connection_status) && next is None,
{
    match *connection_status {
        ConnectionStatus::Connecting => {
            *connection_status = ConnectionStatus::Connected;
            Some(GameState::MainMenu)
        },
        _ => None,
    }
}

/// Where loading leads: to the main menu, as soon as the client is no
/// longer connecting, whether it got through or not.
pub fn check_loading_complete(connection_status: ConnectionStatus) -> (next: Option<GameState>)
    ensures
        next == if connection_status != ConnectionStatus::Connecting {
            Some(GameState::MainMenu)
        } else {
            None
        },
{
    match connection_status {
        ConnectionStatus::Connecting => None,
        _ => Some(GameState::MainMenu),
    }
}

} // verus!
