use revgame::game::{check_connection, check_loading_complete, setup_api_client};
use revgame::{ConnectionStatus, CurrentPlayer, GameState};

#[test]
fn the_client_starts_loading_and_disconnected() {
    assert_eq!(GameState::default(), GameState::Loading);
    assert_eq!(ConnectionStatus::default(), ConnectionStatus::Disconnected);
    let player = CurrentPlayer::default();
    assert!(!player.is_logged_in());
    assert_eq!(player.email, None);
}

#[test]
fn a_player_with_a_name_is_logged_in() {
    let mut player = CurrentPlayer {
        username: Some("ada".to_string()),
        email: Some("ada@example.com".to_string()),
    };
    assert!(player.is_logged_in());
    player.clear();
    assert!(!player.is_logged_in());
    assert_eq!(player.username, None);
    assert_eq!(player.email, None);
    let nameless = CurrentPlayer { username: None, email: Some("x@example.com".to_string()) };
    assert!(!nameless.is_logged_in());
}

#[test]
fn connecting_leads_to_the_main_menu() {
    let mut status = ConnectionStatus::default();
    assert_eq!(check_connection(&mut status), None);
    assert_eq!(status, ConnectionStatus::Disconnected);
    setup_api_client(&mut status);
    assert_eq!(status, ConnectionStatus::Connecting);
    assert_eq!(check_loading_complete(status), None);
    assert_eq!(check_connection(&mut status), Some(GameState::MainMenu));
    assert_eq!(status, ConnectionStatus::Connected);
    assert_eq!(check_connection(&mut status), None);
    assert_eq!(check_loading_complete(ConnectionStatus::Connected), Some(GameState::MainMenu));
    assert_eq!(check_loading_complete(ConnectionStatus::Error), Some(GameState::MainMenu));
    assert_eq!(check_loading_complete(ConnectionStatus::Disconnected), Some(GameState::MainMenu));
}
