use revgame::api::{
    ApiClient, ApiError, AuthResponse, Endpoint, ErrorResponse, Player, RefreshResponse,
};

#[test]
fn test_client_creation() {
    let client = ApiClient::new("http://localhost:8080");
    assert_eq!(client.base_url(), "http://localhost:8080");
    assert!(!client.is_authenticated());
}

#[test]
fn test_token_management() {
    let mut client = ApiClient::new("http://localhost:8080");

    client.set_tokens("access123".to_string(), "refresh456".to_string());

    assert!(client.is_authenticated());
    assert_eq!(client.access_token(), Some("access123".to_string()));
    assert_eq!(client.refresh_token(), Some("refresh456".to_string()));

    client.clear_tokens();
    assert!(!client.is_authenticated());
}

#[test]
fn session_paths_carry_the_hyphenated_identifier() {
    let id = 0xa1a2a3a4b1b2c1c2d1d2d3d4d5d6d7d8u128;
    assert_eq!(
        Endpoint::Session(id).path(),
        "/api/v1/sessions/a1a2a3a4-b1b2-c1c2-d1d2-d3d4d5d6d7d8"
    );
    assert_eq!(
        Endpoint::JoinSession(id).path(),
        "/api/v1/sessions/a1a2a3a4-b1b2-c1c2-d1d2-d3d4d5d6d7d8/join"
    );
    assert_eq!(
        Endpoint::LeaveSession(0x0f).path(),
        "/api/v1/sessions/00000000-0000-0000-0000-00000000000f/leave"
    );
}

#[test]
fn status_picks_the_error_variant() {
    let body = |text: &str| Some(ErrorResponse { error: text.to_string() });
    assert!(matches!(ApiClient::parse_error(401, body("no")), ApiError::Auth(m) if m == "no"));
    assert!(matches!(ApiClient::parse_error(404, body("gone")), ApiError::NotFound(m) if m == "gone"));
    assert!(matches!(ApiClient::parse_error(409, body("taken")), ApiError::Conflict(m) if m == "taken"));
    assert!(matches!(ApiClient::parse_error(500, body("a")), ApiError::Server(_)));
    assert!(matches!(ApiClient::parse_error(599, body("b")), ApiError::Server(_)));
    assert!(matches!(ApiClient::parse_error(600, body("c")), ApiError::Unknown(_)));
    assert!(matches!(ApiClient::parse_error(400, None), ApiError::Unknown(m) if m == "Unknown error"));
}

#[test]
fn every_endpoint_has_its_path() {
    assert_eq!(Endpoint::Register.path(), "/api/v1/auth/register");
    assert_eq!(Endpoint::Login.path(), "/api/v1/auth/login");
    assert_eq!(Endpoint::Refresh.path(), "/api/v1/auth/refresh");
    assert_eq!(Endpoint::Logout.path(), "/api/v1/auth/logout");
    assert_eq!(Endpoint::Sessions.path(), "/api/v1/sessions");
    assert_eq!(Endpoint::MatchmakingQueue.path(), "/api/v1/matchmaking/queue");
    assert_eq!(Endpoint::MatchmakingStatus.path(), "/api/v1/matchmaking/status");
    assert_eq!(
        Endpoint::Session(u128::MAX).path(),
        "/api/v1/sessions/ffffffff-ffff-ffff-ffff-ffffffffffff"
    );
    assert_eq!(
        Endpoint::Session(0x0123456789abcdef_0123456789abcdef).path(),
        "/api/v1/sessions/01234567-89ab-cdef-0123-456789abcdef"
    );
}

#[test]
fn addresses_are_the_base_followed_by_the_path() {
    let client = ApiClient::new("http://localhost:8080");
    assert_eq!(client.url("/api/v1/sessions"), "http://localhost:8080/api/v1/sessions");
    assert_eq!(client.url(""), "http://localhost:8080");
    assert_eq!(
        client.endpoint_url(&Endpoint::Login),
        "http://localhost:8080/api/v1/auth/login"
    );
    assert_eq!(
        client.endpoint_url(&Endpoint::LeaveSession(1)),
        "http://localhost:8080/api/v1/sessions/00000000-0000-0000-0000-000000000001/leave"
    );
}

#[test]
fn the_backend_is_local_unless_configured() {
    assert_eq!(ApiClient::base_url_or_default(None), "http://localhost:8080");
    assert_eq!(
        ApiClient::base_url_or_default(Some("https://play.example.com".to_string())),
        "https://play.example.com"
    );
}

#[test]
fn tokens_are_set_one_by_one() {
    let mut client = ApiClient::new("http://localhost:8080");
    assert_eq!(client.access_token(), None);
    assert_eq!(client.refresh_token(), None);
    client.set_refresh_token("r".to_string());
    assert!(!client.is_authenticated());
    assert_eq!(client.refresh_token(), Some("r".to_string()));
    client.set_access_token("a".to_string());
    assert!(client.is_authenticated());
    assert_eq!(client.access_token(), Some("a".to_string()));
    assert_eq!(client.refresh_token(), Some("r".to_string()));
    assert_eq!(client.base_url(), "http://localhost:8080");
}

#[test]
fn requests_that_need_a_token_fail_without_one() {
    let mut client = ApiClient::new("http://localhost:8080");
    assert!(matches!(
        client.bearer_token(),
        Err(ApiError::Auth(message)) if message == "Not authenticated"
    ));
    assert!(matches!(
        client.refresh_request(),
        Err(ApiError::Auth(message)) if message == "No refresh token available"
    ));
    assert!(client.logout_request().is_none());

    client.set_tokens("access123".to_string(), "refresh456".to_string());
    assert_eq!(client.bearer_token().ok(), Some("access123".to_string()));
    assert_eq!(
        client.refresh_request().ok().map(|request| request.refresh_token),
        Some("refresh456".to_string())
    );
    assert_eq!(
        client.logout_request().map(|request| request.refresh_token),
        Some("refresh456".to_string())
    );
    // Asking for the body of a logout does not log out.
    assert!(client.is_authenticated());
}

#[test]
fn answers_update_the_tokens() {
    let mut client = ApiClient::new("http://localhost:8080");
    let auth = AuthResponse {
        access_token: "a1".to_string(),
        refresh_token: "r1".to_string(),
        player: Player {
            id: 7,
            username: "ada".to_string(),
            email: "ada@example.com".to_string(),
            skill_rating: 1200,
        },
    };
    client.accept_auth(&auth);
    assert_eq!(client.access_token(), Some("a1".to_string()));
    assert_eq!(client.refresh_token(), Some("r1".to_string()));

    let token = client.accept_refresh(RefreshResponse { access_token: "a2".to_string() });
    assert_eq!(token, "a2");
    assert_eq!(client.access_token(), Some("a2".to_string()));
    assert_eq!(client.refresh_token(), Some("r1".to_string()));
}

#[test]
fn request_bodies_carry_what_they_were_given() {
    let register = ApiClient::register_request("ada", "ada@example.com", "TestPassword123!");
    assert_eq!(register.username, "ada");
    assert_eq!(register.email, "ada@example.com");
    assert_eq!(register.password, "TestPassword123!");
    let login = ApiClient::login_request("ada@example.com", "TestPassword123!");
    assert_eq!(login.email, "ada@example.com");
    assert_eq!(login.password, "TestPassword123!");
    let create = ApiClient::create_session_request("Test Session", 4);
    assert_eq!(create.name, "Test Session");
    assert_eq!(create.max_players, 4);
}

#[test]
fn an_error_hands_out_its_text() {
    assert_eq!(ApiError::Auth("a".to_string()).message(), "a");
    assert_eq!(ApiError::NotFound("b".to_string()).message(), "b");
    assert_eq!(ApiError::Conflict("c".to_string()).message(), "c");
    assert_eq!(ApiError::Server("d".to_string()).message(), "d");
    assert_eq!(ApiError::Unknown("e".to_string()).message(), "e");
    assert_eq!(ApiClient::parse_error(503, None).message(), "Unknown error");
    assert!(matches!(ApiClient::parse_error(499, None), ApiError::Unknown(_)));
    assert!(matches!(ApiClient::parse_error(200, None), ApiError::Unknown(_)));
}

#[test]
fn a_logout_forgets_the_tokens_whatever_the_backend_says() {
    // Without a refresh token nothing is sent and the logout succeeds.
    let mut client = ApiClient::new("http://localhost:8080");
    client.set_access_token("a".to_string());
    assert!(client.logout_request().is_none());
    assert!(client.conclude_logout(None).is_ok());
    assert_eq!(client.access_token(), None);
    assert_eq!(client.refresh_token(), None);

    // The body carries the refresh token; a success forgets both tokens.
    client.set_tokens("a".to_string(), "r".to_string());
    assert_eq!(client.logout_request().map(|request| request.refresh_token), Some("r".to_string()));
    assert!(client.conclude_logout(None).is_ok());
    assert!(!client.is_authenticated());
    assert_eq!(client.refresh_token(), None);

    // An error status gives the error, and the tokens are forgotten all the same.
    client.set_tokens("a".to_string(), "r".to_string());
    let body = Some(ErrorResponse { error: "token unknown".to_string() });
    assert!(matches!(
        client.conclude_logout(Some((401, body))),
        Err(ApiError::Auth(message)) if message == "token unknown"
    ));
    assert_eq!(client.access_token(), None);
    assert_eq!(client.refresh_token(), None);

    client.set_tokens("a".to_string(), "r".to_string());
    assert!(matches!(
        client.conclude_logout(Some((503, None))),
        Err(ApiError::Server(message)) if message == "Unknown error"
    ));
    assert!(!client.is_authenticated());
    assert_eq!(client.refresh_token(), None);
    assert_eq!(client.base_url(), "http://localhost:8080");
}
