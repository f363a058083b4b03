use madis::session::SessionError;
use madis::AppState;

#[test]
fn a_new_table_has_no_session() {
    let state = AppState::new();
    assert_eq!(state.current(), None);
    assert_eq!(state.sessions(), Vec::<String>::new());
    assert!(!state.is_connected("A"));
}

#[test]
fn the_last_session_opened_is_selected() {
    let mut state = AppState::new();
    assert_eq!(state.connect("A".to_string()), Ok("A".to_string()));
    assert_eq!(state.connect("B".to_string()), Ok("B".to_string()));
    assert_eq!(state.sessions(), vec!["A".to_string(), "B".to_string()]);
    assert_eq!(state.current(), Some("B".to_string()));
    assert_eq!(state.select("A"), Ok(()));
    assert_eq!(state.current(), Some("A".to_string()));
    assert_eq!(state.disconnect("A"), Ok(()));
    assert_eq!(state.current(), None);
    assert_eq!(state.sessions(), vec!["B".to_string()]);
    assert!(state.is_connected("B"));
}

#[test]
fn a_name_is_open_once() {
    let mut state = AppState::new();
    assert_eq!(state.connect("A".to_string()), Ok("A".to_string()));
    assert_eq!(state.connect("B".to_string()), Ok("B".to_string()));
    assert_eq!(
        state.connect("A".to_string()),
        Err(SessionError::AlreadyConnected("A".to_string()))
    );
    assert_eq!(state.sessions(), vec!["A".to_string(), "B".to_string()]);
    assert_eq!(state.current(), Some("B".to_string()));
}

#[test]
fn selecting_or_closing_an_unknown_session_fails() {
    let mut state = AppState::new();
    assert_eq!(state.connect("A".to_string()), Ok("A".to_string()));
    assert_eq!(state.select("B"), Err(SessionError::NotFound("B".to_string())));
    assert_eq!(state.disconnect("B"), Err(SessionError::NotFound("B".to_string())));
    assert_eq!(state.current(), Some("A".to_string()));
    assert_eq!(state.sessions(), vec!["A".to_string()]);
}

#[test]
fn closing_an_unselected_session_keeps_the_selection() {
    let mut state = AppState::new();
    assert_eq!(state.connect("A".to_string()), Ok("A".to_string()));
    assert_eq!(state.connect("B".to_string()), Ok("B".to_string()));
    assert_eq!(state.connect("C".to_string()), Ok("C".to_string()));
    assert_eq!(state.disconnect("B"), Ok(()));
    assert_eq!(state.current(), Some("C".to_string()));
    assert_eq!(state.sessions(), vec!["A".to_string(), "C".to_string()]);
}

#[test]
fn session_failures_are_worded_by_kind() {
    assert_eq!(
        SessionError::AlreadyConnected("A".to_string()).message(),
        "Connection 'A' already connected."
    );
    assert_eq!(SessionError::NotFound("A".to_string()).message(), "Connection 'A' is not connected.");
    assert_eq!(SessionError::ConnectTimeout.message(), "Failed to connect to Redis: timed out");
    assert_eq!(
        SessionError::AuthError("WRONGPASS".to_string()).message(),
        "Failed to connect to Redis: WRONGPASS"
    );
    assert_eq!(
        SessionError::NetworkError("refused".to_string()).message(),
        "Failed to connect to Redis: refused"
    );
}
