use madis::commands::connection::connect_to_redis;
use madis::commands::connection::connect_failure;
use madis::commands::connection::connection_opened;
use madis::commands::connection::failure_kind;
use madis::commands::connection::refuse;
use madis::commands::connection::connection_plan;
use madis::commands::connection::connection_url;
use madis::commands::connection::test_connection;
use madis::commands::connection::ConnectFailure;
use madis::commands::connection::ConnectPlan;
use madis::models::connection_config::ConnectionConfig;
use madis::session::SessionError;
use madis::AppState;

fn profile(name: &str, port: u16) -> ConnectionConfig {
    ConnectionConfig {
        name: name.to_string(),
        host: "localhost".to_string(),
        port,
        username: "default".to_string(),
        password: "pw".to_string(),
    }
}

#[test]
fn the_address_names_user_password_host_port_and_database() {
    assert_eq!(connection_url(&profile("a", 6379)), "redis://default:pw@localhost:6379/0");
    assert_eq!(connection_url(&profile("a", 0)), "redis://default:pw@localhost:0/0");
    assert_eq!(connection_url(&profile("a", 65535)), "redis://default:pw@localhost:65535/0");
}

#[test]
fn a_trial_connection_has_one_second() {
    assert_eq!(
        test_connection(&profile("a", 7000)),
        Ok(ConnectPlan {
            name: "a".to_string(),
            url: "redis://default:pw@localhost:7000/0".to_string(),
            timeout_secs: 1,
        })
    );
}

#[test]
fn a_session_has_two_minutes_to_come_up() {
    let state = AppState::new();
    assert_eq!(
        connect_to_redis(&state, &profile("a", 6380)),
        Ok(ConnectPlan {
            name: "a".to_string(),
            url: "redis://default:pw@localhost:6380/0".to_string(),
            timeout_secs: 120,
        })
    );
}

#[test]
fn connecting_a_connected_profile_fails() {
    let mut state = AppState::new();
    assert_eq!(connection_opened(&mut state, "a".to_string(), Ok(())), Ok("a".to_string()));
    assert_eq!(
        connect_to_redis(&state, &profile("a", 6379)),
        Err(SessionError::AlreadyConnected("a".to_string()))
    );
    assert_eq!(
        connection_opened(&mut state, "a".to_string(), Ok(())),
        Err(SessionError::AlreadyConnected("a".to_string()))
    );
    assert_eq!(state.sessions(), vec!["a".to_string()]);
}

#[test]
fn two_profiles_connect_select_and_disconnect() {
    let mut state = AppState::new();
    assert!(connect_to_redis(&state, &profile("A", 6379)).is_ok());
    assert_eq!(connection_opened(&mut state, "A".to_string(), Ok(())), Ok("A".to_string()));
    assert!(connect_to_redis(&state, &profile("B", 6379)).is_ok());
    assert_eq!(connection_opened(&mut state, "B".to_string(), Ok(())), Ok("B".to_string()));
    assert_eq!(state.sessions(), vec!["A".to_string(), "B".to_string()]);
    assert_eq!(state.current(), Some("B".to_string()));
    assert_eq!(state.select("A"), Ok(()));
    assert_eq!(state.current(), Some("A".to_string()));
    assert_eq!(state.disconnect("A"), Ok(()));
    assert_eq!(state.current(), None);
}

#[test]
fn a_failure_of_the_transport_is_handed_on() {
    let mut state = AppState::new();
    assert_eq!(
        connection_opened(&mut state, "a".to_string(), Err(ConnectFailure::Timeout)),
        Err(SessionError::ConnectTimeout)
    );
    assert_eq!(
        connection_opened(
            &mut state,
            "a".to_string(),
            Err(ConnectFailure::Auth("WRONGPASS".to_string()))
        ),
        Err(SessionError::AuthError("WRONGPASS".to_string()))
    );
    assert_eq!(
        connection_opened(
            &mut state,
            "a".to_string(),
            Err(ConnectFailure::Network("refused".to_string()))
        ),
        Err(SessionError::NetworkError("refused".to_string()))
    );
    assert_eq!(state.sessions(), Vec::<String>::new());
    assert_eq!(state.current(), None);
}

#[test]
fn an_address_that_the_transport_refuses_gives_no_plan() {
    let state = AppState::new();
    let mut unreadable = profile("a", 6379);
    unreadable.host = "no host".to_string();
    let words = redis::Client::open("redis://default:pw@no host:6379/0").err().unwrap().to_string();
    assert!(!words.is_empty());
    assert_eq!(test_connection(&unreadable), Err(SessionError::NetworkError(words.clone())));
    assert_eq!(connect_to_redis(&state, &unreadable), Err(SessionError::NetworkError(words)));
    let mut bad_number = profile("a", 6379);
    bad_number.host = "host/x".to_string();
    assert_eq!(
        test_connection(&bad_number),
        Err(SessionError::NetworkError(
            redis::Client::open("redis://default:pw@host/x:6379/0").err().unwrap().to_string()
        ))
    );
    let mut no_host = profile("a", 6379);
    no_host.host = String::new();
    assert!(matches!(connect_to_redis(&state, &no_host), Err(SessionError::NetworkError(_))));
}

#[test]
fn an_open_session_is_reported_before_the_address_is_looked_at() {
    let mut state = AppState::new();
    assert_eq!(state.connect("a".to_string()), Ok("a".to_string()));
    let mut unreadable = profile("a", 6379);
    unreadable.host = "no host".to_string();
    assert_eq!(
        connect_to_redis(&state, &unreadable),
        Err(SessionError::AlreadyConnected("a".to_string()))
    );
}

#[test]
fn the_plan_follows_what_the_transport_said_of_the_address() {
    assert_eq!(
        connection_plan(&profile("a", 1), 7, Ok(())),
        Ok(ConnectPlan {
            name: "a".to_string(),
            url: "redis://default:pw@localhost:1/0".to_string(),
            timeout_secs: 7,
        })
    );
    assert_eq!(
        connection_plan(&profile("a", 1), 7, Err("did not parse".to_string())),
        Err(SessionError::NetworkError("did not parse".to_string()))
    );
}

#[test]
fn time_that_ran_out_counts_before_refused_credentials() {
    let text = "words".to_string();
    assert_eq!(failure_kind(true, true, text.clone()), ConnectFailure::Timeout);
    assert_eq!(failure_kind(true, false, text.clone()), ConnectFailure::Timeout);
    assert_eq!(failure_kind(false, true, text.clone()), ConnectFailure::Auth(text.clone()));
    assert_eq!(failure_kind(false, false, text.clone()), ConnectFailure::Network(text));
}

#[test]
fn the_errors_of_the_transport_are_told_apart() {
    let slow = redis::RedisError::from(std::io::Error::new(std::io::ErrorKind::TimedOut, "slow"));
    assert_eq!(connect_failure(&slow), ConnectFailure::Timeout);
    let waiting = redis::RedisError::from(std::io::Error::new(std::io::ErrorKind::WouldBlock, "w"));
    assert_eq!(connect_failure(&waiting), ConnectFailure::Timeout);
    let denied = redis::RedisError::from((redis::ErrorKind::AuthenticationFailed, "denied"));
    assert_eq!(connect_failure(&denied), ConnectFailure::Auth(denied.to_string()));
    let refused = redis::RedisError::from(std::io::Error::new(
        std::io::ErrorKind::ConnectionRefused,
        "refused",
    ));
    assert_eq!(connect_failure(&refused), ConnectFailure::Network(refused.to_string()));
    assert!(refused.to_string().contains("refused"));
    let other = redis::RedisError::from((redis::ErrorKind::ResponseError, "other"));
    assert_eq!(connect_failure(&other), ConnectFailure::Network(other.to_string()));
}

#[test]
fn each_failure_of_the_transport_has_its_failure_of_the_table() {
    assert_eq!(refuse(ConnectFailure::Timeout), SessionError::ConnectTimeout);
    assert_eq!(
        refuse(ConnectFailure::Auth("a".to_string())),
        SessionError::AuthError("a".to_string())
    );
    assert_eq!(
        refuse(ConnectFailure::Network("n".to_string())),
        SessionError::NetworkError("n".to_string())
    );
}
