use videowall::application::AppError;
use videowall::infrastructure::token_exchange::{exchange_outcome, TokenReply};
use videowall::infrastructure::video_drains::{SessionAction, SessionEvent};
use videowall::infrastructure::ActiveVideoDrains;
use videowall::infrastructure::LiveKitNativeSession;

#[test]
fn stop_unsubscribes_and_aborts_active_video_drains() {
    let mut drains = ActiveVideoDrains::default();
    let action = drains.handle_event(SessionEvent::VideoTrackSubscribed {
        sid: "track-1".to_string(),
        drain: 7u32,
    });
    assert!(matches!(action, SessionAction::AbortReplaced(None)));

    let action = drains.handle_event(SessionEvent::Cancelled);
    assert!(action.ends_session());
    match action {
        SessionAction::UnsubscribeAllAndClose(all) => {
            assert_eq!(all, vec![("track-1".to_string(), 7u32)]);
        }
        _ => panic!("a stop request must unsubscribe and close"),
    }
    assert!(drains.is_empty());
}

#[test]
fn resubscribing_a_track_replaces_and_returns_its_drain() {
    let mut drains = ActiveVideoDrains::new();
    assert_eq!(drains.insert("a".to_string(), 1), None);
    assert_eq!(drains.insert("b".to_string(), 2), None);
    assert_eq!(drains.insert("a".to_string(), 3), Some(1));
    let mut all = drains.take_all();
    all.sort();
    assert_eq!(all, vec![("a".to_string(), 3), ("b".to_string(), 2)]);
    assert!(drains.is_empty());
}

#[test]
fn unsubscribing_removes_only_that_track() {
    let mut drains = ActiveVideoDrains::new();
    drains.insert("a".to_string(), 'x');
    drains.insert("b".to_string(), 'y');
    match drains.handle_event(SessionEvent::TrackUnsubscribed { sid: "a".to_string() }) {
        SessionAction::AbortRemoved(Some('x')) => {}
        _ => panic!("the drain of track a must be stopped"),
    }
    assert_eq!(drains.remove("a"), None);
    assert_eq!(drains.remove("b"), Some('y'));
    assert!(drains.is_empty());
}

#[test]
fn unsubscribing_an_unknown_track_is_harmless() {
    let mut drains: ActiveVideoDrains<u8> = ActiveVideoDrains::new();
    let action = drains.handle_event(SessionEvent::TrackUnsubscribed { sid: "nope".to_string() });
    assert!(matches!(action, SessionAction::AbortRemoved(None)));
    assert!(!action.ends_session());
}

#[test]
fn end_of_events_aborts_all_without_unsubscribing() {
    let mut drains = ActiveVideoDrains::new();
    drains.insert("a".to_string(), 1u8);
    drains.insert("b".to_string(), 2u8);
    let action = drains.handle_event(SessionEvent::EventsClosed);
    assert!(action.ends_session());
    match action {
        SessionAction::AbortAll(mut all) => {
            all.sort();
            assert_eq!(all, vec![("a".to_string(), 1), ("b".to_string(), 2)]);
        }
        _ => panic!("the end of the event stream must abort all drains"),
    }
    assert!(drains.is_empty());
}

#[test]
fn other_events_change_nothing() {
    let mut drains = ActiveVideoDrains::new();
    drains.insert("a".to_string(), 1u8);
    let action = drains.handle_event(SessionEvent::Other);
    assert!(matches!(action, SessionAction::Continue));
    assert!(!action.ends_session());
    assert!(!drains.is_empty());
    assert_eq!(drains.remove("a"), Some(1));
}

#[test]
fn successful_reply_gives_credentials() {
    let creds = exchange_outcome(TokenReply::Credentials {
        token: "jwt".to_string(),
        api_url: "https://host.example".to_string(),
    })
    .unwrap();
    assert_eq!(creds.wss_url, "wss://host.example");
    assert_eq!(creds.jwt, "jwt");
}

#[test]
fn http_error_reply_names_status_and_body() {
    match exchange_outcome(TokenReply::HttpError {
        status: "401 Unauthorized".to_string(),
        body: "bad token".to_string(),
    }) {
        Err(e) => assert_eq!(e.to_string(), "token exchange failed: HTTP 401 Unauthorized: bad token"),
        Ok(_) => panic!("an HTTP error must fail the exchange"),
    }
}

#[test]
fn invalid_body_and_send_failure_are_exchange_errors() {
    match exchange_outcome(TokenReply::InvalidBody("missing field `token`".to_string())) {
        Err(AppError::TokenExchange(d)) => assert_eq!(d, "invalid response: missing field `token`"),
        _ => panic!("an invalid body must fail the exchange"),
    }
    match exchange_outcome(TokenReply::SendFailed("connection refused".to_string())) {
        Err(AppError::TokenExchange(d)) => assert_eq!(d, "connection refused"),
        _ => panic!("a send failure must fail the exchange"),
    }
}

#[test]
fn connect_error_message() {
    let e = AppError::Connect("timeout".to_string());
    assert_eq!(e.to_string(), "livekit connect failed: timeout");
}

#[test]
fn native_session_constructs() {
    let _a = LiveKitNativeSession::new();
    let _b: LiveKitNativeSession = Default::default();
}
