use p2pg::error::GameError;
use p2pg::session::{
    process_ggrs_events, wait_for_players, GameState, SessionEvent, DESYNC_INTERVAL, INPUT_DELAY,
    NUM_PLAYERS,
};

/// Two peers that observe the same ordered rendezvous list build the
/// identical roster and each claims its own, distinct slot.
#[test]
fn peers_agree_on_the_roster() {
    let players = vec![1111u64, 2222u64];
    let a = wait_for_players(true, &players, 1111).expect("peer a is ready");
    let b = wait_for_players(true, &players, 2222).expect("peer b is ready");
    assert_eq!(a.roster, players);
    assert_eq!(b.roster, players);
    assert_eq!(a.local_handle, 0);
    assert_eq!(b.local_handle, 1);
    assert_ne!(a.local_handle, b.local_handle);
    assert_eq!(a.input_delay, INPUT_DELAY);
    assert_eq!(a.desync_interval, DESYNC_INTERVAL);
}

#[test]
fn waiting_until_the_channel_and_peers_arrive() {
    let players = vec![1111u64, 2222u64];
    assert_eq!(wait_for_players(false, &players, 1111).unwrap_err(), GameError::TransportNotReady);
    let alone = vec![1111u64];
    assert_eq!(wait_for_players(true, &alone, 1111).unwrap_err(), GameError::TransportNotReady);
    assert!(alone.len() < NUM_PLAYERS);
}

#[test]
fn a_roster_without_the_local_peer_is_misconfigured() {
    let players = vec![1111u64, 2222u64];
    assert_eq!(wait_for_players(true, &players, 3333).unwrap_err(), GameError::ConfigurationError);
}

#[test]
fn disconnect_and_desync_tear_the_session_down() {
    let (state, err) = process_ggrs_events(GameState::Game, &SessionEvent::Disconnected);
    assert_eq!(state, GameState::Lobby);
    assert_eq!(err, Some(GameError::PeerDisconnected));

    let (state, err) = process_ggrs_events(GameState::Game, &SessionEvent::DesyncDetected);
    assert_eq!(state, GameState::Lobby);
    assert_eq!(err, Some(GameError::DesyncDetected));
}

#[test]
fn other_events_leave_the_state_alone() {
    for event in [
        SessionEvent::Synchronizing,
        SessionEvent::Synchronized,
        SessionEvent::NetworkInterrupted,
        SessionEvent::NetworkResumed,
        SessionEvent::WaitRecommendation,
    ] {
        let (state, err) = process_ggrs_events(GameState::Game, &event);
        assert_eq!(state, GameState::Game);
        assert_eq!(err, None);
    }
}

#[test]
fn the_application_starts_loading() {
    assert_eq!(GameState::default(), GameState::Loading);
}
