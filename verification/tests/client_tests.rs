use keypad_remote::client::{play_pause, set_vol, update_vol};
use keypad_remote::dispatch::{CommandDispatcher, DispatchAction};
use keypad_remote::rpc::RpcError;

const SET_REPEAT_BODY: &str =
    r#"{"jsonrpc":"2.0","id":0,"method":"Player.SetRepeat","params":{"playerid":0,"repeat":"all"}}"#;
const OPEN_PLAYLIST_BODY: &str =
    r#"{"jsonrpc":"2.0","id":0,"method":"Player.Open","params":{"playlistid":0,"position":0}}"#;

#[test]
fn play_pause_reasserts_repeat_when_playing() {
    assert_eq!(play_pause(Ok(1)), Some(SET_REPEAT_BODY.to_string()));
    assert_eq!(play_pause(Ok(-1)), Some(SET_REPEAT_BODY.to_string()));
}

#[test]
fn play_pause_does_nothing_more_when_stopped() {
    assert_eq!(play_pause(Ok(0)), None);
}

#[test]
fn play_pause_recovers_from_a_protocol_failure() {
    // the failed toggle triggers the fallback; no failure is surfaced
    assert_eq!(
        play_pause(Err(RpcError::ProtocolFailure(500))),
        Some(OPEN_PLAYLIST_BODY.to_string())
    );
}

#[test]
fn play_pause_recovers_from_every_failure_kind() {
    assert_eq!(
        play_pause(Err(RpcError::TransportFailure)),
        Some(OPEN_PLAYLIST_BODY.to_string())
    );
    assert_eq!(
        play_pause(Err(RpcError::RemoteError(5, b"idle".to_vec()))),
        Some(OPEN_PLAYLIST_BODY.to_string())
    );
    assert_eq!(
        play_pause(Err(RpcError::DecodeFailure)),
        Some(OPEN_PLAYLIST_BODY.to_string())
    );
}

#[test]
fn set_vol_builds_the_exact_request() {
    assert_eq!(
        set_vol(38),
        r#"{"jsonrpc":"2.0","id":0,"method":"Application.SetVolume","params":{"volume":38}}"#
    );
}

#[test]
fn update_vol_clamps_high() {
    let body = update_vol(10, Ok(95)).unwrap();
    assert_eq!(
        body,
        r#"{"jsonrpc":"2.0","id":0,"method":"Application.SetVolume","params":{"volume":100}}"#
    );
}

#[test]
fn update_vol_clamps_low() {
    let body = update_vol(-20, Ok(5)).unwrap();
    assert_eq!(
        body,
        r#"{"jsonrpc":"2.0","id":0,"method":"Application.SetVolume","params":{"volume":0}}"#
    );
}

#[test]
fn update_vol_moves_within_range_unclamped() {
    let body = update_vol(7, Ok(40)).unwrap();
    assert_eq!(
        body,
        r#"{"jsonrpc":"2.0","id":0,"method":"Application.SetVolume","params":{"volume":47}}"#
    );
}

#[test]
fn update_vol_propagates_a_failed_read_without_writing() {
    assert_eq!(update_vol(5, Err(RpcError::DecodeFailure)), Err(RpcError::DecodeFailure));
    assert_eq!(
        update_vol(5, Err(RpcError::RemoteError(9, b"no".to_vec()))),
        Err(RpcError::RemoteError(9, b"no".to_vec()))
    );
    assert_eq!(
        update_vol(5, Err(RpcError::TransportFailure)),
        Err(RpcError::TransportFailure)
    );
    assert_eq!(
        update_vol(5, Err(RpcError::ProtocolFailure(503))),
        Err(RpcError::ProtocolFailure(503))
    );
}

#[test]
fn dispatcher_binds_play_pause_and_indicator() {
    let mut dispatcher = CommandDispatcher::new();
    assert_eq!(dispatcher.dispatch('1'), DispatchAction::InvokePlayPause);
    assert_eq!(dispatcher.dispatch('2'), DispatchAction::SetIndicator(0, 0, 0));
    assert_eq!(dispatcher.dispatch('2'), DispatchAction::SetIndicator(10, 10, 0));
    assert_eq!(dispatcher.dispatch('2'), DispatchAction::SetIndicator(0, 0, 0));
}

#[test]
fn dispatcher_tolerates_unbound_keys_silently() {
    let mut dispatcher = CommandDispatcher::new();
    for key in ['0', '3', '9', 'A', 'B', 'C', 'D', '*', '#'] {
        assert_eq!(dispatcher.dispatch(key), DispatchAction::NoAction);
    }
    // the toggle state is untouched by unbound keys
    assert_eq!(dispatcher.dispatch('2'), DispatchAction::SetIndicator(0, 0, 0));
}
