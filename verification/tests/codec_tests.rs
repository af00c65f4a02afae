use keypad_remote::rpc::{
    classify_notify, decode_speed, decode_volume, encode_request, RpcError, RpcRequest,
};

#[test]
fn test_parse_vol() {
    let response = br#"{"id":0,"jsonrpc":"2.0","result":{"muted":false,"volume":38}}"#;
    let body = response.to_vec();
    let volume = decode_volume(200, &body, false).unwrap();
    assert_eq!(volume, 38i8);
}

#[test]
fn encode_toggle_playback() {
    assert_eq!(
        encode_request(&RpcRequest::TogglePlayback),
        r#"{"jsonrpc":"2.0","id":0,"method":"Player.PlayPause","params":{"playerid":0}}"#
    );
}

#[test]
fn encode_set_repeat_all() {
    assert_eq!(
        encode_request(&RpcRequest::SetRepeatAll),
        r#"{"jsonrpc":"2.0","id":0,"method":"Player.SetRepeat","params":{"playerid":0,"repeat":"all"}}"#
    );
}

#[test]
fn encode_open_playlist() {
    assert_eq!(
        encode_request(&RpcRequest::OpenPlaylist),
        r#"{"jsonrpc":"2.0","id":0,"method":"Player.Open","params":{"playlistid":0,"position":0}}"#
    );
}

#[test]
fn encode_set_volume() {
    assert_eq!(
        encode_request(&RpcRequest::SetVolume(38)),
        r#"{"jsonrpc":"2.0","id":0,"method":"Application.SetVolume","params":{"volume":38}}"#
    );
    assert_eq!(
        encode_request(&RpcRequest::SetVolume(100)),
        r#"{"jsonrpc":"2.0","id":0,"method":"Application.SetVolume","params":{"volume":100}}"#
    );
    assert_eq!(
        encode_request(&RpcRequest::SetVolume(0)),
        r#"{"jsonrpc":"2.0","id":0,"method":"Application.SetVolume","params":{"volume":0}}"#
    );
    assert_eq!(
        encode_request(&RpcRequest::SetVolume(-5)),
        r#"{"jsonrpc":"2.0","id":0,"method":"Application.SetVolume","params":{"volume":-5}}"#
    );
    assert_eq!(
        encode_request(&RpcRequest::SetVolume(-128)),
        r#"{"jsonrpc":"2.0","id":0,"method":"Application.SetVolume","params":{"volume":-128}}"#
    );
}

#[test]
fn encode_query_volume() {
    assert_eq!(
        encode_request(&RpcRequest::QueryVolume),
        r#"{"jsonrpc":"2.0","id":0,"method":"Application.GetProperties","params":{"properties":["volume"]}}"#
    );
}

#[test]
fn status_outside_success_range_is_a_protocol_failure() {
    let body = br#"{"jsonrpc":"2.0","id":0,"result":{"speed":1}}"#.to_vec();
    assert_eq!(
        classify_notify(404, &body, false),
        Err(RpcError::ProtocolFailure(404))
    );
    assert_eq!(
        decode_speed(500, &body, false),
        Err(RpcError::ProtocolFailure(500))
    );
    assert_eq!(classify_notify(199, &body, false), Err(RpcError::ProtocolFailure(199)));
    assert_eq!(classify_notify(300, &body, false), Err(RpcError::ProtocolFailure(300)));
    assert!(classify_notify(299, &body, false).is_ok());
}

#[test]
fn truncated_body_is_a_decode_failure() {
    let body = br#"{"jsonrpc":"2.0","id":0,"result":{"speed":1}}"#.to_vec();
    assert_eq!(classify_notify(200, &body, true), Err(RpcError::DecodeFailure));
    assert_eq!(decode_speed(200, &body, true), Err(RpcError::DecodeFailure));
}

#[test]
fn error_envelope_carries_the_player_message() {
    let body =
        br#"{"jsonrpc":"2.0","id":0,"error":{"code":-32601,"message":"Method not found"}}"#
            .to_vec();
    assert_eq!(
        classify_notify(200, &body, false),
        Err(RpcError::RemoteError(-32601, b"Method not found".to_vec()))
    );
}

#[test]
fn error_envelope_with_null_id_still_classifies() {
    let body = br#"{"jsonrpc":"2.0","id":null,"error":{"code":3,"message":"bad"}}"#.to_vec();
    assert_eq!(
        classify_notify(200, &body, false),
        Err(RpcError::RemoteError(3, b"bad".to_vec()))
    );
}

#[test]
fn error_message_escapes_are_unescaped() {
    let body = br#"{"jsonrpc":"2.0","id":0,"error":{"code":1,"message":"a\"b\nc\\d"}}"#.to_vec();
    assert_eq!(
        classify_notify(200, &body, false),
        Err(RpcError::RemoteError(1, b"a\"b\nc\\d".to_vec()))
    );
}

#[test]
fn fire_and_forget_discards_a_non_error_body() {
    let body = br#"{"jsonrpc":"2.0","id":0,"result":"OK"}"#.to_vec();
    assert_eq!(classify_notify(200, &body, false), Ok(()));
}

#[test]
fn decode_speed_reads_the_reported_speed() {
    let playing = br#"{"jsonrpc":"2.0","id":0,"result":{"speed":1}}"#.to_vec();
    assert_eq!(decode_speed(200, &playing, false), Ok(1));
    let stopped = br#"{"jsonrpc":"2.0","id":0,"result":{"speed":0}}"#.to_vec();
    assert_eq!(decode_speed(200, &stopped, false), Ok(0));
}

#[test]
fn error_envelope_is_never_read_as_a_result() {
    // a body that is a well-formed Error envelope and would also read as a
    // Result envelope must classify as the error
    let body = br#"{"jsonrpc":"2.0","id":0,"result":{"volume":38},"error":{"code":5,"message":"boom"}}"#
        .to_vec();
    assert_eq!(
        decode_volume(200, &body, false),
        Err(RpcError::RemoteError(5, b"boom".to_vec()))
    );
}

#[test]
fn malformed_bodies_are_decode_failures_for_typed_calls() {
    let gibberish = b"not json at all".to_vec();
    assert_eq!(decode_volume(200, &gibberish, false), Err(RpcError::DecodeFailure));
    let missing_field = br#"{"jsonrpc":"2.0","id":0,"result":{"muted":false}}"#.to_vec();
    assert_eq!(decode_volume(200, &missing_field, false), Err(RpcError::DecodeFailure));
    let out_of_range = br#"{"jsonrpc":"2.0","id":0,"result":{"volume":300}}"#.to_vec();
    assert_eq!(decode_volume(200, &out_of_range, false), Err(RpcError::DecodeFailure));
    let wrong_version = br#"{"jsonrpc":"1.0","id":0,"result":{"volume":38}}"#.to_vec();
    assert_eq!(decode_volume(200, &wrong_version, false), Err(RpcError::DecodeFailure));
    let trailing = br#"{"jsonrpc":"2.0","id":0,"result":{"volume":38}}x"#.to_vec();
    assert_eq!(decode_volume(200, &trailing, false), Err(RpcError::DecodeFailure));
}

#[test]
fn whitespace_and_member_order_are_tolerated() {
    let body =
        b"  {\n\t\"result\" : { \"volume\" : 42 , \"muted\" : false } , \"id\" : 7 , \"jsonrpc\" : \"2.0\" }  "
            .to_vec();
    assert_eq!(decode_volume(200, &body, false), Ok(42));
}

#[test]
fn unknown_members_of_any_shape_are_skipped() {
    let body = br#"{"jsonrpc":"2.0","id":0,"extra":[1,-2.5e3,true,null,{"x":"y"}],"result":{"volume":9}}"#
        .to_vec();
    assert_eq!(decode_volume(200, &body, false), Ok(9));
}
