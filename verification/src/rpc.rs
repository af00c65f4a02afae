//! Request construction and response classification for the player's
//! JSON-RPC dialect.
//!
//! Outgoing requests carry the protocol version `2.0`, the fixed request id
//! `0`, a method name and its parameters, serialized without any spacing.
//! Incoming responses are classified in a fixed order: an HTTP status outside
//! the success range fails regardless of the body; a body that overran the
//! read buffer fails as undecodable; a body that is a well-formed Error
//! envelope fails with the player's own error; only then is a typed result
//! read, or, for a fire-and-forget call, the body discarded.

use vstd::prelude::*;
use crate::envelope::{parse_error_envelope, parse_result_field, spec_error_envelope,
    spec_result_field_int};

verus! {

/// One logical request to the player.
#[derive(Debug, Clone, Copy, PartialEq, Eq)]
pub enum RpcRequest {
    /// Toggle playback on player zero; the player reports its speed back.
    TogglePlayback,
    /// Re-assert repeat-all on player zero, fire and forget.
    SetRepeatAll,
    /// Open playlist zero at position zero, fire and forget.
    OpenPlaylist,
    /// Set the application volume, fire and forget.
    SetVolume(i8),
    /// Read the application volume back.
    QueryVolume,
}

/// How one remote exchange failed.
#[derive(Debug, Clone, PartialEq, Eq)]
pub enum RpcError {
    /// The connection could not be established or the exchange itself could
    /// not be completed.
    TransportFailure,
    /// The HTTP status was outside the success range; carries the status.
    ProtocolFailure(u16),
    /// The player answered with a well-formed Error envelope; carries its
    /// code and message bytes.
    RemoteError(i64, Vec<u8>),
    /// The body parsed as neither envelope shape, or overran the bounded
    /// read buffer.
    DecodeFailure,
}

/// Abstract value of an `RpcError`.
pub enum FailureV {
    TransportFailure,
    ProtocolFailure(int),
    RemoteError(int, Seq<u8>),
    DecodeFailure,
}

impl View for RpcError {
    type V = FailureV;

    open spec fn view(&self) -> FailureV {
        match self {
            RpcError::TransportFailure => FailureV::TransportFailure,
            RpcError::ProtocolFailure(s) => FailureV::ProtocolFailure(*s as int),
            RpcError::RemoteError(c, m) => FailureV::RemoteError(*c as int, m@),
            RpcError::DecodeFailure => FailureV::DecodeFailure,
        }
    }
}

/// The character of one decimal digit.
pub open spec fn spec_digit_char(d: int) -> char {
    if d == 0 {
        '0'
    } else if d == 1 {
        '1'
    } else if d == 2 {
        '2'
    } else if d == 3 {
        '3'
    } else if d == 4 {
        '4'
    } else if d == 5 {
        '5'
    } else if d == 6 {
        '6'
    } else if d == 7 {
        '7'
    } else if d == 8 {
        '8'
    } else {
        '9'
    }
}

/// Decimal digits of a number between zero and one hundred twenty-eight,
/// without leading zeros.
pub open spec fn spec_nat_chars(n: int) -> Seq<char> {
    if n >= 100 {
        seq![spec_digit_char(n / 100), spec_digit_char((n / 10) % 10), spec_digit_char(n % 10)]
    } else if n >= 10 {
        seq![spec_digit_char(n / 10), spec_digit_char(n % 10)]
    } else {
        seq![spec_digit_char(n)]
    }
}

/// Decimal rendering of an eight-bit signed value.
pub open spec fn spec_i8_chars(v: int) -> Seq<char> {
    if v < 0 {
        seq!['-'] + spec_nat_chars(-v)
    } else {
        spec_nat_chars(v)
    }
}

/// The exact request body of one logical request.
pub open spec fn spec_request_body(r: RpcRequest) -> Seq<char> {
    match r {
        RpcRequest::TogglePlayback => "{\"jsonrpc\":\"2.0\",\"id\":0,\"method\":\"Player.PlayPause\",\"params\":{\"playerid\":0}}"@,
        RpcRequest::SetRepeatAll => "{\"jsonrpc\":\"2.0\",\"id\":0,\"method\":\"Player.SetRepeat\",\"params\":{\"playerid\":0,\"repeat\":\"all\"}}"@,
        RpcRequest::OpenPlaylist => "{\"jsonrpc\":\"2.0\",\"id\":0,\"method\":\"Player.Open\",\"params\":{\"playlistid\":0,\"position\":0}}"@,
        RpcRequest::SetVolume(v) => "{\"jsonrpc\":\"2.0\",\"id\":0,\"method\":\"Application.SetVolume\",\"params\":{\"volume\":"@
            + spec_i8_chars(v as int) + "}}"@,
        RpcRequest::QueryVolume => "{\"jsonrpc\":\"2.0\",\"id\":0,\"method\":\"Application.GetProperties\",\"params\":{\"properties\":[\"volume\"]}}"@,
    }
}

/// One decimal digit as text.
fn digit_str(d: u8) -> (s: &'static str)
    requires
        d < 10,
    ensures
        s@ == seq![spec_digit_char(d as int)],
{
    if d == 0 {
        proof {
            reveal_strlit("0");
            assert("0"@ =~= seq![spec_digit_char(0)]);
        }
        "0"
    } else if d == 1 {
        proof {
            reveal_strlit("1");
            assert("1"@ =~= seq![spec_digit_char(1)]);
        }
        "1"
    } else if d == 2 {
        proof {
            reveal_strlit("2");
            assert("2"@ =~= seq![spec_digit_char(2)]);
        }
        "2"
    } else if d == 3 {
        proof {
            reveal_strlit("3");
            assert("3"@ =~= seq![spec_digit_char(3)]);
        }
        "3"
    } else if d == 4 {
        proof {
            reveal_strlit("4");
            assert("4"@ =~= seq![spec_digit_char(4)]);
        }
        "4"
    } else if d == 5 {
        proof {
            reveal_strlit("5");
            assert("5"@ =~= seq![spec_digit_char(5)]);
        }
        "5"
    } else if d == 6 {
        proof {
            reveal_strlit("6");
            assert("6"@ =~= seq![spec_digit_char(6)]);
        }
        "6"
    } else if d == 7 {
        proof {
            reveal_strlit("7");
            assert("7"@ =~= seq![spec_digit_char(7)]);
        }
        "7"
    } else if d == 8 {
        proof {
            reveal_strlit("8");
            assert("8"@ =~= seq![spec_digit_char(8)]);
        }
        "8"
    } else {
        proof {
            reveal_strlit("9");
            assert("9"@ =~= seq![spec_digit_char(9)]);
        }
        "9"
    }
}

/// Renders an eight-bit signed value in decimal.
fn format_i8(v: i8) -> (s: String)
    ensures
        s@ == spec_i8_chars(v as int),
{
    let mut out = String::new();
    let n: i32 = if v < 0 {
        out.append("-");
        proof {
            reveal_strlit("-");
            assert(Seq::<char>::empty() + "-"@ =~= seq!['-']);
        }
        -(v as i32)
    } else {
        proof {
            assert(Seq::<char>::empty() + spec_nat_chars(v as int) =~= spec_nat_chars(v as int));
        }
        v as i32
    };
    let ghost prefix: Seq<char> = out@;
    if n >= 100 {
        out.append(digit_str((n / 100) as u8));
        out.append(digit_str(((n / 10) % 10) as u8));
        out.append(digit_str((n % 10) as u8));
        proof {
            assert(((prefix + seq![spec_digit_char(n as int / 100)]) + seq![
                spec_digit_char((n as int / 10) % 10),
            ]) + seq![spec_digit_char(n as int % 10)] =~= prefix + spec_nat_chars(n as int));
        }
    } else if n >= 10 {
        out.append(digit_str((n / 10) as u8));
        out.append(digit_str((n % 10) as u8));
        proof {
            assert((prefix + seq![spec_digit_char(n as int / 10)]) + seq![
                spec_digit_char(n as int % 10),
            ] =~= prefix + spec_nat_chars(n as int));
        }
    } else {
        out.append(digit_str(n as u8));
        proof {
            assert(prefix + seq![spec_digit_char(n as int)] =~= prefix + spec_nat_chars(n as int));
        }
    }
    proof {
        if v < 0 {
            assert(seq!['-'] + spec_nat_chars(n as int) =~= prefix + spec_nat_chars(n as int));
        }
    }
    out
}

/// Serializes one logical request into its exact body.
pub fn encode_request(r: &RpcRequest) -> (body: String)
    ensures
        body@ == spec_request_body(*r),
{
    match r {
        RpcRequest::TogglePlayback => String::from_str(
            "{\"jsonrpc\":\"2.0\",\"id\":0,\"method\":\"Player.PlayPause\",\"params\":{\"playerid\":0}}",
        ),
        RpcRequest::SetRepeatAll => String::from_str(
            "{\"jsonrpc\":\"2.0\",\"id\":0,\"method\":\"Player.SetRepeat\",\"params\":{\"playerid\":0,\"repeat\":\"all\"}}",
        ),
        RpcRequest::OpenPlaylist => String::from_str(
            "{\"jsonrpc\":\"2.0\",\"id\":0,\"method\":\"Player.Open\",\"params\":{\"playlistid\":0,\"position\":0}}",
        ),
        RpcRequest::SetVolume(v) => {
            let mut body = String::from_str(
                "{\"jsonrpc\":\"2.0\",\"id\":0,\"method\":\"Application.SetVolume\",\"params\":{\"volume\":",
            );
            let digits = format_i8(*v);
            body.append(digits.as_str());
            body.append("}}");
            body
        },
        RpcRequest::QueryVolume => String::from_str(
            "{\"jsonrpc\":\"2.0\",\"id\":0,\"method\":\"Application.GetProperties\",\"params\":{\"properties\":[\"volume\"]}}",
        ),
    }
}

/// The bytes of the result member `speed`.
pub open spec fn key_speed() -> Seq<u8> {
    seq![0x73, 0x70, 0x65, 0x65, 0x64]
}

/// The bytes of the result member `volume`.
pub open spec fn key_volume() -> Seq<u8> {
    seq![0x76, 0x6f, 0x6c, 0x75, 0x6d, 0x65]
}

fn lit_speed() -> (v: Vec<u8>)
    ensures
        v@ == key_speed(),
{
    let mut v: Vec<u8> = Vec::new();
    v.push(0x73);
    v.push(0x70);
    v.push(0x65);
    v.push(0x65);
    v.push(0x64);
    proof {
        assert(v@ =~= key_speed());
    }
    v
}

fn lit_volume() -> (v: Vec<u8>)
    ensures
        v@ == key_volume(),
{
    let mut v: Vec<u8> = Vec::new();
    v.push(0x76);
    v.push(0x6f);
    v.push(0x6c);
    v.push(0x75);
    v.push(0x6d);
    v.push(0x65);
    proof {
        assert(v@ =~= key_volume());
    }
    v
}

/// What classification must make of a fire-and-forget exchange, as a
/// function of the HTTP status, the body, and whether the body overran the
/// read buffer.
pub open spec fn spec_classify_notify(status: u16, body: Seq<u8>, truncated: bool) -> Result<
    (),
    FailureV,
> {
    if !(200 <= status < 300) {
        Err(FailureV::ProtocolFailure(status as int))
    } else if truncated {
        Err(FailureV::DecodeFailure)
    } else {
        match spec_error_envelope(body) {
            Some(p) => Err(FailureV::RemoteError(p.0, p.1)),
            None => Ok(()),
        }
    }
}

/// What classification must make of a typed exchange whose result object
/// carries the eight-bit integer member named `field`.
pub open spec fn spec_classify_typed(
    status: u16,
    body: Seq<u8>,
    truncated: bool,
    field: Seq<u8>,
) -> Result<int, FailureV> {
    if !(200 <= status < 300) {
        Err(FailureV::ProtocolFailure(status as int))
    } else if truncated {
        Err(FailureV::DecodeFailure)
    } else {
        match spec_error_envelope(body) {
            Some(p) => Err(FailureV::RemoteError(p.0, p.1)),
            None => match spec_result_field_int(body, field) {
                Some(x) => if -128 <= x <= 127 {
                    Ok(x)
                } else {
                    Err(FailureV::DecodeFailure)
                },
                None => Err(FailureV::DecodeFailure),
            },
        }
    }
}

/// Law: classification tries the Error envelope first. Within the success
/// status range and with a body that fit the buffer, a body that is a
/// well-formed Error envelope always classifies as the player's reported
/// error, never as a Result payload, whatever result member it might also
/// carry.
pub proof fn lemma_error_precedes_result(status: u16, body: Seq<u8>, field: Seq<u8>)
    requires
        200 <= status < 300,
        spec_error_envelope(body) is Some,
    ensures
        spec_classify_typed(status, body, false, field) matches Err(f) && f
            matches FailureV::RemoteError(c, m) && spec_error_envelope(body) == Some((c, m)),
{
}

/// Classifies a fire-and-forget exchange's response: a status outside the
/// success range fails as a protocol failure, a truncated body as a decode
/// failure, a well-formed Error envelope as the player's error; any other
/// body is discarded and the call succeeds.
pub fn classify_notify(status: u16, body: &Vec<u8>, truncated: bool) -> (r: Result<(), RpcError>)
    ensures
        match spec_classify_notify(status, body@, truncated) {
            Ok(u) => r is Ok,
            Err(f) => r matches Err(e) && e@ == f,
        },
{
    if !(200 <= status && status < 300) {
        return Err(RpcError::ProtocolFailure(status));
    }
    if truncated {
        return Err(RpcError::DecodeFailure);
    }
    match parse_error_envelope(body) {
        Some((code, message)) => Err(RpcError::RemoteError(code, message)),
        None => Ok(()),
    }
}

/// Classifies a typed exchange and reads the eight-bit integer member named
/// by `field` out of the result object; after the protocol, truncation and
/// Error envelope checks, a body that is not a Result envelope carrying that
/// member in range fails as a decode failure.
fn decode_result_int(status: u16, body: &Vec<u8>, truncated: bool, field: &Vec<u8>) -> (r: Result<
    i8,
    RpcError,
>)
    ensures
        match spec_classify_typed(status, body@, truncated, field@) {
            Ok(x) => r matches Ok(v) && v as int == x,
            Err(f) => r matches Err(e) && e@ == f,
        },
{
    if !(200 <= status && status < 300) {
        return Err(RpcError::ProtocolFailure(status));
    }
    if truncated {
        return Err(RpcError::DecodeFailure);
    }
    match parse_error_envelope(body) {
        Some((code, message)) => Err(RpcError::RemoteError(code, message)),
        None => {
            match parse_result_field(body, field) {
                Some(x) => if -128 <= x && x <= 127 {
                    Ok(x as i8)
                } else {
                    Err(RpcError::DecodeFailure)
                },
                None => Err(RpcError::DecodeFailure),
            }
        },
    }
}

/// Decodes the player's reported speed from a toggle-playback response.
pub fn decode_speed(status: u16, body: &Vec<u8>, truncated: bool) -> (r: Result<i8, RpcError>)
    ensures
        match spec_classify_typed(status, body@, truncated, key_speed()) {
            Ok(x) => r matches Ok(v) && v as int == x,
            Err(f) => r matches Err(e) && e@ == f,
        },
{
    let field = lit_speed();
    decode_result_int(status, body, truncated, &field)
}

/// Decodes the player's reported volume from a get-properties response.
pub fn decode_volume(status: u16, body: &Vec<u8>, truncated: bool) -> (r: Result<i8, RpcError>)
    ensures
        match spec_classify_typed(status, body@, truncated, key_volume()) {
            Ok(x) => r matches Ok(v) && v as int == x,
            Err(f) => r matches Err(e) && e@ == f,
        },
{
    let field = lit_volume();
    decode_result_int(status, body, truncated, &field)
}

} // verus!
