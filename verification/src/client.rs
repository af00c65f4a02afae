//! The remote client's command and recovery policy.
//!
//! Each operation is a decision from plain values to the exact request body
//! to send; the surrounding process performs the HTTP exchanges and hands
//! the classified outcomes back in.
//!
//! Play/pause is resilient twice over: a reported nonzero speed re-asserts
//! repeat-all, because this player's repeat flag is observed to reset when
//! playback starts; any failure of the toggle falls back to opening playlist
//! zero, because toggling is a no-op on an idle player with nothing loaded.
//! Both follow-ups are fire and forget, their own outcome ignored, so the
//! operation as a whole absorbs the toggle's failure instead of surfacing
//! it. Volume operations propagate every failure unchanged.

use vstd::prelude::*;
use crate::rpc::{encode_request, spec_request_body, RpcError, RpcRequest};

verus! {

/// Decides the play/pause operation's follow-up from the classified outcome
/// of the toggle-playback exchange: a nonzero reported speed re-asserts
/// repeat-all, a failed toggle opens playlist zero at position zero, and a
/// reported speed of zero needs nothing. The follow-up, when there is one,
/// is fire and forget; the operation itself always counts as done.
pub fn play_pause(toggle: Result<i8, RpcError>) -> (follow_up: Option<String>)
    ensures
        (toggle matches Ok(speed) && speed != 0) ==> (follow_up matches Some(b) && b@
            == spec_request_body(RpcRequest::SetRepeatAll)),
        toggle == Ok::<i8, RpcError>(0) ==> follow_up is None,
        toggle is Err ==> (follow_up matches Some(b) && b@ == spec_request_body(
            RpcRequest::OpenPlaylist,
        )),
{
    match toggle {
        Ok(speed) => {
            if speed != 0 {
                Some(encode_request(&RpcRequest::SetRepeatAll))
            } else {
                None
            }
        },
        Err(_) => Some(encode_request(&RpcRequest::OpenPlaylist)),
    }
}

/// Builds the fire-and-forget set-volume request for the given target.
/// Clamping into range is the caller's concern.
pub fn set_vol(volume: i8) -> (body: String)
    ensures
        body@ == spec_request_body(RpcRequest::SetVolume(volume)),
{
    encode_request(&RpcRequest::SetVolume(volume))
}

/// The current volume moved by `increment` and clamped into the player's
/// zero-to-one-hundred range.
pub open spec fn spec_clamped_volume(current: int, increment: int) -> int {
    if current + increment < 0 {
        0
    } else if current + increment > 100 {
        100
    } else {
        current + increment
    }
}

/// Decides the adjust-volume operation from the classified outcome of the
/// volume read-back: on a read volume, the set-volume request for the
/// clamped target; on any failure, that failure unchanged, and nothing is
/// written.
pub fn update_vol(increment: i8, current: Result<i8, RpcError>) -> (r: Result<String, RpcError>)
    ensures
        current matches Ok(v) ==> (r matches Ok(b) && b@ == spec_request_body(
            RpcRequest::SetVolume(spec_clamped_volume(v as int, increment as int) as i8),
        )),
        current matches Err(e) ==> (r matches Err(e2) && e2 == e),
{
    match current {
        Ok(v) => {
            let sum: i32 = v as i32 + increment as i32;
            let clamped: i8 = if sum < 0 {
                0
            } else if sum > 100 {
                100
            } else {
                sum as i8
            };
            Ok(set_vol(clamped))
        },
        Err(e) => Err(e),
    }
}

} // verus!
