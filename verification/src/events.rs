//! The event decoder: a total map from the raw numeric payload carried by a
//! session-change message to a closed set of typed session events, with an
//! explicit "unrecognized" outcome for every code outside the known range.

use vstd::prelude::*;

verus! {

/// One typed desktop-session transition, decoded from the numeric payload of a
/// delivered session-change message.
#[derive(Clone, Copy, Debug, PartialEq, Eq, Structural)]
pub enum WtsState {
    ConsoleConnect,
    ConsoleDisconnect,
    RemoteConnect,
    RemoteDisconnect,
    Logon,
    Logoff,
    Lock,
    Unlock,
    RemoteControl,
}

/// The recoverable failure of the decoder: the payload code names no known
/// session event. The retrieval loop skips such a message and carries on.
#[derive(Clone, Copy, Debug, PartialEq, Eq, Structural)]
pub enum DecodeError {
    UnrecognizedEventCode,
}

/// The decoder's mapping: exactly the codes 0x1 through 0x9 name an event.
pub open spec fn decode_spec(code: usize) -> Option<WtsState> {
    if code == 0x1 {
        Some(WtsState::ConsoleConnect)
    } else if code == 0x2 {
        Some(WtsState::ConsoleDisconnect)
    } else if code == 0x3 {
        Some(WtsState::RemoteConnect)
    } else if code == 0x4 {
        Some(WtsState::RemoteDisconnect)
    } else if code == 0x5 {
        Some(WtsState::Logon)
    } else if code == 0x6 {
        Some(WtsState::Logoff)
    } else if code == 0x7 {
        Some(WtsState::Lock)
    } else if code == 0x8 {
        Some(WtsState::Unlock)
    } else if code == 0x9 {
        Some(WtsState::RemoteControl)
    } else {
        None
    }
}

/// What decoding a code returns: the decoded event, or the one recoverable
/// decode failure.
pub open spec fn decode_result_spec(code: usize) -> Result<WtsState, DecodeError> {
    match decode_spec(code) {
        Some(state) => Ok(state),
        None => Err(DecodeError::UnrecognizedEventCode),
    }
}

impl WtsState {
    /// Decode a raw payload code into a typed session event, or signal that
    /// the code is unrecognized.
    pub fn try_from(code: usize) -> (r: Result<WtsState, DecodeError>)
        ensures
            r == decode_result_spec(code),
    {
        match code {
            0x1 => Ok(WtsState::ConsoleConnect),
            0x2 => Ok(WtsState::ConsoleDisconnect),
            0x3 => Ok(WtsState::RemoteConnect),
            0x4 => Ok(WtsState::RemoteDisconnect),
            0x5 => Ok(WtsState::Logon),
            0x6 => Ok(WtsState::Logoff),
            0x7 => Ok(WtsState::Lock),
            0x8 => Ok(WtsState::Unlock),
            0x9 => Ok(WtsState::RemoteControl),
            _ => Err(DecodeError::UnrecognizedEventCode),
        }
    }
}

/// Each code in the closed range 0x1 through 0x9 decodes to its own listed
/// variant, and every code outside that range fails to decode.
pub proof fn lemma_known_codes_decode_exactly()
    ensures
        decode_spec(0x1) == Some(WtsState::ConsoleConnect),
        decode_spec(0x2) == Some(WtsState::ConsoleDisconnect),
        decode_spec(0x3) == Some(WtsState::RemoteConnect),
        decode_spec(0x4) == Some(WtsState::RemoteDisconnect),
        decode_spec(0x5) == Some(WtsState::Logon),
        decode_spec(0x6) == Some(WtsState::Logoff),
        decode_spec(0x7) == Some(WtsState::Lock),
        decode_spec(0x8) == Some(WtsState::Unlock),
        decode_spec(0x9) == Some(WtsState::RemoteControl),
        forall|code: usize| (decode_spec(code) is Some) <==> (0x1 <= code <= 0x9),
{
}

/// No two distinct codes decode to the same session event.
pub proof fn lemma_decoder_injective(a: usize, b: usize)
    requires
        decode_spec(a) == decode_spec(b),
        decode_spec(a) is Some,
    ensures
        a == b,
{
}

} // verus!
