use rustylock::events::DecodeError;
use rustylock::events::WtsState;

#[test]
fn decodes_all_nine_known_codes_exactly() {
    assert_eq!(WtsState::try_from(0x1), Ok(WtsState::ConsoleConnect));
    assert_eq!(WtsState::try_from(0x2), Ok(WtsState::ConsoleDisconnect));
    assert_eq!(WtsState::try_from(0x3), Ok(WtsState::RemoteConnect));
    assert_eq!(WtsState::try_from(0x4), Ok(WtsState::RemoteDisconnect));
    assert_eq!(WtsState::try_from(0x5), Ok(WtsState::Logon));
    assert_eq!(WtsState::try_from(0x6), Ok(WtsState::Logoff));
    assert_eq!(WtsState::try_from(0x7), Ok(WtsState::Lock));
    assert_eq!(WtsState::try_from(0x8), Ok(WtsState::Unlock));
    assert_eq!(WtsState::try_from(0x9), Ok(WtsState::RemoteControl));
}

#[test]
fn rejects_codes_outside_the_known_range() {
    assert_eq!(
        WtsState::try_from(0x0),
        Err(DecodeError::UnrecognizedEventCode)
    );
    assert_eq!(
        WtsState::try_from(0xA),
        Err(DecodeError::UnrecognizedEventCode)
    );
    assert_eq!(
        WtsState::try_from(0xFFFFFFFF),
        Err(DecodeError::UnrecognizedEventCode)
    );
    assert_eq!(
        WtsState::try_from(usize::MAX),
        Err(DecodeError::UnrecognizedEventCode)
    );
}
