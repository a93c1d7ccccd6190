use rustylock::errors::Error;

#[test]
fn maps_all_seven_recognized_codes_exactly() {
    assert_eq!(Error::from_code(5), Some(Error::NotSupported));
    assert_eq!(Error::from_code(6), Some(Error::InvalidHandle));
    assert_eq!(Error::from_code(87), Some(Error::InvalidParameter));
    assert_eq!(Error::from_code(127), Some(Error::ProcedureNotFound));
    assert_eq!(Error::from_code(998), Some(Error::NoAccess));
    assert_eq!(Error::from_code(1407), Some(Error::ClassRegistrationFailed));
    assert_eq!(Error::from_code(1408), Some(Error::WindowOfOtherThread));
}

#[test]
fn leaves_every_other_code_unmapped() {
    assert_eq!(Error::from_code(0), None);
    assert_eq!(Error::from_code(1), None);
    assert_eq!(Error::from_code(88), None);
    assert_eq!(Error::from_code(1406), None);
    assert_eq!(Error::from_code(1409), None);
    assert_eq!(Error::from_code(u32::MAX), None);
}

#[test]
fn describes_each_reason_by_name() {
    assert_eq!(Error::ProcedureNotFound.describe(), "ProcedureNotFound");
    assert_eq!(Error::NoAccess.describe(), "NoAccess");
    assert_eq!(Error::InvalidParameter.describe(), "InvalidParameter");
    assert_eq!(Error::NotSupported.describe(), "NotSupported");
    assert_eq!(Error::InvalidHandle.describe(), "InvalidHandle");
    assert_eq!(
        Error::ClassRegistrationFailed.describe(),
        "ClassRegistrationFailed"
    );
    assert_eq!(Error::WindowOfOtherThread.describe(), "WindowOfOtherThread");
}
