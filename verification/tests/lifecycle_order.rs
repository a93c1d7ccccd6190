use rustylock::errors::Error;
use rustylock::lifecycle::Lifecycle;
use rustylock::lifecycle::Stage;
use rustylock::target::WindowHandle;

#[test]
fn full_run_passes_the_stages_in_order() {
    let handle = WindowHandle::from_raw(0x1234).unwrap();
    let mut lc = Lifecycle::new();
    assert_eq!(lc.stage(), Stage::NoTarget);
    lc.target_created(&handle);
    assert_eq!(lc.stage(), Stage::TargetCreated);
    let registered = lc.register(true, 0);
    assert_eq!(registered, Ok(()));
    assert_eq!(lc.stage(), Stage::Registered);
    lc.unregister();
    assert_eq!(lc.stage(), Stage::Unregistered);
}

#[test]
fn failed_registration_reports_the_mapped_reason_and_stands_still() {
    let handle = WindowHandle::from_raw(0x1234).unwrap();
    let mut lc = Lifecycle::new();
    lc.target_created(&handle);
    let failed = lc.register(false, 87);
    assert_eq!(failed, Err(Error::InvalidParameter));
    assert_eq!(lc.stage(), Stage::TargetCreated);
    let failed_again = lc.register(false, 998);
    assert_eq!(failed_again, Err(Error::NoAccess));
    assert_eq!(lc.stage(), Stage::TargetCreated);
}
