use rustylock::target::ClassRegistration;
use rustylock::target::ClassRegistry;
use rustylock::target::SetupError;
use rustylock::target::WindowHandle;

const CLASS_NAME_KEY: u64 = 0x72757374;

#[test]
fn repeated_registration_of_the_fixed_name_keeps_creation_permitted() {
    let mut registry = ClassRegistry::new();
    assert!(!registry.creation_permitted(CLASS_NAME_KEY));

    let first = registry.register(CLASS_NAME_KEY);
    assert_eq!(first, ClassRegistration::Fresh);
    assert!(registry.creation_permitted(CLASS_NAME_KEY));

    let second = registry.register(CLASS_NAME_KEY);
    assert_eq!(second, ClassRegistration::AlreadyExists);
    assert!(registry.creation_permitted(CLASS_NAME_KEY));
}

#[test]
fn registration_under_one_name_does_not_touch_another() {
    let mut registry = ClassRegistry::new();
    registry.register(CLASS_NAME_KEY);
    assert!(!registry.creation_permitted(CLASS_NAME_KEY + 1));
    let other = registry.register(CLASS_NAME_KEY + 1);
    assert_eq!(other, ClassRegistration::Fresh);
    assert!(registry.creation_permitted(CLASS_NAME_KEY));
    assert!(registry.creation_permitted(CLASS_NAME_KEY + 1));
}

#[test]
fn zero_handle_means_window_creation_failed() {
    let failed = WindowHandle::from_raw(0);
    assert!(matches!(failed, Err(SetupError::WindowCreationFailed)));
}

#[test]
fn nonzero_handle_is_held_as_given() {
    let handle = WindowHandle::from_raw(0x4242).unwrap();
    assert_eq!(handle.raw(), 0x4242);
}
