use riscvrust::sbi::{Error, Return};

#[test]
fn decodes_success() {
    let returned = Return::new(0, 0x1234);

    assert_eq!(returned.into_result(), Ok(0x1234));
}

#[test]
fn decodes_all_standard_errors() {
    let cases = [
        (-1, Error::Failed),
        (-2, Error::NotSupported),
        (-3, Error::InvalidParameter),
        (-4, Error::Denied),
        (-5, Error::InvalidAddress),
        (-6, Error::AlreadyAvailable),
        (-7, Error::AlreadyStarted),
        (-8, Error::AlreadyStopped),
        (-9, Error::NoSharedMemory),
        (-10, Error::InvalidState),
        (-11, Error::BadRange),
        (-12, Error::Timeout),
        (-13, Error::InputOutput),
        (-14, Error::DeniedLocked),
    ];

    for (code, expected) in cases {
        let returned = Return::new(code, usize::MAX);
        assert_eq!(returned.into_result(), Err(expected));
    }
}

#[test]
fn retains_unknown_error_codes() {
    let returned = Return::new(-99, usize::MAX);

    assert_eq!(returned.into_result(), Err(Error::Unknown(-99)));
}

#[test]
fn codes_just_outside_the_standard_range_are_unknown() {
    assert_eq!(Error::from_code(-15), Error::Unknown(-15));
    assert_eq!(Error::from_code(1), Error::Unknown(1));
    assert_eq!(Error::from_code(isize::MIN), Error::Unknown(isize::MIN));
    assert_eq!(Error::from_code(-14), Error::DeniedLocked);
}

#[test]
fn failure_ignores_the_value_register() {
    assert_eq!(Return::new(-2, 0).into_result(), Return::new(-2, 77).into_result());
    assert_eq!(Return::new(-2, 77).into_result(), Err(Error::NotSupported));
}

#[test]
fn raw_registers_are_kept() {
    let returned = Return::new(-3, 42);
    assert_eq!(returned.error_code(), -3);
    assert_eq!(returned.value(), 42);
    assert_eq!(Return::new(0, usize::MAX).into_result(), Ok(usize::MAX));
}
