use avrtos::error::{os_error_to_result, OsErr};

#[test]
fn known_codes_convert_both_ways() {
    assert_eq!(OsErr::from_code(-1), Some(OsErr::EPERM));
    assert_eq!(OsErr::from_code(-22), Some(OsErr::EINVAL));
    assert_eq!(OsErr::from_code(-110), Some(OsErr::ETIMEDOUT));
    assert_eq!(OsErr::from_code(-125), Some(OsErr::ECANCELED));
    assert_eq!(OsErr::EBUSY.to_code(), -16);
    assert_eq!(OsErr::ENOTSUP.to_code(), -95);
}

#[test]
fn unknown_codes_are_none() {
    assert_eq!(OsErr::from_code(0), None);
    assert_eq!(OsErr::from_code(1), None);
    assert_eq!(OsErr::from_code(-36), None);
    assert_eq!(OsErr::from_code(-128), None);
}

#[test]
fn every_code_round_trips() {
    let mut known = 0;
    for code in i8::MIN..=i8::MAX {
        if let Some(e) = OsErr::from_code(code) {
            assert_eq!(e.to_code(), code);
            assert!(code < 0);
            known += 1;
        }
    }
    assert_eq!(known, 40);
}

#[test]
fn zero_is_success() {
    assert_eq!(os_error_to_result(0), Ok(()));
    assert_eq!(os_error_to_result(-16), Err(OsErr::EBUSY));
    assert_eq!(os_error_to_result(-114), Err(OsErr::EALREADY));
}
