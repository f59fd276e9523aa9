use keysounds::volume::{VolumeConfig, VolumeError};

fn permille_of(s: &[u8]) -> u16 {
    VolumeConfig::parse(s).expect("should parse").permille()
}

#[test]
fn common_volumes_parse() {
    assert_eq!(permille_of(b"0.35"), 350);
    assert_eq!(permille_of(b"0"), 0);
    assert_eq!(permille_of(b"1"), 1000);
    assert_eq!(permille_of(b"1.0"), 1000);
    assert_eq!(permille_of(b"0.5"), 500);
    assert_eq!(permille_of(b".5"), 500);
    assert_eq!(permille_of(b"0."), 0);
    assert_eq!(permille_of(b"1.000"), 1000);
}

#[test]
fn extra_digits_truncate_below_the_scale() {
    assert_eq!(permille_of(b"0.3555"), 355);
    assert_eq!(permille_of(b"0.99999"), 999);
}

#[test]
fn out_of_range_is_fatal() {
    assert_eq!(VolumeConfig::parse(b"1.5"), Err(VolumeError::OutOfRange));
    assert_eq!(VolumeConfig::parse(b"2"), Err(VolumeError::OutOfRange));
    assert_eq!(VolumeConfig::parse(b"1.001"), Err(VolumeError::OutOfRange));
    assert_eq!(VolumeConfig::parse(b"20."), Err(VolumeError::OutOfRange));
}

#[test]
fn malformed_is_fatal() {
    assert_eq!(VolumeConfig::parse(b""), Err(VolumeError::Malformed));
    assert_eq!(VolumeConfig::parse(b"."), Err(VolumeError::Malformed));
    assert_eq!(VolumeConfig::parse(b"abc"), Err(VolumeError::Malformed));
    assert_eq!(VolumeConfig::parse(b"0.3.5"), Err(VolumeError::Malformed));
    assert_eq!(VolumeConfig::parse(b"-0.5"), Err(VolumeError::Malformed));
    assert_eq!(VolumeConfig::parse(b"0.5x"), Err(VolumeError::Malformed));
}

#[test]
fn permille_bounds() {
    assert_eq!(VolumeConfig::from_permille(1000).unwrap().permille(), 1000);
    assert_eq!(VolumeConfig::from_permille(1001), Err(VolumeError::OutOfRange));
}

#[test]
fn default_volume() {
    assert_eq!(VolumeConfig::default_config().permille(), 350);
}

#[test]
fn error_messages_name_the_problem() {
    assert!(VolumeError::Malformed.message().contains("decimal"));
    assert!(VolumeError::OutOfRange.message().contains("between"));
}
