use trace4rs::config::{ConfigError, Policy};

#[test]
fn size_plain_number() {
    assert_eq!(Policy::calculate_maximum_file_size("10").unwrap(), 10);
    assert_eq!(Policy::calculate_maximum_file_size("10b").unwrap(), 10);
}

#[test]
fn size_kb_is_base_1024() {
    assert_eq!(Policy::calculate_maximum_file_size("10kb").unwrap(), 10240);
    assert_eq!(Policy::calculate_maximum_file_size("10kib").unwrap(), 10240);
    assert_eq!(Policy::calculate_maximum_file_size("10KB").unwrap(), 10240);
}

#[test]
fn size_mb_and_mib_agree() {
    assert_eq!(Policy::calculate_maximum_file_size("1mb").unwrap(), 1_048_576);
    assert_eq!(Policy::calculate_maximum_file_size("1mib").unwrap(), 1_048_576);
}

#[test]
fn size_gb_tb() {
    assert_eq!(Policy::calculate_maximum_file_size("2gb").unwrap(), 2 * 1024 * 1024 * 1024);
    assert_eq!(
        Policy::calculate_maximum_file_size("1tb").unwrap(),
        1024u64 * 1024 * 1024 * 1024
    );
}

#[test]
fn size_trims_spaces() {
    assert_eq!(Policy::calculate_maximum_file_size("10 kb").unwrap(), 10240);
}

#[test]
fn size_overflow_is_an_error() {
    let r = Policy::calculate_maximum_file_size("18446744073709551615tb");
    assert!(matches!(r, Err(ConfigError::Overflow(_, _))));
}

#[test]
fn size_number_too_large_is_an_error() {
    let r = Policy::calculate_maximum_file_size("18446744073709551616");
    assert!(matches!(r, Err(ConfigError::ParseIntError)));
}

#[test]
fn size_unknown_unit_is_an_error() {
    let r = Policy::calculate_maximum_file_size("10xy");
    match r {
        Err(ConfigError::UnexpectedUnit(u)) => assert_eq!(u, "xy"),
        _ => panic!("expected an unexpected-unit error"),
    }
}

#[test]
fn size_empty_is_an_error() {
    assert!(matches!(
        Policy::calculate_maximum_file_size(""),
        Err(ConfigError::ParseIntError)
    ));
    assert!(matches!(
        Policy::calculate_maximum_file_size("kb"),
        Err(ConfigError::ParseIntError)
    ));
}
