use trace4rs::timestamp::{
    get_local_timestamp_from_offset_rfc3339, trim_new_lines, Error, OffsetStore,
};

#[test]
fn trim_new_lines_strips_surrounding_whitespace() {
    assert_eq!(trim_new_lines("\n +0930 \r\n"), "+0930");
    assert_eq!(trim_new_lines("plain"), "plain");
    assert_eq!(trim_new_lines("\n\n"), "");
}

#[test]
fn set_offset_validates_ranges() {
    let mut store = OffsetStore::new();
    assert!(matches!(
        store.set_global_offset(15, 0),
        Err(Error::InvalidOffsetHours(15))
    ));
    assert!(matches!(
        store.set_global_offset(-13, 0),
        Err(Error::InvalidOffsetHours(-13))
    ));
    assert!(matches!(
        store.set_global_offset(0, 60),
        Err(Error::InvalidOffsetMinutes(60))
    ));
    assert_eq!(store.set_global_offset(9, 30).unwrap(), (9, 30));
}

#[test]
fn negative_offsets_carry_their_minutes_west() {
    let mut store = OffsetStore::new();
    assert_eq!(store.set_global_offset(-9, 30).unwrap(), (-9, -30));
}

#[test]
fn set_offset_from_string_forms() {
    let mut store = OffsetStore::new();
    assert_eq!(store.set_global_offset_from_str("+0930").unwrap(), (9, 30));
    assert_eq!(store.set_global_offset_from_str("-0930").unwrap(), (-9, -30));
    assert_eq!(store.set_global_offset_from_str("09:00").unwrap(), (9, 0));
    assert_eq!(store.set_global_offset_from_str("\n+1000\n").unwrap(), (10, 0));
    assert!(matches!(
        store.set_global_offset_from_str("not-an-offset"),
        Err(Error::InvalidOffsetString)
    ));
}

#[test]
fn utc_timestamp_has_the_fixed_layout() {
    let ts = get_local_timestamp_from_offset_rfc3339(0, 0).unwrap();
    // [year]-[month]-[day]T[hour]:[minute]:[second]+00:00
    assert_eq!(ts.len(), 25);
    assert_eq!(&ts[4..5], "-");
    assert_eq!(&ts[10..11], "T");
    assert!(ts.ends_with("+00:00"));
}

#[test]
fn stored_offset_is_what_the_timestamp_uses() {
    let mut store = OffsetStore::new();
    store.set_global_offset(0, 0).unwrap();
    let ts = store.get_local_timestamp_rfc3339().unwrap();
    assert!(ts.ends_with("+00:00"));
}
