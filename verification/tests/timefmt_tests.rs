use predate::timefmt::split_duration;

#[test]
fn splits_fractional_milliseconds() {
    assert_eq!(
        split_duration("1.234ms"),
        ("1.234".to_string(), "ms".to_string())
    );
}

#[test]
fn splits_microseconds() {
    assert_eq!(split_duration("12µs"), ("12".to_string(), "µs".to_string()));
}

#[test]
fn splits_whole_seconds() {
    assert_eq!(split_duration("2s"), ("2".to_string(), "s".to_string()));
}

#[test]
fn empty_duration_splits_into_empty_parts() {
    assert_eq!(split_duration(""), ("".to_string(), "".to_string()));
}

#[test]
fn units_only_string_has_empty_value() {
    assert_eq!(split_duration("ns"), ("".to_string(), "ns".to_string()));
}
