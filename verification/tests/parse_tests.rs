use predate::numparse::parse_count;

#[test]
fn parses_plain_count_with_newline() {
    assert_eq!(parse_count(&b"42\n".to_vec()), Some(42));
}

#[test]
fn parses_surrounding_whitespace() {
    assert_eq!(parse_count(&b" \t 1234 \r\n".to_vec()), Some(1234));
}

#[test]
fn parses_zero() {
    assert_eq!(parse_count(&b"0".to_vec()), Some(0));
}

#[test]
fn parses_negative() {
    assert_eq!(parse_count(&b"-17\n".to_vec()), Some(-17));
}

#[test]
fn parses_explicit_plus_sign() {
    assert_eq!(parse_count(&b"+7".to_vec()), Some(7));
}

#[test]
fn parses_i64_extremes() {
    assert_eq!(
        parse_count(&b"9223372036854775807".to_vec()),
        Some(i64::MAX)
    );
    assert_eq!(
        parse_count(&b"-9223372036854775808".to_vec()),
        Some(i64::MIN)
    );
}

#[test]
fn rejects_value_just_out_of_range() {
    assert_eq!(parse_count(&b"9223372036854775808".to_vec()), None);
    assert_eq!(parse_count(&b"-9223372036854775809".to_vec()), None);
}

#[test]
fn rejects_empty_and_blank_output() {
    assert_eq!(parse_count(&b"".to_vec()), None);
    assert_eq!(parse_count(&b" \n\t".to_vec()), None);
}

#[test]
fn rejects_bare_sign() {
    assert_eq!(parse_count(&b"-".to_vec()), None);
    assert_eq!(parse_count(&b"+\n".to_vec()), None);
}

#[test]
fn rejects_non_numeric_output() {
    assert_eq!(parse_count(&b"4a2\n".to_vec()), None);
    assert_eq!(parse_count(&b"error: no such file\n".to_vec()), None);
    assert_eq!(parse_count(&b"12 34".to_vec()), None);
}

#[test]
fn accepts_leading_zeros() {
    assert_eq!(parse_count(&b"007\n".to_vec()), Some(7));
}
