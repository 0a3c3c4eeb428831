use ctty_rs::CttyError;
use ctty_rs::ctty_dev_of_record;

#[test]
fn parses_device_id_at_offset_four() {
    // The token at zero-based offset 4 past the name delimiter is the
    // controlling terminal's device identifier.
    let rec = b"123 (my proc) S 1 1 1 34816 1";
    assert_eq!(ctty_dev_of_record(rec), Ok(34816));
}

#[test]
fn name_with_embedded_rparen_uses_last_delimiter() {
    // The process name may itself contain `)`; the delimiter is the last
    // `)` of the record, not the first.
    let rec = b"123 (my ) proc) S 1 1 1 34816 1";
    assert_eq!(ctty_dev_of_record(rec), Ok(34816));
}

#[test]
fn too_few_tokens_is_parse_failure() {
    // Only four tokens follow the delimiter: offset 4 does not exist.
    let rec = b"123 (x) S 1 2 3";
    assert_eq!(ctty_dev_of_record(rec), Err(CttyError::SystemDataParseFailure));
}

#[test]
fn record_without_rparen_is_parse_failure() {
    let rec = b"123 my proc S 1 1 1 34816 1";
    assert_eq!(ctty_dev_of_record(rec), Err(CttyError::SystemDataParseFailure));
}

#[test]
fn non_numeric_token_is_parse_failure() {
    let rec = b"1 (a) S 1 1 1 abc 1";
    assert_eq!(ctty_dev_of_record(rec), Err(CttyError::SystemDataParseFailure));
}

#[test]
fn record_ending_at_delimiter_is_parse_failure() {
    let rec = b"1 (a)";
    assert_eq!(ctty_dev_of_record(rec), Err(CttyError::SystemDataParseFailure));
}

#[test]
fn empty_record_is_parse_failure() {
    let rec = b"";
    assert_eq!(ctty_dev_of_record(rec), Err(CttyError::SystemDataParseFailure));
}

#[test]
fn negative_token_widens_by_sign_extension() {
    let rec = b"1 (a) S 1 1 1 -1 1";
    assert_eq!(ctty_dev_of_record(rec), Ok(u64::MAX));
}

#[test]
fn extreme_values_fit() {
    let min = b"1 (a) S 1 1 1 -2147483648 1";
    assert_eq!(ctty_dev_of_record(min), Ok(0xFFFF_FFFF_8000_0000));
    let max = b"1 (a) S 1 1 1 2147483647 1";
    assert_eq!(ctty_dev_of_record(max), Ok(2147483647));
}

#[test]
fn out_of_range_token_is_parse_failure() {
    let over = b"1 (a) S 1 1 1 2147483648 1";
    assert_eq!(ctty_dev_of_record(over), Err(CttyError::SystemDataParseFailure));
    let way_over = b"1 (a) S 1 1 1 99999999999 1";
    assert_eq!(ctty_dev_of_record(way_over), Err(CttyError::SystemDataParseFailure));
}

#[test]
fn leading_plus_sign_is_accepted() {
    let rec = b"1 (a) S 1 1 1 +5 1";
    assert_eq!(ctty_dev_of_record(rec), Ok(5));
}

#[test]
fn sign_without_digits_is_parse_failure() {
    let rec = b"1 (a) S 1 1 1 - 1";
    assert_eq!(ctty_dev_of_record(rec), Err(CttyError::SystemDataParseFailure));
}
