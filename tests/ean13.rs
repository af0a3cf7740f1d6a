use epl_label::{compute_ean13_checksum, ensure_valid_ean13, normalize_ean13, Ean13Error};

#[test]
fn twelve_digits_get_their_check_digit() {
    assert_eq!(normalize_ean13("400638133393".to_string()), Ok("4006381333931".to_string()));
}

#[test]
fn valid_thirteen_digits_are_returned_unchanged() {
    assert_eq!(normalize_ean13("4006381333931".to_string()), Ok("4006381333931".to_string()));
}

#[test]
fn any_other_last_digit_is_a_checksum_mismatch() {
    for d in ['0', '2', '3', '4', '5', '6', '7', '8', '9'] {
        let code = format!("400638133393{}", d);
        assert_eq!(normalize_ean13(code), Err(Ean13Error::ChecksumMismatch));
    }
}

#[test]
fn eleven_or_fourteen_digits_are_invalid_length() {
    assert_eq!(normalize_ean13("40063813339".to_string()), Err(Ean13Error::InvalidLength));
    assert_eq!(normalize_ean13("40063813339310".to_string()), Err(Ean13Error::InvalidLength));
    assert_eq!(normalize_ean13(String::new()), Err(Ean13Error::InvalidLength));
}

#[test]
fn non_digits_are_dropped_before_counting() {
    assert_eq!(normalize_ean13("400-638 133-393".to_string()), Ok("4006381333931".to_string()));
    assert_eq!(normalize_ean13("ab4006381333931x".to_string()), Ok("4006381333931".to_string()));
}

#[test]
fn normalizing_twice_gives_the_same_code() {
    for payload in ["000000000000", "123456789012", "999999999999", "590123412345"] {
        let once = normalize_ean13(payload.to_string()).unwrap();
        assert_eq!(once.len(), 13);
        assert_eq!(normalize_ean13(once.clone()), Ok(once));
    }
}

#[test]
fn checksum_of_known_payloads() {
    assert_eq!(compute_ean13_checksum("400638133393"), Some(1));
    assert_eq!(compute_ean13_checksum("590123412345"), Some(7));
    assert_eq!(compute_ean13_checksum("000000000000"), Some(0));
    assert_eq!(compute_ean13_checksum("40063813339"), None);
    assert_eq!(compute_ean13_checksum("40063813339a"), None);
}

#[test]
fn payload_is_cut_or_padded_to_twelve_digits() {
    assert_eq!(ensure_valid_ean13("123"), "123000000000");
    assert_eq!(ensure_valid_ean13("4006381333931"), "400638133393");
    assert_eq!(ensure_valid_ean13("x4006-3813-3393"), "400638133393");
    assert_eq!(ensure_valid_ean13(""), "000000000000");
}
