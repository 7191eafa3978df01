use distronomicon::checksum::{checksum_lines_split, parse_checksum, ChecksumError};

#[test]
fn parses_two_space_format() {
    let text = format!("{}  app.zip", "a".repeat(64));
    assert_eq!(parse_checksum(&text, "app.zip").unwrap(), "a".repeat(64));
}

#[test]
fn parses_asterisk_format() {
    let text = format!("{} *app.exe", "b".repeat(64));
    assert_eq!(parse_checksum(&text, "app.exe").unwrap(), "b".repeat(64));
}

#[test]
fn accepts_comments_whitespace_and_crlf() {
    let text = format!("  # comment\r\n{}  app.zip\r\n", "c".repeat(64));
    assert_eq!(parse_checksum(&text, "app.zip").unwrap(), "c".repeat(64));
}

#[test]
fn rejects_short_or_invalid_lines() {
    assert!(parse_checksum("abc  app.zip", "app.zip").is_err());
    let invalid = format!("{} app.zip", "d".repeat(64));
    assert!(parse_checksum(&invalid, "app.zip").is_err());
}

#[test]
fn reports_missing_asset() {
    let text = format!("{}  other.zip", "e".repeat(64));
    assert!(parse_checksum(&text, "app.zip").is_err());
}

#[test]
fn error_variants_carry_the_offending_text() {
    assert_eq!(
        parse_checksum("abc  app.zip", "app.zip"),
        Err(ChecksumError::InvalidLine("abc  app.zip".to_string()))
    );
    let bad_hash = format!("{}g  app.zip", "f".repeat(63));
    assert_eq!(
        parse_checksum(&bad_hash, "app.zip"),
        Err(ChecksumError::InvalidHash(format!("{}g", "f".repeat(63))))
    );
    let bad_sep = format!("{} app.zip", "d".repeat(64));
    assert_eq!(
        parse_checksum(&bad_sep, "app.zip"),
        Err(ChecksumError::InvalidSeparator(" app.zip".to_string()))
    );
    let empty = format!("{}  ", "1".repeat(64));
    assert_eq!(parse_checksum(&empty, "app.zip"), Err(ChecksumError::EmptyFilename));
    assert_eq!(
        parse_checksum("", "app.zip"),
        Err(ChecksumError::EntryNotFound("app.zip".to_string()))
    );
}

#[test]
fn first_matching_line_wins_and_later_errors_are_not_reached() {
    let text = format!("{}  app.zip\nnot a checksum line\n", "2".repeat(64));
    assert_eq!(parse_checksum(&text, "app.zip").unwrap(), "2".repeat(64));
    let text = format!("{}  other\n{}  app.zip", "3".repeat(64), "4".repeat(64));
    assert_eq!(parse_checksum(&text, "app.zip").unwrap(), "4".repeat(64));
}

#[test]
fn line_split_inside_multibyte_character_is_detected() {
    let text = format!("{}é{}  app.zip", "a".repeat(63), "b".repeat(10));
    assert!(!checksum_lines_split(&text, "app.zip"));
    let ok = format!("{}  app.zip", "a".repeat(64));
    assert!(checksum_lines_split(&ok, "app.zip"));
}

#[test]
fn sha256_of_known_inputs() {
    assert_eq!(
        distronomicon::checksum::file_sha256(b"abc"),
        "ba7816bf8f01cfea414140de5dae2223b00361a396177a9cb410ff61f20015ad"
    );
    assert_eq!(
        distronomicon::checksum::file_sha256(b""),
        "e3b0c44298fc1c149afbf4c8996fb92427ae41e4649b934ca495991b7852b855"
    );
    assert_eq!(distronomicon::checksum::hex(&[0x00, 0x0f, 0xa5, 0xff]), "000fa5ff");
}

#[test]
fn downloaded_file_is_checked_against_the_list() {
    let digest = "BA7816BF8F01CFEA414140DE5DAE2223B00361A396177A9CB410FF61F20015AD";
    let list = format!("# sums\n{digest}  tool.zip\n");
    assert_eq!(distronomicon::checksum::verify_sha256(&list, "tool.zip", b"abc"), Ok(()));
    assert_eq!(
        distronomicon::checksum::verify_sha256(&list, "tool.zip", b"abd"),
        Err(format!(
            "SHA-256 mismatch for tool.zip: expected {digest}, got {}",
            distronomicon::checksum::file_sha256(b"abd")
        ))
    );
    assert_eq!(
        distronomicon::checksum::verify_sha256(&list, "other.zip", b"abc"),
        Err("Checksum entry not found for other.zip".to_string())
    );
    assert_eq!(
        distronomicon::checksum::verify_sha256("zz  tool.zip\n", "tool.zip", b"abc"),
        Err("Invalid checksum line: zz  tool.zip".to_string())
    );
}
