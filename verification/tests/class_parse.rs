use jay::class_parse::{parse, ParserError};

#[test]
fn class_parse_can_parse_magic() {
    let mut buf: &[u8] = &[0xCA, 0xCA, 0xBA, 0xBA];
    assert!(matches!(parse(buf), Err(ParserError::InvalidMagicHeader)));

    buf = &[0xCA, 0xFE, 0xBA, 0xBE];
    assert!(matches!(parse(buf), Err(ParserError::ReadFailure)));
}

#[test]
fn class_parse_can_parse_version() {
    let mut buf: &[u8] = &[0xCA, 0xFE, 0xBA, 0xBE, 0x00, 0x00, 0x00, 0x3d];
    assert!(parse(buf).is_ok());

    // Unexpected end of stream
    buf = &[0xCA, 0xFE, 0xBA, 0xBE, 0x00];
    assert!(matches!(parse(buf), Err(ParserError::ReadFailure)));

    buf = &[0xCA, 0xFE, 0xBA, 0xBE, 0x00, 0x00, 0x00];
    assert!(matches!(parse(buf), Err(ParserError::ReadFailure)));

    // Major version != 61
    buf = &[0xCA, 0xFE, 0xBA, 0xBE, 0x00, 0x00, 0x00, 0x3f];
    assert!(matches!(parse(buf), Err(ParserError::UnsupportedVersion)));
}
