use appfile::{ExtReader, IoErrorKind, ParserError};

#[test]
fn refused_version_is_described_with_both_versions() {
    let error = ParserError::InvalidVersion(0, 513);
    assert_eq!(error.description(), "Invalid Version, expected 0 found 513");
    let error = ParserError::InvalidVersion(65535, 10);
    assert_eq!(error.description(), "Invalid Version, expected 65535 found 10");
    let error = ExtReader::new(vec![0x30, 0x39, 0, 1]).parse().unwrap_err();
    assert_eq!(error.description(), "Invalid Version, expected 0 found 12345");
}

#[test]
fn refused_type_tag_is_described_with_the_tag() {
    let error = ExtReader::new(vec![0, 0, 0, 9]).parse().unwrap_err();
    assert_eq!(error.description(), "Unrecognized Type, found 9");
    assert_eq!(ParserError::UnrecognizedType(400).description(), "Unrecognized Type, found 400");
}

#[test]
fn other_errors_are_described_as_invalid_data() {
    assert_eq!(ParserError::Invalid.description(), "Invalid Data");
    assert_eq!(ParserError::IoError(IoErrorKind::UnexpectedEof).description(), "Invalid Data");
    assert_eq!(ParserError::IoError(IoErrorKind::InvalidData).description(), "Invalid Data");
    let malformed = serde_json::from_str::<u8>("x").unwrap_err();
    assert_eq!(ParserError::from(malformed).description(), "Invalid Data");
    assert_eq!(ParserError::ReservedKey.description(), "Reserved Key");
}

#[test]
fn errors_of_the_layers_below_become_parser_errors() {
    let malformed = serde_json::from_str::<u8>("x").unwrap_err();
    let text = malformed.to_string();
    match ParserError::from(malformed) {
        ParserError::SerdeParseError(e) => assert_eq!(e.to_string(), text),
        other => panic!("{:?}", other),
    }
    match ParserError::from(IoErrorKind::UnexpectedEof) {
        ParserError::IoError(IoErrorKind::UnexpectedEof) => {}
        other => panic!("{:?}", other),
    }
}
