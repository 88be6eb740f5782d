use appfile::reader::{
    bin, blob, container, descriptor_parsed, entries, install, install_parsed, name, number,
    payload, take, text_rest,
};
use appfile::writer::{
    bin_container, install_bytes, put_blob, put_entries, put_header, text_container,
};
use appfile::{
    AppFileType, BinStruct, InstallerOptions, InstallerOptionsLinux, IoErrorKind, ParserError,
};
use std::collections::HashMap;

fn is_end_of_input<T: std::fmt::Debug>(result: Result<T, ParserError>) {
    match result {
        Err(ParserError::IoError(IoErrorKind::UnexpectedEof)) => {}
        other => panic!("{:?}", other),
    }
}

#[test]
fn number_is_read_where_it_fits() {
    let data = [0x00u8, 0x01, 0x02, 0x03];
    let (value, end) = number(&data, 1, 2);
    assert_eq!(value.unwrap(), 0x0102);
    assert_eq!(end, 3);
    let (value, end) = number(&data, 2, 2);
    assert_eq!(value.unwrap(), 0x0203);
    assert_eq!(end, 4);
    let (value, end) = number(&data, 4, 0);
    assert_eq!(value.unwrap(), 0);
    assert_eq!(end, 4);
}

#[test]
fn number_beyond_the_input_reads_nothing() {
    let data = [0x00u8, 0x01, 0x02, 0x03];
    let (value, end) = number(&data, 3, 2);
    is_end_of_input(value);
    assert_eq!(end, 3);
    let (value, end) = number(&data, 0, 8);
    is_end_of_input(value);
    assert_eq!(end, 0);
    let (value, end) = number(&data, 9, 1);
    is_end_of_input(value);
    assert_eq!(end, 9);
    let (value, end) = number(&data, usize::MAX, 8);
    is_end_of_input(value);
    assert_eq!(end, usize::MAX);
}

#[test]
fn bytes_are_taken_where_they_are() {
    let data = [10u8, 11, 12, 13, 14];
    let (bytes, end) = take(&data, 1, 3);
    assert_eq!(bytes.unwrap(), vec![11, 12, 13]);
    assert_eq!(end, 4);
    let (bytes, end) = take(&data, 5, 0);
    assert_eq!(bytes.unwrap(), Vec::<u8>::new());
    assert_eq!(end, 5);
    let (bytes, end) = take(&data, 2, 4);
    is_end_of_input(bytes);
    assert_eq!(end, 2);
    let (bytes, end) = take(&data, 0, u64::MAX);
    is_end_of_input(bytes);
    assert_eq!(end, 0);
    let (bytes, end) = take(&data, 6, 0);
    is_end_of_input(bytes);
    assert_eq!(end, 6);
}

#[test]
fn blob_is_its_length_then_its_bytes() {
    let data = [0xEEu8, 0, 0, 0, 0, 0, 0, 0, 2, 7, 8, 9];
    let (bytes, end) = blob(&data, 1);
    assert_eq!(bytes.unwrap(), vec![7, 8]);
    assert_eq!(end, 11);
    let (bytes, end) = blob(&data, 2);
    is_end_of_input(bytes);
    assert_eq!(end, 10);
    let (bytes, end) = blob(&data, 5);
    is_end_of_input(bytes);
    assert_eq!(end, 5);
}

#[test]
fn entries_end_at_the_sentinel() {
    let data = [3u8, 0, 0, 0, 0, 0, 0, 0, 1, 0xAB, 0xFF, 0x55];
    let (found, end) = entries(&data, 0);
    let found = found.unwrap();
    assert_eq!(end, 11);
    assert_eq!(found.len(), 1);
    assert_eq!(found[&3], vec![0xAB]);
    let (found, end) = entries(&data, 10);
    assert!(found.unwrap().is_empty());
    assert_eq!(end, 11);
    // An id without a length behind it: the id is consumed, the length is not.
    let (found, end) = entries(&data, 11);
    is_end_of_input(found);
    assert_eq!(end, 12);
    let (found, end) = entries(&data, 12);
    is_end_of_input(found);
    assert_eq!(end, 12);
}

#[test]
fn install_field_is_default_or_json() {
    assert_eq!(install(Vec::new()).unwrap(), InstallerOptions::default());
    let options = install(br#"{"win32":null,"linux":{"assetId":200}}"#.to_vec()).unwrap();
    assert_eq!(
        options,
        InstallerOptions { win32: None, linux: Some(InstallerOptionsLinux { asset_id: 200 }) }
    );
    match install(b"[]".to_vec()) {
        Err(ParserError::SerdeParseError(_)) => {}
        other => panic!("{:?}", other),
    }
    match install(vec![0x80]) {
        Err(ParserError::Invalid) => {}
        other => panic!("{:?}", other),
    }
}

#[test]
fn parsed_install_options_are_kept_and_errors_classified() {
    let options = InstallerOptions { win32: None, linux: None };
    assert_eq!(install_parsed(Ok(options.clone())).unwrap(), options);
    let malformed = serde_json::from_str::<u8>("?").unwrap_err();
    match install_parsed(Err(malformed)) {
        Err(ParserError::SerdeParseError(_)) => {}
        other => panic!("{:?}", other),
    }
}

#[test]
fn parsed_descriptor_becomes_the_payload() {
    let malformed = serde_json::from_str::<u8>("?").unwrap_err();
    match descriptor_parsed(Err(malformed)) {
        Err(ParserError::SerdeParseError(_)) => {}
        other => panic!("{:?}", other),
    }
}

#[test]
fn name_field_is_text() {
    assert_eq!(name(Vec::new()).unwrap(), "");
    assert_eq!(name(vec![0x61, 0xC3, 0xA9]).unwrap(), "a\u{e9}");
    match name(vec![0x61, 0xC3]) {
        Err(ParserError::Invalid) => {}
        other => panic!("{:?}", other),
    }
}

#[test]
fn package_body_is_read_from_its_position() {
    let mut data = vec![0xAAu8, 0xBB, 0xFF];
    data.extend_from_slice(&[0, 0, 0, 0, 0, 0, 0, 1, 0x11]);
    data.extend_from_slice(&[0; 8]);
    data.extend_from_slice(&[0, 0, 0, 0, 0, 0, 0, 1, 0x41]);
    let (package, end) = bin(&data, 2);
    let package = package.unwrap();
    assert_eq!(end, data.len());
    assert!(package.data.is_empty());
    assert_eq!(package.icon, vec![0x11]);
    assert_eq!(package.name, "A");
    assert_eq!(package.install, InstallerOptions::default());
}

#[test]
fn text_runs_to_the_end() {
    let data = [0u8, 0, 0, 3, 0x68, 0x69];
    let (text, end) = text_rest(&data, 4);
    assert_eq!(text.unwrap(), "hi");
    assert_eq!(end, 6);
    let (text, end) = text_rest(&data, 6);
    assert_eq!(text.unwrap(), "");
    assert_eq!(end, 6);
    let (text, end) = text_rest(&data, 7);
    is_end_of_input(text);
    assert_eq!(end, 7);
    let (text, end) = text_rest(&[0x68, 0xFF], 0);
    match text {
        Err(ParserError::IoError(IoErrorKind::InvalidData)) => {}
        other => panic!("{:?}", other),
    }
    assert_eq!(end, 2);
}

#[test]
fn payload_goes_by_the_tag() {
    let data = [0x7Bu8, 0x7D];
    match payload(&data, 0, 3) {
        (Ok(AppFileType::ODat(text)), 2) => assert_eq!(text, "{}"),
        other => panic!("{:?}", other),
    }
    match payload(&data, 0, 2) {
        (Err(ParserError::SerdeParseError(_)), 2) => {}
        other => panic!("{:?}", other),
    }
    match payload(&data, 0, 1) {
        (Err(ParserError::IoError(IoErrorKind::UnexpectedEof)), 1) => {}
        other => panic!("{:?}", other),
    }
    match payload(&data, 1, 0) {
        (Err(ParserError::UnrecognizedType(0)), 1) => {}
        other => panic!("{:?}", other),
    }
}

#[test]
fn container_may_start_anywhere() {
    let data = [0x99u8, 0, 0, 0, 3, 0x6F, 0x6B];
    match container(&data, 1) {
        (Ok(schema), 7) => match schema.data {
            AppFileType::ODat(text) => assert_eq!(text, "ok"),
            other => panic!("{:?}", other),
        },
        other => panic!("{:?}", other),
    }
    match container(&data, 0) {
        (Err(ParserError::InvalidVersion(0, 0x9900)), 2) => {}
        other => panic!("{:?}", other),
    }
    match container(&data, 5) {
        (Err(ParserError::InvalidVersion(0, 0x6F6B)), 7) => {}
        other => panic!("{:?}", other),
    }
    match container(&data, 6) {
        (Err(ParserError::IoError(IoErrorKind::UnexpectedEof)), 6) => {}
        other => panic!("{:?}", other),
    }
}

#[test]
fn header_and_blob_are_appended() {
    let mut out = vec![0x77];
    put_header(&mut out, 0x0203);
    assert_eq!(out, vec![0x77, 0, 0, 2, 3]);
    put_blob(&mut out, &[5, 6, 7]);
    assert_eq!(out, vec![0x77, 0, 0, 2, 3, 0, 0, 0, 0, 0, 0, 0, 3, 5, 6, 7]);
    let mut out = Vec::new();
    put_blob(&mut out, &[]);
    assert_eq!(out, vec![0; 8]);
}

#[test]
fn entries_are_appended_by_ascending_id() {
    let mut data = HashMap::new();
    data.insert(200u8, vec![2u8]);
    data.insert(0u8, vec![]);
    data.insert(255u8, vec![9u8, 9]);
    data.insert(17u8, vec![1u8, 1]);
    let mut out = vec![0x77];
    put_entries(&mut out, &data);
    let expected = vec![
        0x77, 0, 0, 0, 0, 0, 0, 0, 0, 0, 17, 0, 0, 0, 0, 0, 0, 0, 2, 1, 1, 200, 0, 0, 0, 0, 0, 0,
        0, 1, 2,
    ];
    assert_eq!(out, expected);
}

#[test]
fn package_container_takes_the_install_field_as_given() {
    let package =
        BinStruct::new(HashMap::new(), vec![1], "n".to_string(), InstallerOptions::default());
    let out = bin_container(&package, b"{}");
    let mut expected = vec![0, 0, 0, 1, 0xFF];
    expected.extend_from_slice(&[0, 0, 0, 0, 0, 0, 0, 1, 1]);
    expected.extend_from_slice(&[0, 0, 0, 0, 0, 0, 0, 2, 0x7B, 0x7D]);
    expected.extend_from_slice(&[0, 0, 0, 0, 0, 0, 0, 1, 0x6E]);
    assert_eq!(out, expected);
}

#[test]
fn text_container_is_header_and_text() {
    assert_eq!(text_container(2, "{}"), vec![0, 0, 0, 2, 0x7B, 0x7D]);
    assert_eq!(text_container(3, "\u{e9}"), vec![0, 0, 0, 3, 0xC3, 0xA9]);
}

#[test]
fn install_field_is_empty_for_the_default() {
    assert_eq!(install_bytes(&InstallerOptions::default()).unwrap(), Vec::<u8>::new());
    let options = InstallerOptions { win32: None, linux: Some(InstallerOptionsLinux { asset_id: 4 }) };
    assert_eq!(
        install_bytes(&options).unwrap(),
        br#"{"win32":null,"linux":{"assetId":4}}"#.to_vec()
    );
}
