use appfile::{
    AppFileType, BinStruct, ExtReader, ExtWriter, InstallerOptions, InstallerOptionsLinux,
    InstallerOptionsWin32, ParserError, Schema,
};
use std::collections::HashMap;

const DESCRIPTOR_TEXT: &str = r#"{"appId":"app","appShortcutName":"App","appDisplayName":"The App","authorId":"me","downloadUrls":{"1":{"installerType":"WindowsZip","url":"https://example.org/a.zip"},"2":{"installerType":"LinuxAppImage","url":"https://example.org/a.AppImage"}},"install":{"win32":{"assetId":1,"exec":"app.exe","installerArgs":null},"linux":{"assetId":2}},"displayImages":["one","two"],"description":"An app","icon":"","repo":{"author":"me","repo":"app"},"version":"1","site":"https://example.org","source":null,"license_or_tos":"MIT","app_page":null}"#;

fn package(
    entries: &[(u8, &[u8])],
    icon: &[u8],
    name: &str,
    install: InstallerOptions,
) -> Schema {
    let mut data = HashMap::new();
    for (id, bytes) in entries {
        data.insert(*id, bytes.to_vec());
    }
    Schema::new(AppFileType::Bin(BinStruct::new(data, icon.to_vec(), name.to_string(), install)))
}

fn write(schema: Schema) -> Result<Vec<u8>, ParserError> {
    ExtWriter::new(schema).write()
}

fn read(bytes: Vec<u8>) -> Schema {
    ExtReader::new(bytes).parse().unwrap()
}

fn custom_install() -> InstallerOptions {
    InstallerOptions {
        win32: Some(InstallerOptionsWin32 {
            asset_id: 1,
            executable: Some("bin/run.exe".to_string()),
            installer_args: Some(vec!["/quiet".to_string()]),
        }),
        linux: None,
    }
}

#[test]
fn empty_package_is_written_with_empty_fields() {
    let bytes = write(package(&[], &[], "", InstallerOptions::default())).unwrap();
    let mut expected = vec![0x00, 0x00, 0x00, 0x01, 0xFF];
    expected.extend_from_slice(&[0; 24]);
    assert_eq!(bytes, expected);
}

#[test]
fn package_is_written_field_by_field() {
    let bytes = write(package(
        &[(9, &[0xA1, 0xA2]), (2, &[0xB1])],
        &[0xC1, 0xC2, 0xC3],
        "h\u{e9}",
        InstallerOptions::default(),
    ))
    .unwrap();
    let expected = vec![
        0x00, 0x00, 0x00, 0x01, // version, tag
        2, 0, 0, 0, 0, 0, 0, 0, 1, 0xB1, // entry 2
        9, 0, 0, 0, 0, 0, 0, 0, 2, 0xA1, 0xA2, // entry 9
        0xFF, // end of entries
        0, 0, 0, 0, 0, 0, 0, 3, 0xC1, 0xC2, 0xC3, // icon
        0, 0, 0, 0, 0, 0, 0, 0, // install options: the default
        0, 0, 0, 0, 0, 0, 0, 3, 0x68, 0xC3, 0xA9, // name
    ];
    assert_eq!(bytes, expected);
}

#[test]
fn other_install_options_are_written_as_json() {
    let bytes = write(package(&[], &[], "", custom_install())).unwrap();
    let json = br#"{"win32":{"assetId":1,"exec":"bin/run.exe","installerArgs":["/quiet"]},"linux":null}"#;
    let mut expected = vec![0x00, 0x00, 0x00, 0x01, 0xFF];
    expected.extend_from_slice(&[0; 8]);
    expected.extend_from_slice(&(json.len() as u64).to_be_bytes());
    expected.extend_from_slice(json);
    expected.extend_from_slice(&[0; 8]);
    assert_eq!(bytes, expected);
}

#[test]
fn install_options_near_the_default_are_written_as_json() {
    let mut install = InstallerOptions::default();
    install.linux = None;
    assert!(!install.is_default());
    let bytes = write(package(&[], &[], "", install.clone())).unwrap();
    assert!(bytes.len() > 29);
    match read(bytes).data {
        AppFileType::Bin(bin) => assert_eq!(bin.install, install),
        other => panic!("{:?}", other),
    }
}

#[test]
fn default_install_options_are_recognised() {
    assert!(InstallerOptions::default().is_default());
    assert_eq!(
        InstallerOptions::default(),
        InstallerOptions {
            win32: Some(InstallerOptionsWin32 {
                asset_id: 0,
                executable: None,
                installer_args: None
            }),
            linux: Some(InstallerOptionsLinux { asset_id: 0 }),
        }
    );
    assert!(!custom_install().is_default());
    let mut with_executable = InstallerOptions::default();
    with_executable.win32.as_mut().unwrap().executable = Some(String::new());
    assert!(!with_executable.is_default());
    let mut with_asset = InstallerOptions::default();
    with_asset.linux.as_mut().unwrap().asset_id = 1;
    assert!(!with_asset.is_default());
}

#[test]
fn reserved_entry_id_is_refused() {
    match write(package(&[(1, &[1]), (0xFF, &[2])], &[], "", InstallerOptions::default())) {
        Err(ParserError::ReservedKey) => {}
        other => panic!("{:?}", other),
    }
}

#[test]
fn other_version_is_not_written() {
    let mut schema = Schema::new(AppFileType::ODat("{}".to_string()));
    schema.ver = 7;
    match write(schema) {
        Err(ParserError::InvalidVersion(0, 7)) => {}
        other => panic!("{:?}", other),
    }
}

#[test]
fn new_schema_has_the_supported_version() {
    assert_eq!(Schema::new(AppFileType::ODat(String::new())).ver, appfile::VER);
    assert_eq!(appfile::VER, 0);
}

#[test]
fn opaque_text_is_written_verbatim() {
    let bytes = write(Schema::new(AppFileType::ODat("{}".to_string()))).unwrap();
    assert_eq!(bytes, vec![0x00, 0x00, 0x00, 0x03, 0x7B, 0x7D]);
    let bytes = write(Schema::new(AppFileType::ODat(String::new()))).unwrap();
    assert_eq!(bytes, vec![0x00, 0x00, 0x00, 0x03]);
}

#[test]
fn descriptor_is_written_as_json_without_a_length() {
    let app: ahqstore_types::AHQStoreApplication = serde_json::from_str(DESCRIPTOR_TEXT).unwrap();
    let bytes = write(Schema::new(AppFileType::Dat(app))).unwrap();
    assert_eq!(&bytes[..4], &[0x00, 0x00, 0x00, 0x02]);
    let text = std::str::from_utf8(&bytes[4..]).unwrap();
    let written: serde_json::Value = serde_json::from_str(text).unwrap();
    let expected: serde_json::Value = serde_json::from_str(DESCRIPTOR_TEXT).unwrap();
    assert_eq!(written, expected);
}

#[test]
fn package_survives_a_round_trip() {
    let entries: &[(u8, &[u8])] = &[(0, &[]), (1, &[0xFF; 300]), (254, &[1, 2, 3]), (77, &[0])];
    let bytes = write(package(entries, &[0xFF, 0x00, 0xFF], "Demo \u{2713}", custom_install()))
        .unwrap();
    let total = bytes.len();
    let (result, consumed) = ExtReader::new(bytes).parse_counted();
    assert_eq!(consumed, total);
    let schema = result.unwrap();
    assert_eq!(schema.ver, 0);
    match schema.data {
        AppFileType::Bin(bin) => {
            assert_eq!(bin.data.len(), entries.len());
            for (id, content) in entries {
                assert_eq!(bin.data[id], content.to_vec());
            }
            assert_eq!(bin.icon, vec![0xFF, 0x00, 0xFF]);
            assert_eq!(bin.name, "Demo \u{2713}");
            assert_eq!(bin.install, custom_install());
        }
        other => panic!("{:?}", other),
    }
}

#[test]
fn default_package_survives_a_round_trip() {
    let bytes = write(package(&[(3, &[3, 3, 3])], &[], "", InstallerOptions::default())).unwrap();
    match read(bytes).data {
        AppFileType::Bin(bin) => {
            assert_eq!(bin.data.len(), 1);
            assert_eq!(bin.data[&3], vec![3, 3, 3]);
            assert!(bin.icon.is_empty());
            assert_eq!(bin.name, "");
            assert_eq!(bin.install, InstallerOptions::default());
        }
        other => panic!("{:?}", other),
    }
}

#[test]
fn opaque_text_survives_a_round_trip() {
    for text in ["", "{}", "plain text", "\u{1F600} \u{e9}"] {
        let bytes = write(Schema::new(AppFileType::ODat(text.to_string()))).unwrap();
        match read(bytes).data {
            AppFileType::ODat(back) => assert_eq!(back, text),
            other => panic!("{:?}", other),
        }
    }
}

#[test]
fn descriptor_survives_a_round_trip() {
    let app: ahqstore_types::AHQStoreApplication = serde_json::from_str(DESCRIPTOR_TEXT).unwrap();
    let before = serde_json::to_value(&app).unwrap();
    let bytes = write(Schema::new(AppFileType::Dat(app))).unwrap();
    match read(bytes).data {
        AppFileType::Dat(back) => assert_eq!(serde_json::to_value(&back).unwrap(), before),
        other => panic!("{:?}", other),
    }
}

#[test]
fn decoding_then_encoding_gives_the_bytes_back() {
    let mut bytes = vec![0x00, 0x00, 0x00, 0x01, 4, 0, 0, 0, 0, 0, 0, 0, 2, 8, 9, 0xFF];
    bytes.extend_from_slice(&[0, 0, 0, 0, 0, 0, 0, 1, 0x11]);
    bytes.extend_from_slice(&[0; 8]);
    bytes.extend_from_slice(&[0, 0, 0, 0, 0, 0, 0, 2, 0x6F, 0x6B]);
    let schema = read(bytes.clone());
    assert_eq!(write(schema).unwrap(), bytes);
}

#[test]
fn install_options_are_built_from_their_parts() {
    let win32 = InstallerOptionsWin32::new(5, Some("a.exe".to_string()), None);
    assert_eq!(win32.asset_id, 5);
    assert_eq!(win32.executable, Some("a.exe".to_string()));
    assert_eq!(win32.installer_args, None);
    assert_eq!(InstallerOptionsLinux::new(6).asset_id, 6);
}

#[test]
fn package_is_built_from_its_parts() {
    let mut data = HashMap::new();
    data.insert(1u8, vec![1u8]);
    let package = BinStruct::new(data.clone(), vec![2], "p".to_string(), custom_install());
    assert_eq!(package.data, data);
    assert_eq!(package.icon, vec![2]);
    assert_eq!(package.name, "p");
    assert_eq!(package.install, custom_install());
}

#[test]
fn well_formed_schema_has_the_version_and_no_reserved_id() {
    assert!(package(&[(254, &[])], &[], "", InstallerOptions::default()).is_well_formed());
    assert!(!package(&[(255, &[])], &[], "", InstallerOptions::default()).is_well_formed());
    let mut schema = Schema::new(AppFileType::ODat(String::new()));
    assert!(schema.is_well_formed());
    schema.ver = 1;
    assert!(!schema.is_well_formed());
    let mut schema = package(&[], &[], "", InstallerOptions::default());
    schema.ver = 0xFFFF;
    assert!(!schema.is_well_formed());
}
