use xynok_std::file::toml::{decode_text, is_toml_extension, require_some_toml, TomlFileError};

#[test]
fn decode_text_reads_valid_utf8()
{
    match decode_text("name = \"héllo\"".as_bytes().to_vec())
    {
        Ok(s) => assert_eq!(s, "name = \"héllo\""),
        Err(_) => panic!("valid UTF-8 was refused"),
    }
}

#[test]
fn decode_text_refuses_invalid_utf8()
{
    assert!(matches!(decode_text(vec![0x66, 0xff, 0x6f]), Err(TomlFileError::Utf8(_))));
}

#[test]
fn only_the_toml_extension_counts()
{
    assert!(is_toml_extension(Some("toml")));
    assert!(!is_toml_extension(Some("TOML")));
    assert!(!is_toml_extension(Some("tom")));
    assert!(!is_toml_extension(None));
}

#[test]
fn an_empty_folder_is_an_error()
{
    assert!(matches!(require_some_toml::<u32>(Vec::new()), Err(TomlFileError::FolderHasZeroTomlFile)));
    assert!(matches!(require_some_toml(vec![1u32, 2]), Ok(v) if v == vec![1, 2]));
}
