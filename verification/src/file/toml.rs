use vstd::prelude::*;

use vstd::utf8::{decode_utf8, valid_utf8};

verus! {

#[verifier::external_type_specification]
#[verifier::external_body]
pub struct ExIoError(std::io::Error);

#[verifier::external_type_specification]
#[verifier::external_body]
pub struct ExFromUtf8Error(std::string::FromUtf8Error);

#[verifier::external_type_specification]
#[verifier::external_body]
pub struct ExTomlDeError(::toml::de::Error);

#[verifier::external_type_specification]
#[verifier::external_body]
pub struct ExTomlSerError(::toml::ser::Error);

/// Why reading or writing TOML files failed.
pub enum TomlFileError {
    Io(std::io::Error),
    Utf8(std::string::FromUtf8Error),
    Deserialize(::toml::de::Error),
    Serialize(::toml::ser::Error),
    /// A folder read for its `.toml` files held none.
    FolderHasZeroTomlFile,
}

/// `String::from_utf8`: the bytes as a string when they are valid UTF-8, else an error.
#[verifier::external_body]
fn string_from_utf8(bytes: Vec<u8>) -> (r: Result<String, std::string::FromUtf8Error>)
    ensures
        r is Ok <==> valid_utf8(bytes@),
        r matches Ok(s) ==> s@ == decode_utf8(bytes@),
{
    String::from_utf8(bytes)
}

/// The text of a file's bytes, or `TomlFileError::Utf8` when they are not valid UTF-8.
pub fn decode_text(bytes: Vec<u8>) -> (r: Result<String, TomlFileError>)
    ensures
        r is Ok <==> valid_utf8(bytes@),
        r matches Ok(s) ==> s@ == decode_utf8(bytes@),
        r matches Err(e) ==> e is Utf8,
{
    match string_from_utf8(bytes) {
        Ok(s) => Ok(s),
        Err(e) => Err(TomlFileError::Utf8(e)),
    }
}

/// A directory entry counts as a TOML file when its extension is exactly `toml`.
pub fn is_toml_extension(ext: Option<&str>) -> (r: bool)
    ensures
        r == (ext matches Some(e) && e@ == "toml"@),
{
    match ext {
        Some(e) => crate::collection::str_eq(e, "toml"),
        None => false,
    }
}

/// The values parsed from a folder, or `FolderHasZeroTomlFile` when there are none.
pub fn require_some_toml<T>(out: Vec<T>) -> (r: Result<Vec<T>, TomlFileError>)
    ensures
        out@.len() > 0 ==> (r matches Ok(v) && v@ == out@),
        out@.len() == 0 ==> (r matches Err(e) && e is FolderHasZeroTomlFile),
{
    if out.len() == 0 {
        return Err(TomlFileError::FolderHasZeroTomlFile);
    }
    Ok(out)
}

} // verus!
