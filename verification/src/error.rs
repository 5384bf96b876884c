//! What can go wrong.

#[allow(deprecated)]
use serde_yml::Error as YamlError;
use vstd::prelude::*;

verus! {

/// `serde_yml::Error`, the failure that the YAML deserializer reports. Nothing
/// is known of what it holds.
#[verifier::external_type_specification]
#[verifier::external_body]
pub struct ExYamlError(YamlError);

/// `std::io::Error`. Nothing is known of what it holds.
#[verifier::external_type_specification]
#[verifier::external_body]
pub struct ExIoError(std::io::Error);

/// `std::path::PathBuf`. Nothing is known of what it holds.
#[verifier::external_type_specification]
#[verifier::external_body]
pub struct ExPathBuf(std::path::PathBuf);

/// The crate's error type.
#[derive(Debug)]
pub enum Error {
    /// The frontmatter of a file did not deserialize. Holds the deserializer's
    /// failure and the path of the file.
    ParseFrontmatter(YamlError, String),
    /// A folder could not be listed. Holds the failure and the folder's path.
    ReadDir(std::io::Error, std::path::PathBuf),
    /// An entry of a folder could not be inspected.
    DirEntry(std::io::Error),
}

/// The crate's result type.
pub type Result<T> = core::result::Result<T, Error>;

} // verus!
