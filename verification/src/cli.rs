//! Validation of the input file's path, as given on the command line.

use crate::text::{lowercase, lowercase_of};
use std::path::Path;
use vstd::prelude::*;
use vstd::string::StringExecFns;

verus! {

/// What the platform's path rules make of a path's extension.
#[derive(Debug)]
pub enum Extension {
    /// The path has no extension.
    Missing,
    /// The extension is not text.
    Unreadable,
    /// The extension, without its dot.
    Text(String),
}

impl Extension {
    /// The extension as plain values: `None` where there is none,
    /// `Some(None)` where it is not text, else its text.
    pub open spec fn view(self) -> Option<Option<Seq<char>>> {
        match self {
            Extension::Missing => None,
            Extension::Unreadable => Some(None),
            Extension::Text(text) => Some(Some(text@)),
        }
    }
}

/// The extension of a path, by the path rules of the platform that the
/// library is built for.
pub uninterp spec fn extension_of(path: Seq<char>) -> Option<Option<Seq<char>>>;

/// `Path::extension`, with the extension turned to text by `OsStr::to_str`.
/// The extension is read off the path's text alone, by the platform's path
/// rules; the contract gives that outcome its name and claims no more.
#[verifier::external_body]
fn path_extension(file_path: &str) -> (r: Extension)
    ensures
        r.view() == extension_of(file_path@),
{
    match Path::new(file_path).extension() {
        Some(extension) => match extension.to_str() {
            Some(text) => Extension::Text(text.to_string()),
            None => Extension::Unreadable,
        },
        None => Extension::Missing,
    }
}

/// A verdict on a path, as texts: the accepted path, or why it is refused.
pub open spec fn verdict_view(verdict: Result<String, String>) -> Result<Seq<char>, Seq<char>> {
    match verdict {
        Ok(path) => Ok(path@),
        Err(reason) => Err(reason@),
    }
}

/// The verdict on a path with the given extension: it must exist, and its
/// extension must be `csv` in any mix of upper and lower case.
pub open spec fn path_verdict(
    file_path: Seq<char>,
    exists: bool,
    extension: Option<Option<Seq<char>>>,
) -> Result<Seq<char>, Seq<char>> {
    if !exists {
        Err("File path doesn't exist"@)
    } else {
        match extension {
            None => Err("File path hasn't any extension"@),
            Some(None) => Err("Unable to convert file path to string"@),
            Some(Some(text)) => if lowercase_of(text) == "csv"@ {
                Ok(file_path)
            } else {
                Err("File is not in CSV format"@)
            },
        }
    }
}

/// Whether a text in lower case is the extension of a CSV file.
pub fn is_csv(lowered: &String) -> (r: bool)
    ensures
        r == (lowered@ == "csv"@),
{
    *lowered == String::from_str("csv")
}

/// The verdict on a path whose existence and extension are known.
pub fn check_filepath(file_path: &str, exists: bool, extension: &Extension) -> (r: Result<
    String,
    String,
>)
    ensures
        verdict_view(r) == path_verdict(file_path@, exists, extension.view()),
{
    if !exists {
        return Err(String::from_str("File path doesn't exist"));
    }
    match extension {
        Extension::Missing => Err(String::from_str("File path hasn't any extension")),
        Extension::Unreadable => Err(String::from_str("Unable to convert file path to string")),
        Extension::Text(text) => {
            let lowered = lowercase(text.as_str());
            if is_csv(&lowered) {
                Ok(String::from_str(file_path))
            } else {
                Err(String::from_str("File is not in CSV format"))
            }
        },
    }
}

/// Accepts the path of an input file: one that exists, with the extension
/// `csv` in any mix of upper and lower case. Whether the file exists is for
/// the caller to find out.
pub fn parse_filepath(file_path: &str, exists: bool) -> (r: Result<String, String>)
    ensures
        verdict_view(r) == path_verdict(file_path@, exists, extension_of(file_path@)),
{
    let extension = path_extension(file_path);
    check_filepath(file_path, exists, &extension)
}

} // verus!
