//! Paths and file errors of `std`.

use std::path::PathBuf;
use vstd::prelude::*;

verus! {

/// `std::path::PathBuf`: a path.
#[verifier::external_type_specification]
#[verifier::external_body]
pub struct ExPathBuf(PathBuf);

/// `std::io::Error`: why a file could not be read.
#[verifier::external_type_specification]
#[verifier::external_body]
pub struct ExIoError(std::io::Error);

/// What `Path::display` shows of a path.
pub uninterp spec fn path_text(path: PathBuf) -> Seq<char>;

/// `PathBuf::from`: the path that a text spells; it is shown as that text.
#[verifier::external_body]
pub(crate) fn path_of(text: &str) -> (path: PathBuf)
    ensures
        path_text(path) == text@,
{
    PathBuf::from(text)
}

/// `Path::display`: shows a path.
#[verifier::external_body]
pub(crate) fn show_path(path: &PathBuf) -> (text: String)
    ensures
        text@ == path_text(*path),
{
    path.display().to_string()
}

/// `PathBuf::clone`: a copy of the path.
pub assume_specification[ <PathBuf as Clone>::clone ](path: &PathBuf) -> (copy: PathBuf)
    ensures
        copy == *path,
;

} // verus!
