//! Paths of files, joined and parted as the standard library does it.

use vstd::prelude::*;

verus! {

/// The path that `std::path::Path::join` makes of a path taken relative to
/// a directory.
pub uninterp spec fn joined(directory: Seq<char>, path: Seq<char>) -> Seq<char>;

/// The directory that `std::path::Path::parent` gives for a path, if it
/// gives one.
pub uninterp spec fn parent(path: Seq<char>) -> Option<Seq<char>>;

/// `std::path::Path::join`: the path of `path` taken relative to
/// `directory`. The standard library looks at the two texts alone, neither
/// at the disk nor at the environment, and the contract claims no more than
/// that: the result is what it makes of them, under the name `joined`.
#[verifier::external_body]
pub(crate) fn join_path(directory: &String, path: &String) -> (r: String)
    ensures
        r@ == joined(directory@, path@),
{
    std::path::Path::new(directory.as_str()).join(path.as_str()).to_string_lossy().into_owned()
}

/// `std::path::Path::parent`: the directory that holds the file at `path`,
/// or nothing where the path ends in a root or is empty. The standard
/// library looks at the text alone, and the contract claims no more than
/// that: the result is what it makes of the text, under the name `parent`.
#[verifier::external_body]
pub(crate) fn parent_directory(path: &String) -> (r: Option<String>)
    ensures
        match r {
            Some(directory) => parent(path@) == Some(directory@),
            None => parent(path@) is None,
        },
{
    match std::path::Path::new(path.as_str()).parent() {
        Some(directory) => Some(directory.to_string_lossy().into_owned()),
        None => None,
    }
}

} // verus!
