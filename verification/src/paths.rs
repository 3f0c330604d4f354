//! File-system paths, as far as the transfer needs them: the name under
//! which a file is announced, and where a received file is placed.
//!
//! Both results come from `std::path` and depend on the platform's path
//! syntax; they are named here, not restated.

use vstd::prelude::*;

verus! {

/// The final component of `path` as `Path::file_name` gives it, as text;
/// `None` where the path has no final component (it ends in `..`, or is a
/// root or empty).
pub uninterp spec fn path_file_name(path: Seq<char>) -> Option<Seq<char>>;

/// The path that `PathBuf::push` makes of `base` and `name`.
pub uninterp spec fn path_joined(base: Seq<char>, name: Seq<char>) -> Seq<char>;

/// `Path::new(path).file_name()`, turned back into text (`OsStr::to_str`,
/// which cannot fail on a component of a path that was text). The contract
/// only names the result.
#[verifier::external_body]
pub(crate) fn file_name_of(path: &str) -> (res: Option<String>)
    ensures
        res is Some <==> path_file_name(path@) is Some,
        res matches Some(name) ==> name@ == path_file_name(path@).unwrap(),
{
    match std::path::Path::new(path).file_name() {
        Some(name) => name.to_str().map(String::from),
        None => None,
    }
}

/// `PathBuf::from(base)` with `name` pushed onto it (`PathBuf::push`), turned
/// back into text; a path built from text is text again, so no byte is
/// replaced. The contract only names the result.
#[verifier::external_body]
pub(crate) fn join_path(base: &str, name: &str) -> (res: String)
    ensures
        res@ == path_joined(base@, name@),
{
    let mut path = std::path::PathBuf::from(base);
    path.push(name);
    path.to_string_lossy().into_owned()
}

} // verus!
