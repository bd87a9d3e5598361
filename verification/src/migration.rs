//! What the database migrations compute.
use vstd::prelude::*;
use vstd::string::StringExecFns;

use crate::session::text_of;
use crate::text::{replace_all, replaced};

verus! {

/// A session row with every field that any version of the schema had.
pub struct SessionWithAllHistoricalFields {
    pub id: String,
    pub name: String,
    pub created_at: u64,
    pub file_name: Option<String>,
    pub file_path: Option<String>,
    pub modified_at: u64,
    pub content: Option<String>,
}

/// The file in which a session's notes were kept: its name with spaces
/// replaced by underscores, and the extension `.md`.
pub open spec fn session_file_name_of(name: Seq<char>) -> Seq<char> {
    replaced(name, " "@, "_"@) + ".md"@
}

/// The file in which a session's notes were kept.
pub fn session_file_name(name: &str) -> (r: String)
    ensures
        r@ == session_file_name_of(name@),
{
    proof {
        reveal_strlit(" ");
    }
    let mut file_name = replace_all(name, " ", "_");
    file_name.append(".md");
    file_name
}

/// The last component of a path as `std::path::Path::file_name` reads it,
/// or `None` where there is none (a path ending in `..`, or the root).
pub uninterp spec fn path_file_name_of(path: Seq<char>) -> Option<Seq<char>>;

/// Calls `std::path::Path::new(path).file_name()` and converts the name to a
/// `String` (a name taken from a `&str` is always valid UTF-8). The outcome
/// is named `path_file_name_of`.
#[verifier::external_body]
fn path_file_name(path: &str) -> (r: Option<String>)
    ensures
        r matches Some(n) ==> path_file_name_of(path@) == Some(n@),
        r is None ==> path_file_name_of(path@) is None,
{
    std::path::Path::new(path).file_name().and_then(|n| n.to_str()).map(|n| n.to_string())
}

/// The path that `std::path::Path::join` makes of a base path and a further
/// component.
pub uninterp spec fn path_joined(base: Seq<char>, component: Seq<char>) -> Seq<char>;

/// Calls `std::path::Path::new(base).join(component)` and converts the path
/// to a `String` (a path made of two `&str` is valid UTF-8, so nothing is
/// lost). The outcome is named `path_joined`.
#[verifier::external_body]
pub(crate) fn join_path(base: &str, component: &str) -> (r: String)
    ensures
        r@ == path_joined(base@, component@),
{
    std::path::Path::new(base).join(component).to_string_lossy().into_owned()
}

/// Where the notes of a session are drafted: the session's file in the
/// storage folder.
pub open spec fn draft_path_of(folder: Seq<char>, name: Seq<char>) -> Seq<char> {
    path_joined(folder, session_file_name_of(name))
}

/// Where the notes of the named session are drafted in the storage folder.
pub fn draft_path(folder: &str, name: &str) -> (r: String)
    ensures
        r@ == draft_path_of(folder@, name@),
{
    let file_name = session_file_name(name);
    join_path(folder, file_name.as_str())
}

/// The file name that a session row keeps once its file path is dropped:
/// the last component of the path, where the row has a path with one.
pub open spec fn file_name_for(file_path: Option<Seq<char>>) -> Option<Seq<char>> {
    match file_path {
        Some(p) => path_file_name_of(p),
        None => None,
    }
}

impl SessionWithAllHistoricalFields {
    /// The file name to keep for this row, taken from its file path; `None`
    /// where the row has no path or the path has no last component.
    pub fn file_name_from_path(&self) -> (r: Option<String>)
        ensures
            r matches Some(n) ==> file_name_for(text_of(self.file_path)) == Some(n@),
            r is None ==> file_name_for(text_of(self.file_path)) is None,
    {
        match &self.file_path {
            Some(p) => path_file_name(p.as_str()),
            None => None,
        }
    }
}

/// The notes stored for a session whose file could not be read.
pub open spec fn missing_notes(error: Seq<char>) -> Seq<char> {
    "No content found e: "@ + error
}

/// The notes to store for a session: the text read from its file, or a
/// notice with the error that the read gave.
pub fn session_notes_from_file(read: Result<String, String>) -> (r: String)
    ensures
        read matches Ok(t) ==> r@ == t@,
        read matches Err(e) ==> r@ == missing_notes(e@),
{
    match read {
        Ok(t) => t,
        Err(e) => {
            let mut r = String::from_str("No content found e: ");
            r.append(e.as_str());
            r
        },
    }
}

} // verus!
