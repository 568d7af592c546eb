//! The library path setting: its key in the settings table, the check made before it
//! is stored, and the errors of reading or storing it.
use vstd::prelude::*;
use vstd::std_specs::convert::FromSpecImpl;
use crate::text::push_str;

verus! {

/// Key of the library path in the settings table.
pub const LIBRARY_PATH_KEY: &'static str = "library_path";

/// `rusqlite::Error`, carried as an opaque value.
#[verifier::external_type_specification]
#[verifier::external_body]
pub struct ExSqliteError(rusqlite::Error);

/// Error of the library path operations: the path is not an existing directory, or
/// the database failed.
#[derive(Debug)]
pub enum LibraryError {
    InvalidPath(String),
    Db(rusqlite::Error),
}

impl From<rusqlite::Error> for LibraryError {
    fn from(e: rusqlite::Error) -> (r: Self) {
        LibraryError::Db(e)
    }
}

impl FromSpecImpl<rusqlite::Error> for LibraryError {
    open spec fn obeys_from_spec() -> bool {
        true
    }

    open spec fn from_spec(e: rusqlite::Error) -> LibraryError {
        LibraryError::Db(e)
    }
}

/// The text of a database error (its `Display`). Nothing is stated of the text.
#[verifier::external_body]
fn db_error_text(e: &rusqlite::Error) -> String {
    e.to_string()
}

pub open spec fn invalid_path_message(p: Seq<char>) -> Seq<char> {
    "图库目录不存在或不是目录："@ + p
}

pub open spec fn db_message(t: Seq<char>) -> Seq<char> {
    "数据库错误："@ + t
}

/// `m` is `数据库错误：` followed by some error text.
pub open spec fn is_db_message(m: Seq<char>) -> bool {
    exists|t: Seq<char>| m == #[trigger] db_message(t)
}

impl LibraryError {
    /// The text shown to the user: `图库目录不存在或不是目录：<path>` or `数据库错误：<error>`.
    pub fn message(&self) -> (r: String)
        ensures
            match self {
                LibraryError::InvalidPath(p) => r@ == invalid_path_message(p@),
                LibraryError::Db(_) => is_db_message(r@),
            },
    {
        let mut m = String::new();
        match self {
            LibraryError::InvalidPath(p) => {
                push_str(&mut m, "图库目录不存在或不是目录：");
                push_str(&mut m, p.as_str());
                assert(m@ =~= invalid_path_message(p@));
            },
            LibraryError::Db(e) => {
                push_str(&mut m, "数据库错误：");
                let t = db_error_text(e);
                push_str(&mut m, t.as_str());
                assert(is_db_message(m@)) by {
                    assert(m@ =~= db_message(t@));
                }
            },
        }
        m
    }
}

/// Accepts a library path before it is stored: only a path that names an existing
/// directory (`is_dir`, as read from the file system) is accepted, and it is
/// returned unchanged; any other path is refused with `InvalidPath`.
pub fn check_library_path(path: &str, is_dir: bool) -> (r: Result<String, LibraryError>)
    ensures
        is_dir ==> (r matches Ok(s) && s@ == path@),
        !is_dir ==> (r matches Err(LibraryError::InvalidPath(p)) && p@ == path@),
{
    if !is_dir {
        return Err(LibraryError::InvalidPath(path.to_owned()));
    }
    Ok(path.to_owned())
}

} // verus!
