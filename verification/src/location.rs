//! Where the store is kept on disk, and what setting it up takes.

use crate::paths::{join, joined};
use vstd::prelude::*;

verus! {

/// The folder that holds the file of the store, and the file.
#[derive(Debug)]
pub struct Location {
    pub dir: String,
    pub file: String,
}

/// The folder of the store below a home directory.
pub open spec fn dir_under(home: Seq<char>) -> Seq<char> {
    joined(home, ".config/folder_finder"@)
}

/// The file of the store below a home directory.
pub open spec fn file_under(home: Seq<char>) -> Seq<char> {
    joined(dir_under(home), "db.sqlite"@)
}

/// The name of the file that keeps a store that was set aside on `date`.
pub open spec fn backup_name(date: Seq<char>) -> Seq<char> {
    "db_"@ + date + ".sqlite.bak"@
}

/// Asks `dirs::home_dir` for the user's home directory, which it takes from
/// the environment or the user database. Nothing is claimed of the answer;
/// it is `None` too where the path is not valid Unicode.
#[verifier::external_body]
fn home_dir() -> (r: Option<String>) {
    dirs::home_dir()?.into_os_string().into_string().ok()
}

impl Location {
    /// The place of the store below a home directory.
    pub fn under(home: &str) -> (r: Location)
        ensures
            r.dir@ == dir_under(home@),
            r.file@ == file_under(home@),
    {
        let dir = join(home, ".config/folder_finder");
        let file = join(dir.as_str(), "db.sqlite");
        Location { dir, file }
    }

    /// The place of the store below the user's home directory, where that
    /// is known.
    pub fn default_location() -> (r: Option<Location>)
        ensures
            r matches Some(l) ==> exists|home: Seq<char>|
                l.dir@ == dir_under(home) && l.file@ == file_under(home),
    {
        Location::of_home(home_dir())
    }

    /// The place of the store for a home directory that may be unknown:
    /// below the home directory where there is one, none where there is
    /// none.
    pub fn of_home(home: Option<String>) -> (r: Option<Location>)
        ensures
            match home {
                Some(h) => r matches Some(l) && l.dir@ == dir_under(h@) && l.file@ == file_under(
                    h@,
                ),
                None => r is None,
            },
    {
        match home {
            Some(h) => Some(Location::under(h.as_str())),
            None => None,
        }
    }

    /// The path of the file that keeps a store set aside on `date`, beside
    /// the file of the store.
    pub fn backup(&self, date: &str) -> (r: String)
        ensures
            r@ == joined(self.dir@, backup_name(date@)),
    {
        let mut name = String::from_str("db_");
        name.append(date);
        name.append(".sqlite.bak");
        join(self.dir.as_str(), name.as_str())
    }
}

/// What setting up the store takes.
#[derive(Debug)]
pub struct Setup {
    /// The folder of the store has to be made.
    pub create_dir: bool,
    /// The file of the store has to be moved to this path first.
    pub backup: Option<String>,
    /// A new, empty store has to be made.
    pub create: bool,
}

} // verus!
