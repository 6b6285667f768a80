//! The advisory lock that keeps two collectors off one database.
use vstd::prelude::*;

verus! {

broadcast use vstd::string::group_string_axioms;

/// The path of the database's advisory lock: the database path with
/// `.lock` appended.
pub fn lock_path(database_path: &str) -> (path: String)
    ensures
        path@ == database_path@ + ".lock"@,
{
    let mut path = database_path.to_owned();
    path.append(".lock");
    path
}

} // verus!
