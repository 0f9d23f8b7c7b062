//! The settings that a database is opened with.

use vstd::prelude::*;
use vstd::string::*;

verus! {

/// How strictly signatures are asked for before a package is accepted.
#[derive(Debug, Clone, Copy, PartialEq, Eq, Structural)]
pub enum SignatureLevel {
    /// Signatures are not looked at.
    Never,
    /// A signature is checked where there is one.
    Optional,
    /// A package without a valid signature is refused.
    Required,
}

/// The operations that a database takes part in.
#[derive(Debug, Clone, Copy, PartialEq, Eq, Structural)]
pub struct DbUsage {
    /// The database is refreshed from its servers.
    pub sync: bool,
    /// The database is searched.
    pub search: bool,
    /// Packages are installed from the database.
    pub install: bool,
    /// Packages are upgraded from the database.
    pub upgrade: bool,
}

impl DbUsage {
    /// A database that takes part in every operation.
    pub open spec fn all() -> DbUsage {
        DbUsage { sync: true, search: true, install: true, upgrade: true }
    }
}

impl Default for DbUsage {
    /// A database takes part in every operation unless it is told otherwise.
    fn default() -> (usage: DbUsage)
        ensures
            usage == DbUsage::all(),
    {
        DbUsage { sync: true, search: true, install: true, upgrade: true }
    }
}

/// The settings of one session of the package manager. The databases of the
/// session are opened from it, and packages are read with it.
#[derive(Debug, Clone, PartialEq, Eq)]
pub struct Handle {
    /// The root of the installation.
    pub root_path: String,
    /// The directory that holds the databases.
    pub database_path: String,
    /// The signature level of databases that set none of their own.
    pub sig_level: SignatureLevel,
}

/// The path of the entry `name` in the directory `base`: the two parted by one
/// slash, which is left out where `base` is empty or ends in a slash already.
pub open spec fn joined(base: Seq<char>, name: Seq<char>) -> Seq<char> {
    if base.len() == 0 || base.last() == '/' {
        base + name
    } else {
        base + seq!['/'] + name
    }
}

/// Builds the path of the entry `name` in the directory `base`.
pub fn join_path(base: &str, name: &str) -> (path: String)
    ensures
        path@ == joined(base@, name@),
{
    let length = base.unicode_len();
    let mut path = base.to_owned();
    if length > 0 && base.get_char(length - 1) != '/' {
        proof {
            reveal_strlit("/");
        }
        path.append("/");
        assert("/"@ =~= seq!['/']);
    }
    path.append(name);
    path
}

} // verus!
