//! What a listing of the database root says about the installed packages.
//!
//! Every directory in the root stands for one installed package and is named
//! after it. Files are passed over. The layout version file is expected among
//! them; any other file has no business there, but does no harm.

use vstd::prelude::*;
use crate::config::joined;
use crate::dirname::{lemma_split_injective, split_dirname};
use crate::error::ErrorView;
use crate::package::{KeyView, MaybePackageView};
use crate::version_file::LOCAL_DB_VERSION_FILE;

verus! {

/// One entry of the database root, as the caller's listing found it.
#[derive(Debug, Clone, PartialEq, Eq)]
pub enum Scanned {
    /// The entry could not be read or examined. The text describes the failure.
    Unreadable(String),
    /// Something that is not a directory, with its name.
    File(String),
    /// A directory, with its name.
    Directory(String),
}

/// A [`Scanned`] over sequences of characters.
pub enum ScannedView {
    Unreadable(Seq<char>),
    File(Seq<char>),
    Directory(Seq<char>),
}

impl View for Scanned {
    type V = ScannedView;

    open spec fn view(&self) -> ScannedView {
        match *self {
            Scanned::Unreadable(text) => ScannedView::Unreadable(text@),
            Scanned::File(name) => ScannedView::File(name@),
            Scanned::Directory(name) => ScannedView::Directory(name@),
        }
    }
}

impl Scanned {
    /// Whether the entry is a file that the database does not know: any file but
    /// the layout version file. Such a file is passed over like the version file,
    /// and is worth a warning.
    pub fn is_unexpected(&self) -> (unexpected: bool)
        ensures
            unexpected == match self@ {
                ScannedView::File(name) => name != LOCAL_DB_VERSION_FILE@,
                _ => false,
            },
    {
        match self {
            Scanned::File(name) => *name != LOCAL_DB_VERSION_FILE.to_owned(),
            _ => false,
        }
    }
}

/// The entries of a listing over sequences of characters.
pub open spec fn views(listing: Seq<Scanned>) -> Seq<ScannedView> {
    Seq::new(listing.len(), |i: int| listing[i]@)
}

/// A package that a listing has shown: where it lies and what it is.
pub struct Found {
    pub path: Seq<char>,
    pub name: Seq<char>,
    pub version: Seq<char>,
}

impl Found {
    /// The key of the package.
    pub open spec fn key(self) -> KeyView {
        KeyView { name: self.name, version: self.version }
    }

    /// The package as it enters the database: not read yet.
    pub open spec fn unread<P>(self) -> MaybePackageView<P> {
        MaybePackageView::Unloaded { path: self.path, name: self.name, version: self.version }
    }
}

/// The keys of the packages in `found`.
pub open spec fn found_keys(found: Seq<Found>) -> Seq<KeyView> {
    Seq::new(found.len(), |i: int| found[i].key())
}

/// What a listing comes to.
pub enum Scan {
    /// The listing cannot be used. The error is that of its first bad entry.
    Failed(ErrorView),
    /// A directory of the listing stands for a package that is on record already.
    Collision,
    /// The packages that the listing adds, in its order.
    Found(Seq<Found>),
}

/// What one more entry makes of the packages found so far.
///
/// An entry that could not be read fails the listing, and so does a directory
/// whose name is not that of a package. A file changes nothing. A directory adds
/// its package, unless the package is among `taken` or among those found.
pub open spec fn scan_entry(
    root: Seq<char>,
    taken: Seq<KeyView>,
    found: Seq<Found>,
    entry: ScannedView,
) -> Scan {
    match entry {
        ScannedView::Unreadable(text) => Scan::Failed(ErrorView::Io(text)),
        ScannedView::File(_) => Scan::Found(found),
        ScannedView::Directory(dirname) => match split_dirname(dirname) {
            None => Scan::Failed(ErrorView::InvalidLocalPackage(dirname)),
            Some((name, version)) => {
                let package = Found { path: joined(root, dirname), name, version };
                if taken.contains(package.key()) || found_keys(found).contains(package.key()) {
                    Scan::Collision
                } else {
                    Scan::Found(found.push(package))
                }
            },
        },
    }
}

/// What the listing of the directory `root` comes to, for a database that has
/// the packages `taken` on record. The entries are taken in order, and the first
/// one that fails or collides ends the scan.
pub open spec fn scan(root: Seq<char>, taken: Seq<KeyView>, listing: Seq<ScannedView>) -> Scan
    decreases listing.len(),
{
    if listing.len() == 0 {
        Scan::Found(Seq::empty())
    } else {
        match scan(root, taken, listing.drop_last()) {
            Scan::Found(found) => scan_entry(root, taken, found, listing.last()),
            ended => ended,
        }
    }
}

/// A scan that has ended within the first `n` entries has ended for the whole
/// listing, in the same way.
pub proof fn lemma_scan_ends(
    root: Seq<char>,
    taken: Seq<KeyView>,
    listing: Seq<ScannedView>,
    n: int,
)
    requires
        0 <= n <= listing.len(),
        !(scan(root, taken, listing.take(n)) is Found),
    ensures
        scan(root, taken, listing) == scan(root, taken, listing.take(n)),
    decreases listing.len() - n,
{
    if n == listing.len() {
        assert(listing.take(n) =~= listing);
    } else {
        assert(listing.take(n + 1).drop_last() =~= listing.take(n));
        lemma_scan_ends(root, taken, listing, n + 1);
    }
}

/// The packages that a scan finds have keys that differ from one another and
/// from those on record.
pub proof fn lemma_scan_finds_new_keys(
    root: Seq<char>,
    taken: Seq<KeyView>,
    listing: Seq<ScannedView>,
)
    ensures
        match scan(root, taken, listing) {
            Scan::Found(found) => {
                &&& forall|i: int, j: int|
                    0 <= i < j < found.len() ==> found[i].key() != found[j].key()
                &&& forall|i: int| 0 <= i < found.len() ==> !taken.contains(#[trigger] found[i].key())
            },
            _ => true,
        },
    decreases listing.len(),
{
    if listing.len() > 0 {
        lemma_scan_finds_new_keys(root, taken, listing.drop_last());
        match scan(root, taken, listing.drop_last()) {
            Scan::Found(before) => {
                match scan_entry(root, taken, before, listing.last()) {
                    Scan::Found(found) => {
                        if found.len() > before.len() {
                            let package = found.last();
                            assert(found =~= before.push(package));
                            assert forall|i: int, j: int| 0 <= i < j < found.len() implies found[i].key()
                                != found[j].key() by {
                                if j == before.len() {
                                    assert(found_keys(before)[i] == found[i].key());
                                }
                            }
                        }
                    },
                    _ => {},
                }
            },
            _ => {},
        }
    }
}

/// No two directories of the listing have the same name.
pub open spec fn directory_names_differ(listing: Seq<ScannedView>) -> bool {
    forall|i: int, j: int|
        0 <= i < j < listing.len() ==> match (#[trigger] listing[i], #[trigger] listing[j]) {
            (ScannedView::Directory(first), ScannedView::Directory(second)) => first != second,
            _ => true,
        }
}

/// Whether the entry is the directory of this package.
pub open spec fn is_directory_of(entry: ScannedView, package: Found) -> bool {
    match entry {
        ScannedView::Directory(dirname) => split_dirname(dirname) == Some(
            (package.name, package.version),
        ),
        _ => false,
    }
}

/// Every package that a scan finds in an empty database has its directory in
/// the listing.
proof fn lemma_found_has_directory(root: Seq<char>, listing: Seq<ScannedView>)
    ensures
        match scan(root, Seq::empty(), listing) {
            Scan::Found(found) => forall|k: int|
                0 <= k < found.len() ==> exists|i: int|
                    0 <= i < listing.len() && is_directory_of(
                        #[trigger] listing[i],
                        #[trigger] found[k],
                    ),
            _ => true,
        },
    decreases listing.len(),
{
    if listing.len() > 0 {
        let head = listing.drop_last();
        lemma_found_has_directory(root, head);
        match (scan(root, Seq::empty(), head), scan(root, Seq::empty(), listing)) {
            (Scan::Found(before), Scan::Found(found)) => {
                assert forall|k: int| 0 <= k < found.len() implies exists|i: int|
                    0 <= i < listing.len() && is_directory_of(
                        #[trigger] listing[i],
                        #[trigger] found[k],
                    ) by {
                    if k < before.len() {
                        assert(found[k] == before[k]);
                        let i = choose|i: int|
                            0 <= i < head.len() && is_directory_of(
                                #[trigger] head[i],
                                #[trigger] before[k],
                            );
                        assert(listing[i] == head[i]);
                    } else {
                        assert(is_directory_of(listing[listing.len() - 1], found[k]));
                    }
                }
            },
            _ => {},
        }
    }
}

/// The names in a directory differ from one another, so the listing of a
/// directory never collides when it is put into an empty database.
pub proof fn law_directory_listing_never_collides(root: Seq<char>, listing: Seq<ScannedView>)
    requires
        directory_names_differ(listing),
    ensures
        !(scan(root, Seq::empty(), listing) is Collision),
    decreases listing.len(),
{
    if listing.len() > 0 {
        let head = listing.drop_last();
        let taken = Seq::<KeyView>::empty();
        assert(directory_names_differ(head)) by {
            assert forall|i: int, j: int| 0 <= i < j < head.len() implies match (
                #[trigger] head[i],
                #[trigger] head[j],
            ) {
                (ScannedView::Directory(first), ScannedView::Directory(second)) => first != second,
                _ => true,
            } by {
                assert(head[i] == listing[i] && head[j] == listing[j]);
            }
        }
        law_directory_listing_never_collides(root, head);
        lemma_found_has_directory(root, head);
        match (scan(root, taken, head), listing.last()) {
            (Scan::Found(found), ScannedView::Directory(dirname)) => {
                match split_dirname(dirname) {
                    Some((name, version)) => {
                        let key = KeyView { name, version };
                        if found_keys(found).contains(key) {
                            let k = choose|k: int|
                                0 <= k < found_keys(found).len() && found_keys(found)[k] == key;
                            let i = choose|i: int|
                                0 <= i < head.len() && is_directory_of(
                                    #[trigger] head[i],
                                    #[trigger] found[k],
                                );
                            assert(head[i] == listing[i]);
                            let earlier = head[i]->Directory_0;
                            lemma_split_injective(earlier, dirname);
                            assert(listing[listing.len() - 1] == listing.last());
                            assert(false);
                        }
                    },
                    None => {},
                }
            },
            _ => {},
        }
    }
}

} // verus!
