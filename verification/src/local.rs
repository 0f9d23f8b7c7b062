//! The database of installed packages.

use std::rc::Rc;
use vstd::prelude::*;
use vstd::std_specs::convert::FromSpec;
use crate::config::{join_path, joined, DbUsage, Handle, SignatureLevel};
use crate::dirname::split_package_dirname;
use crate::error::{Error, ErrorView};
use crate::package::{
    law_load_is_remembered, KeyView, MaybePackage, MaybePackageView, PackageKey,
};
use crate::scan::{
    found_keys, lemma_scan_ends, lemma_scan_finds_new_keys, scan, views, Found, Scan, Scanned,
    ScannedView,
};
use crate::status::{next_step, status_step, StatusProbe, StatusStep};
use crate::text::{
    chars_before, chars_of, lemma_before_asymmetric, lemma_before_irreflexive, lemma_before_total,
    lemma_not_after_transitive, text_before,
};

verus! {

/// The name of the local database, and of its directory inside the database path.
pub const LOCAL_DB_NAME: &'static str = "local";

/// One package of the database under its key.
#[derive(Debug)]
pub struct Slot<P> {
    pub key: PackageKey,
    pub package: MaybePackage<P>,
}

/// A [`Slot`] over sequences of characters.
pub struct SlotView<P> {
    pub key: KeyView,
    pub package: MaybePackageView<P>,
}

impl<P> View for Slot<P> {
    type V = SlotView<P>;

    open spec fn view(&self) -> SlotView<P> {
        SlotView { key: self.key@, package: self.package@ }
    }
}

/// No two slots have the same key.
pub open spec fn keys_distinct<P>(slots: Seq<Slot<P>>) -> bool {
    forall|i: int, j: int| 0 <= i < j < slots.len() ==> slots[i].key@ != slots[j].key@
}

/// A package that has not been read yet is named as its key says.
pub open spec fn slot_agrees<P>(slot: Slot<P>) -> bool {
    match slot.package@ {
        MaybePackageView::Unloaded { name, version, .. } => slot.key@ == (KeyView { name, version }),
        MaybePackageView::Loaded(_) => true,
    }
}

/// The slots `after` are the slots `before`, but for the package in slot `at`,
/// which went through a load that gave `result`.
pub open spec fn loaded_at<P, B>(
    before: Seq<Slot<P>>,
    after: Seq<Slot<P>>,
    at: int,
    result: Result<Rc<P>, Error>,
    handle: &Handle,
    build: &B,
) -> bool where B: Fn(String, &String, &String, &Handle) -> Result<P, Error> {
    &&& 0 <= at < before.len()
    &&& after.len() == before.len()
    &&& forall|j: int| 0 <= j < before.len() && j != at ==> after[j] == before[j]
    &&& after[at].key == before[at].key
    &&& before[at].package.loads_to(after[at].package, result, handle, build)
}

/// Slot `at` holds the latest version of the package `name` among the first
/// `upto` slots: it holds the package, and no version of it there comes after.
pub open spec fn is_latest_among<P>(slots: Seq<Slot<P>>, name: Seq<char>, at: int, upto: int) -> bool {
    &&& 0 <= at < upto <= slots.len()
    &&& slots[at].key@.name == name
    &&& forall|j: int|
        0 <= j < upto && (#[trigger] slots[j]).key@.name == name ==> !text_before(
            slots[at].key@.version,
            slots[j].key@.version,
        )
}

/// Slot `at` holds the latest version of the package `name`.
pub open spec fn is_latest<P>(slots: Seq<Slot<P>>, name: Seq<char>, at: int) -> bool {
    is_latest_among(slots, name, at, slots.len() as int)
}

/// Where no key occurs twice, at most one slot holds the latest version of a
/// package.
pub proof fn law_latest_is_unique<P>(slots: Seq<Slot<P>>, name: Seq<char>, first: int, second: int)
    requires
        keys_distinct(slots),
        is_latest(slots, name, first),
        is_latest(slots, name, second),
    ensures
        first == second,
{
    lemma_before_total(slots[first].key@.version, slots[second].key@.version);
}

/// The package in `before` was read, which left it as `after`, and was shown to
/// the visitor `visit`, which accepted it.
pub open spec fn visited<P, E, F, B>(
    before: Slot<P>,
    after: Slot<P>,
    handle: &Handle,
    build: &B,
    visit: F,
) -> bool where
    F: FnMut(Rc<P>) -> Result<(), E>,
    B: Fn(String, &String, &String, &Handle) -> Result<P, Error>,
 {
    &&& after.key == before.key
    &&& exists|package: Rc<P>| #[trigger]
        before.package.loads_to(after.package, Ok(package), handle, build) && visit.ensures(
            (package,),
            Ok(()),
        )
}

/// The walk ended at the package in `before`, which it left as `after`, with the
/// failure `failure`: either the package could not be read, or it was read and
/// the visitor `visit` refused it.
pub open spec fn stopped<P, E, F, B>(
    before: Slot<P>,
    after: Slot<P>,
    failure: E,
    handle: &Handle,
    build: &B,
    visit: F,
) -> bool where
    E: From<Error>,
    F: FnMut(Rc<P>) -> Result<(), E>,
    B: Fn(String, &String, &String, &Handle) -> Result<P, Error>,
 {
    &&& after.key == before.key
    &&& {
        ||| exists|error: Error| #[trigger]
            before.package.loads_to(after.package, Err(error), handle, build) && (
            E::obeys_from_spec() ==> failure == E::from_spec(error))
        ||| exists|package: Rc<P>| #[trigger]
            before.package.loads_to(after.package, Ok(package), handle, build) && visit.ensures(
                (package,),
                Err(failure),
            )
    }
}

/// A walk over the slots `before` got through the first `done` of them, left the
/// slots as `after` and ended with `result`.
///
/// Each of the first `done` packages was read and shown to the visitor once, in
/// order. If that is all of them the walk succeeded. Otherwise it stopped at the
/// next package, and the packages behind that one were neither read nor shown.
pub open spec fn walked<P, E, F, B>(
    before: Seq<Slot<P>>,
    after: Seq<Slot<P>>,
    done: int,
    result: Result<(), E>,
    handle: &Handle,
    build: &B,
    visit: F,
) -> bool where
    E: From<Error>,
    F: FnMut(Rc<P>) -> Result<(), E>,
    B: Fn(String, &String, &String, &Handle) -> Result<P, Error>,
 {
    &&& 0 <= done <= before.len()
    &&& after.len() == before.len()
    &&& forall|j: int|
        0 <= j < done ==> visited::<P, E, F, B>(before[j], #[trigger] after[j], handle, build, visit)
    &&& forall|j: int| done < j < before.len() ==> #[trigger] after[j] == before[j]
    &&& match result {
        Ok(_) => done == before.len(),
        Err(failure) => done < before.len() && stopped(
            before[done],
            after[done],
            failure,
            handle,
            build,
            visit,
        ),
    }
}

/// A package is looked up twice. The first lookup found it in slot `at` and
/// handed out `package`. Then the second lookup hands out `package` again and
/// changes nothing, whatever reader it is given: the package is read once.
pub proof fn law_lookup_is_remembered<P, B, C>(
    before: Seq<Slot<P>>,
    between: Seq<Slot<P>>,
    after: Seq<Slot<P>>,
    at: int,
    package: Rc<P>,
    result: Result<Rc<P>, Error>,
    handle: &Handle,
    build: &B,
    later_handle: &Handle,
    later_build: &C,
) where
    B: Fn(String, &String, &String, &Handle) -> Result<P, Error>,
    C: Fn(String, &String, &String, &Handle) -> Result<P, Error>,

    requires
        loaded_at(before, between, at, Ok(package), handle, build),
        loaded_at(between, after, at, result, later_handle, later_build),
    ensures
        after == between,
        result == Ok::<Rc<P>, Error>(package),
{
    law_load_is_remembered(
        before[at].package,
        between[at].package,
        package,
        handle,
        build,
        after[at].package,
        result,
        later_handle,
        later_build,
    );
    assert(after =~= between);
}

/// The keys of the slots, in their order.
pub open spec fn keys<P>(slots: Seq<Slot<P>>) -> Seq<KeyView> {
    Seq::new(slots.len(), |i: int| slots[i].key@)
}

/// The slots `added` hold the packages `found`, in the same order, each under
/// its key and not read yet.
pub open spec fn holds_found<P>(added: Seq<Slot<P>>, found: Seq<Found>) -> bool {
    &&& added.len() == found.len()
    &&& forall|i: int|
        0 <= i < found.len() ==> (#[trigger] added[i])@ == (SlotView::<P> {
            key: found[i].key(),
            package: found[i].unread(),
        })
}

/// What reading a listing gave.
enum Scanning<P> {
    Failed(Error),
    Collision,
    Found(Vec<Slot<P>>),
}

/// The place of the slot with this key, if there is one.
fn find_key<P>(slots: &Vec<Slot<P>>, name: &String, version: &String) -> (found: Option<usize>)
    ensures
        match found {
            Some(at) => at < slots.len() && slots[at as int].key@ == (KeyView {
                name: name@,
                version: version@,
            }),
            None => {
                &&& !keys(slots@).contains(KeyView { name: name@, version: version@ })
                &&& forall|i: int|
                    0 <= i < slots.len() ==> (#[trigger] slots[i]).key@ != (KeyView {
                        name: name@,
                        version: version@,
                    })
            },
        },
{
    let mut i: usize = 0;
    while i < slots.len()
        invariant
            i <= slots.len(),
            forall|k: int|
                0 <= k < i ==> (#[trigger] slots[k]).key@ != (KeyView {
                    name: name@,
                    version: version@,
                }),
        decreases slots.len() - i,
    {
        if slots[i].key.is(name, version) {
            return Some(i);
        }
        i = i + 1;
    }
    assert forall|k: int| 0 <= k < keys(slots@).len() implies keys(slots@)[k] != (KeyView {
        name: name@,
        version: version@,
    }) by {
        assert(keys(slots@)[k] == slots[k].key@);
    }
    None
}

/// The database of installed packages: a cache of the packages found in the
/// database root, each read from disk when it is first asked for.
#[derive(Debug)]
pub struct LocalDatabaseInner<P> {
    /// The level of signature verification required to accept packages.
    sig_level: SignatureLevel,
    /// Which operations this database is used for.
    usage: DbUsage,
    /// The root directory of the database.
    path: String,
    /// The packages, in the order in which they were found.
    package_cache: Vec<Slot<P>>,
    /// The number of packages.
    package_count: usize,
}

impl<P> LocalDatabaseInner<P> {
    /// The slots of the database, in the order in which they were found.
    pub closed spec fn slots(&self) -> Seq<Slot<P>> {
        self.package_cache@
    }

    /// The root directory of the database.
    pub closed spec fn root(&self) -> Seq<char> {
        self.path@
    }

    /// The number of packages that the database has on record.
    pub closed spec fn recorded_count(&self) -> nat {
        self.package_count as nat
    }

    /// The signature level that packages are held to.
    pub closed spec fn signature_level(&self) -> SignatureLevel {
        self.sig_level
    }

    /// The operations that the database takes part in.
    pub closed spec fn usage(&self) -> DbUsage {
        self.usage
    }

    /// What holds of every database: the count is the number of slots, no key
    /// occurs twice, and every unread package is named as its key says.
    pub open spec fn wf(&self) -> bool {
        &&& self.recorded_count() == self.slots().len()
        &&& keys_distinct(self.slots())
        &&& forall|i: int| 0 <= i < self.slots().len() ==> slot_agrees(#[trigger] self.slots()[i])
    }

    /// Whether `other` has the root and the settings of this database.
    pub open spec fn same_settings(&self, other: &Self) -> bool {
        &&& self.root() == other.root()
        &&& self.signature_level() == other.signature_level()
        &&& self.usage() == other.usage()
    }

    /// Whether `build` accepts every package that is still to be read.
    pub open spec fn can_load_all<B>(&self, handle: &Handle, build: &B) -> bool where
        B: Fn(String, &String, &String, &Handle) -> Result<P, Error>,
     {
        forall|i: int|
            0 <= i < self.slots().len() ==> (#[trigger] self.slots()[i]).package.can_load(
                handle,
                build,
            )
    }

    /// An empty database in the directory `local` of the handle's database path.
    pub fn new(handle: &Handle, sig_level: SignatureLevel) -> (db: LocalDatabaseInner<P>)
        ensures
            db.wf(),
            db.slots() == Seq::<Slot<P>>::empty(),
            db.root() == joined(handle.database_path@, LOCAL_DB_NAME@),
            db.signature_level() == sig_level,
            db.usage() == DbUsage::all(),
    {
        let path = join_path(handle.database_path.as_str(), LOCAL_DB_NAME);
        LocalDatabaseInner {
            sig_level,
            usage: DbUsage::default(),
            path,
            package_cache: Vec::new(),
            package_count: 0,
        }
    }

    /// The root directory of the database.
    pub fn path(&self) -> (path: String)
        ensures
            path@ == self.root(),
    {
        self.path.clone()
    }

    /// The number of packages in the database.
    pub fn count(&self) -> (count: usize)
        requires
            self.wf(),
        ensures
            count == self.slots().len(),
    {
        self.package_count
    }

    /// Says what to do next in a check of the database's structure, or how the
    /// check ended. The packages are not looked at.
    pub fn status(&self, probe: &StatusProbe) -> (step: StatusStep)
        ensures
            step@ == status_step(probe@),
    {
        next_step(probe)
    }

    /// Reads the package in slot `at` if it has not been read yet, and hands it out.
    fn load_at<B>(&mut self, at: usize, handle: &Handle, build: &B) -> (result: Result<
        Rc<P>,
        Error,
    >) where B: Fn(String, &String, &String, &Handle) -> Result<P, Error>
        requires
            old(self).wf(),
            at < old(self).slots().len(),
            old(self).slots()[at as int].package.can_load(handle, build),
        ensures
            final(self).wf(),
            final(self).same_settings(old(self)),
            loaded_at(old(self).slots(), final(self).slots(), at as int, result, handle, build),
    {
        let result = self.package_cache[at].package.load(handle, build);
        result
    }

    /// Gets the package `name` in version `version`, reading it with `build` if
    /// it has not been read yet.
    ///
    /// Fails with [`Error::InvalidLocalPackage`] if the database has no such
    /// package, and with what `build` gave if reading it failed.
    pub fn package<B>(&mut self, name: &str, version: &str, handle: &Handle, build: &B) -> (result:
        Result<Rc<P>, Error>) where B: Fn(String, &String, &String, &Handle) -> Result<P, Error>
        requires
            old(self).wf(),
            old(self).can_load_all(handle, build),
        ensures
            final(self).wf(),
            final(self).same_settings(old(self)),
            (forall|i: int|
                0 <= i < old(self).slots().len() ==> (#[trigger] old(self).slots()[i]).key@ != (
                KeyView { name: name@, version: version@ })) ==> {
                &&& final(self).slots() == old(self).slots()
                &&& result matches Err(error)
                &&& error@ == ErrorView::InvalidLocalPackage(name@)
            },
            forall|i: int|
                0 <= i < old(self).slots().len() && (#[trigger] old(self).slots()[i]).key@ == (
                KeyView { name: name@, version: version@ }) ==> loaded_at(
                    old(self).slots(),
                    final(self).slots(),
                    i,
                    result,
                    handle,
                    build,
                ),
    {
        let wanted_name = name.to_owned();
        let wanted_version = version.to_owned();
        match find_key(&self.package_cache, &wanted_name, &wanted_version) {
            Some(at) => self.load_at(at, handle, build),
            None => Err(Error::InvalidLocalPackage(wanted_name)),
        }
    }
    /// Gets the latest version of the package `name`, reading it with `build` if
    /// it has not been read yet. Every slot is looked at.
    ///
    /// Fails with [`Error::InvalidLocalPackage`] if the database has no package of
    /// that name, and with what `build` gave if reading the package failed.
    pub fn package_latest<B>(&mut self, name: &str, handle: &Handle, build: &B) -> (result: Result<
        Rc<P>,
        Error,
    >) where B: Fn(String, &String, &String, &Handle) -> Result<P, Error>
        requires
            old(self).wf(),
            old(self).can_load_all(handle, build),
        ensures
            final(self).wf(),
            final(self).same_settings(old(self)),
            (forall|i: int|
                0 <= i < old(self).slots().len() ==> (#[trigger] old(self).slots()[i]).key@.name
                    != name@) ==> {
                &&& final(self).slots() == old(self).slots()
                &&& result matches Err(error)
                &&& error@ == ErrorView::InvalidLocalPackage(name@)
            },
            (exists|i: int|
                0 <= i < old(self).slots().len() && (#[trigger] old(self).slots()[i]).key@.name
                    == name@) ==> exists|at: int|
                is_latest(old(self).slots(), name@, at) && #[trigger] loaded_at(
                    old(self).slots(),
                    final(self).slots(),
                    at,
                    result,
                    handle,
                    build,
                ),
    {
        let wanted = name.to_owned();
        let mut best: Option<usize> = None;
        let mut best_version: Vec<char> = Vec::new();
        let mut i: usize = 0;
        while i < self.package_cache.len()
            invariant
                i <= self.package_cache.len(),
                wanted@ == name@,
                match best {
                    Some(at) => is_latest_among(self.slots(), name@, at as int, i as int)
                        && best_version@ == self.slots()[at as int].key@.version,
                    None => forall|k: int|
                        0 <= k < i ==> (#[trigger] self.slots()[k]).key@.name != name@,
                },
            decreases self.package_cache.len() - i,
        {
            if self.package_cache[i].key.name == wanted {
                let version = chars_of(self.package_cache[i].key.version.as_str());
                let later = match best {
                    Some(_) => !chars_before(&version, &best_version),
                    None => true,
                };
                proof {
                    let slots = self.slots();
                    lemma_before_irreflexive(version@);
                    match best {
                        Some(at) => {
                            if later {
                                assert forall|j: int|
                                    0 <= j < i && (#[trigger] slots[j]).key@.name
                                        == name@ implies !text_before(
                                    version@,
                                    slots[j].key@.version,
                                ) by {
                                    lemma_not_after_transitive(
                                        slots[j].key@.version,
                                        best_version@,
                                        version@,
                                    );
                                }
                            } else {
                                lemma_before_asymmetric(version@, best_version@);
                            }
                        },
                        None => {},
                    }
                }
                if later {
                    best = Some(i);
                    best_version = version;
                }
            }
            i = i + 1;
        }
        match best {
            Some(at) => {
                let result = self.load_at(at, handle, build);
                assert(is_latest(old(self).slots(), name@, at as int));
                result
            },
            None => Err(Error::InvalidLocalPackage(wanted)),
        }
    }

    /// Shows every package of the database to `visit`, in the order of the slots,
    /// reading each with `build` if it has not been read yet.
    ///
    /// The walk ends at the first package that cannot be read or that `visit`
    /// refuses, with that failure. The packages behind it are left alone.
    pub fn packages<E, F, B>(&mut self, handle: &Handle, build: &B, visit: F) -> (result:
        Result<(), E>) where
        E: From<Error>,
        F: FnMut(Rc<P>) -> Result<(), E>,
        B: Fn(String, &String, &String, &Handle) -> Result<P, Error>,

        requires
            old(self).wf(),
            old(self).can_load_all(handle, build),
            forall|package: Rc<P>| visit.requires((package,)),
        ensures
            final(self).wf(),
            final(self).same_settings(old(self)),
            exists|done: int| #[trigger]
                walked(old(self).slots(), final(self).slots(), done, result, handle, build, visit),
    {
        let ghost before = self.slots();
        let mut visitor = visit;
        let mut i: usize = 0;
        while i < self.package_cache.len()
            invariant
                self.wf(),
                self.same_settings(old(self)),
                before == old(self).slots(),
                visitor == visit,
                old(self).can_load_all(handle, build),
                forall|package: Rc<P>| visit.requires((package,)),
                self.slots().len() == before.len(),
                i <= before.len(),
                forall|j: int|
                    0 <= j < i ==> visited::<P, E, F, B>(
                        before[j],
                        #[trigger] self.slots()[j],
                        handle,
                        build,
                        visit,
                    ),
                forall|j: int| i <= j < before.len() ==> #[trigger] self.slots()[j] == before[j],
            decreases before.len() - i,
        {
            let ghost middle = self.slots();
            let loaded = self.load_at(i, handle, build);
            let verdict = match loaded {
                Ok(package) => visitor(package),
                Err(error) => Err(E::from(error)),
            };
            match verdict {
                Ok(unit) => {
                    proof {
                        assert(unit == ());
                        assert forall|j: int| 0 <= j < i implies visited::<P, E, F, B>(
                            before[j],
                            #[trigger] self.slots()[j],
                            handle,
                            build,
                            visit,
                        ) by {
                            assert(self.slots()[j] == middle[j]);
                        }
                    }
                },
                Err(failure) => {
                    assert(walked(
                        before,
                        self.slots(),
                        i as int,
                        Err::<(), E>(failure),
                        handle,
                        build,
                        visit,
                    ));
                    return Err(failure);
                },
            }
            i = i + 1;
        }
        assert(walked(before, self.slots(), i as int, Ok::<(), E>(()), handle, build, visit));
        Ok(())
    }
    /// Reads a listing of the database root without changing the database.
    fn scan_listing(&self, listing: &Vec<Scanned>) -> (outcome: Scanning<P>)
        ensures
            match scan(self.root(), keys(self.slots()), views(listing@)) {
                Scan::Failed(error) => outcome matches Scanning::Failed(failure) && failure@
                    == error,
                Scan::Collision => outcome is Collision,
                Scan::Found(found) => outcome matches Scanning::Found(added) && holds_found(
                    added@,
                    found,
                ),
            },
    {
        let ghost root = self.root();
        let ghost taken = keys(self.slots());
        let ghost entries = views(listing@);
        let ghost mut found: Seq<Found> = Seq::empty();
        let mut added: Vec<Slot<P>> = Vec::new();
        let mut i: usize = 0;
        assert(entries.take(0) =~= Seq::<ScannedView>::empty());
        while i < listing.len()
            invariant
                i <= listing.len(),
                root == self.root(),
                taken == keys(self.slots()),
                entries == views(listing@),
                scan(root, taken, entries.take(i as int)) == Scan::Found(found),
                holds_found(added@, found),
            decreases listing.len() - i,
        {
            proof {
                assert(entries.take(i + 1).drop_last() =~= entries.take(i as int));
                assert(entries.take(i + 1).last() == listing@[i as int]@);
            }
            match &listing[i] {
                Scanned::Unreadable(text) => {
                    proof {
                        lemma_scan_ends(root, taken, entries, i + 1);
                    }
                    return Scanning::Failed(Error::Io(text.clone()));
                },
                Scanned::File(_) => {},
                Scanned::Directory(dirname) => {
                    match split_package_dirname(dirname.as_str()) {
                        None => {
                            proof {
                                lemma_scan_ends(root, taken, entries, i + 1);
                            }
                            return Scanning::Failed(Error::InvalidLocalPackage(dirname.clone()));
                        },
                        Some((name, version)) => {
                            let ghost package = Found {
                                path: joined(root, dirname@),
                                name: name@,
                                version: version@,
                            };
                            let on_record = find_key(&self.package_cache, &name, &version);
                            let seen = find_key(&added, &name, &version);
                            proof {
                                assert(keys(added@) =~= found_keys(found));
                                if on_record is Some {
                                    let at = on_record->0 as int;
                                    assert(taken[at] == package.key());
                                }
                                if seen is Some {
                                    let at = seen->0 as int;
                                    assert(keys(added@)[at] == package.key());
                                }
                            }
                            if on_record.is_some() || seen.is_some() {
                                proof {
                                    lemma_scan_ends(root, taken, entries, i + 1);
                                }
                                return Scanning::Collision;
                            }
                            let path = join_path(self.path.as_str(), dirname.as_str());
                            let key = PackageKey::from_owned(name.clone(), version.clone());
                            added.push(Slot { key, package: MaybePackage::new(path, name, version) });
                            proof {
                                found = found.push(package);
                            }
                        },
                    }
                },
            }
            i = i + 1;
        }
        assert(entries.take(i as int) =~= entries);
        Scanning::Found(added)
    }

    /// Whether a directory of the listing stands for a package that is on record
    /// by the time the scan comes to it: in the database already, or from an
    /// earlier directory of the listing.
    pub fn collides(&self, listing: &Vec<Scanned>) -> (collision: bool)
        ensures
            collision == (scan(self.root(), keys(self.slots()), views(listing@)) is Collision),
    {
        match self.scan_listing(listing) {
            Scanning::Collision => true,
            _ => false,
        }
    }

    /// Puts the packages of a listing of the database root on record, none of
    /// them read yet.
    ///
    /// The listing is taken whole or not at all. It fails on its first entry that
    /// could not be read, with that failure, and on its first directory that is
    /// not named like a package, with [`Error::InvalidLocalPackage`] and the
    /// directory's name; the database is then as it was.
    ///
    /// The names in a directory differ, so no package is found twice. A listing
    /// in which one is, or one that finds a package that is on record, is not a
    /// listing of this database's root: see [`collides`](Self::collides).
    pub fn populate_package_cache(&mut self, listing: &Vec<Scanned>) -> (result: Result<(), Error>)
        requires
            old(self).wf(),
            !(scan(old(self).root(), keys(old(self).slots()), views(listing@)) is Collision),
        ensures
            final(self).wf(),
            final(self).same_settings(old(self)),
            match scan(old(self).root(), keys(old(self).slots()), views(listing@)) {
                Scan::Failed(error) => {
                    &&& result matches Err(failure)
                    &&& failure@ == error
                    &&& final(self).slots() == old(self).slots()
                },
                Scan::Found(found) => {
                    &&& result is Ok
                    &&& final(self).slots().take(old(self).slots().len() as int) == old(
                        self,
                    ).slots()
                    &&& holds_found(final(self).slots().skip(old(self).slots().len() as int), found)
                },
                Scan::Collision => true,
            },
    {
        match self.scan_listing(listing) {
            Scanning::Failed(failure) => Err(failure),
            Scanning::Collision => {
                assert(false);
                Ok(())
            },
            Scanning::Found(added) => {
                let mut added = added;
                let ghost before = self.slots();
                let ghost fresh = added@;
                proof {
                    lemma_scan_finds_new_keys(self.root(), keys(before), views(listing@));
                }
                self.package_cache.append(&mut added);
                self.package_count = self.package_cache.len();
                proof {
                    let after = self.slots();
                    assert(after =~= before + fresh);
                    assert(after.take(before.len() as int) =~= before);
                    assert(after.skip(before.len() as int) =~= fresh);
                    let found = scan(old(self).root(), keys(before), views(listing@))->Found_0;
                    assert forall|i: int, j: int| 0 <= i < j < after.len() implies after[i].key@
                        != after[j].key@ by {
                        if j >= before.len() {
                            let fj = j - before.len();
                            assert(fresh[fj]@.key == found[fj].key());
                            if i >= before.len() {
                                let fi = i - before.len();
                                assert(fresh[fi]@.key == found[fi].key());
                            } else {
                                assert(keys(before)[i] == before[i].key@);
                                assert(!keys(before).contains(found[fj].key()));
                            }
                        }
                    }
                    assert forall|i: int| 0 <= i < after.len() implies slot_agrees(
                        #[trigger] after[i],
                    ) by {
                        if i >= before.len() {
                            let fi = i - before.len();
                            assert(fresh[fi]@.key == found[fi].key());
                        }
                    }
                }
                Ok(())
            },
        }
    }
}

/// The local database as its users see it: the queries, and nothing that
/// changes which packages are on record.
#[derive(Debug)]
pub struct LocalDatabase<P> {
    inner: LocalDatabaseInner<P>,
}

impl<P> LocalDatabase<P> {
    /// The database behind this handle.
    pub closed spec fn engine(&self) -> LocalDatabaseInner<P> {
        self.inner
    }

    /// Wraps a database.
    pub fn new(inner: LocalDatabaseInner<P>) -> (db: LocalDatabase<P>)
        ensures
            db.engine() == inner,
    {
        LocalDatabase { inner }
    }

    /// The name of this database.
    pub fn name(&self) -> (name: &'static str)
        ensures
            name@ == LOCAL_DB_NAME@,
    {
        LOCAL_DB_NAME
    }

    /// The root directory of this database.
    pub fn path(&self) -> (path: String)
        ensures
            path@ == self.engine().root(),
    {
        self.inner.path()
    }

    /// Says what to do next in a check of the database's structure, or how the
    /// check ended.
    pub fn status(&self, probe: &StatusProbe) -> (step: StatusStep)
        ensures
            step@ == status_step(probe@),
    {
        self.inner.status(probe)
    }

    /// The number of packages in this database.
    pub fn count(&self) -> (count: usize)
        requires
            self.engine().wf(),
        ensures
            count == self.engine().slots().len(),
    {
        self.inner.count()
    }

    /// Gets the package `name` in version `version`, reading it with `build` if
    /// it has not been read yet.
    ///
    /// Fails with [`Error::InvalidLocalPackage`] if the database has no such
    /// package, and with what `build` gave if reading it failed.
    pub fn package<B>(&mut self, name: &str, version: &str, handle: &Handle, build: &B) -> (result:
        Result<Rc<P>, Error>) where B: Fn(String, &String, &String, &Handle) -> Result<P, Error>
        requires
            old(self).engine().wf(),
            old(self).engine().can_load_all(handle, build),
        ensures
            final(self).engine().wf(),
            final(self).engine().same_settings(&old(self).engine()),
            (forall|i: int|
                0 <= i < old(self).engine().slots().len() ==> (#[trigger] old(
                    self,
                ).engine().slots()[i]).key@ != (KeyView { name: name@, version: version@ })) ==> {
                &&& final(self).engine().slots() == old(self).engine().slots()
                &&& result matches Err(error)
                &&& error@ == ErrorView::InvalidLocalPackage(name@)
            },
            forall|i: int|
                0 <= i < old(self).engine().slots().len() && (#[trigger] old(
                    self,
                ).engine().slots()[i]).key@ == (KeyView { name: name@, version: version@ })
                    ==> loaded_at(
                    old(self).engine().slots(),
                    final(self).engine().slots(),
                    i,
                    result,
                    handle,
                    build,
                ),
    {
        self.inner.package(name, version, handle, build)
    }

    /// Shows every package of the database to `visit`, in the order of the slots,
    /// reading each with `build` if it has not been read yet.
    ///
    /// The walk ends at the first package that cannot be read or that `visit`
    /// refuses, with that failure. The packages behind it are left alone.
    pub fn packages<E, F, B>(&mut self, handle: &Handle, build: &B, visit: F) -> (result: Result<
        (),
        E,
    >) where
        E: From<Error>,
        F: FnMut(Rc<P>) -> Result<(), E>,
        B: Fn(String, &String, &String, &Handle) -> Result<P, Error>,

        requires
            old(self).engine().wf(),
            old(self).engine().can_load_all(handle, build),
            forall|package: Rc<P>| visit.requires((package,)),
        ensures
            final(self).engine().wf(),
            final(self).engine().same_settings(&old(self).engine()),
            exists|done: int| #[trigger]
                walked(
                    old(self).engine().slots(),
                    final(self).engine().slots(),
                    done,
                    result,
                    handle,
                    build,
                    visit,
                ),
    {
        self.inner.packages(handle, build, visit)
    }

    /// Gets the latest version of the package `name`, reading it with `build` if
    /// it has not been read yet.
    ///
    /// Fails with [`Error::InvalidLocalPackage`] if the database has no package of
    /// that name, and with what `build` gave if reading the package failed.
    pub fn package_latest<B>(&mut self, name: &str, handle: &Handle, build: &B) -> (result: Result<
        Rc<P>,
        Error,
    >) where B: Fn(String, &String, &String, &Handle) -> Result<P, Error>
        requires
            old(self).engine().wf(),
            old(self).engine().can_load_all(handle, build),
        ensures
            final(self).engine().wf(),
            final(self).engine().same_settings(&old(self).engine()),
            (forall|i: int|
                0 <= i < old(self).engine().slots().len() ==> (#[trigger] old(
                    self,
                ).engine().slots()[i]).key@.name != name@) ==> {
                &&& final(self).engine().slots() == old(self).engine().slots()
                &&& result matches Err(error)
                &&& error@ == ErrorView::InvalidLocalPackage(name@)
            },
            (exists|i: int|
                0 <= i < old(self).engine().slots().len() && (#[trigger] old(
                    self,
                ).engine().slots()[i]).key@.name == name@) ==> exists|at: int|
                is_latest(old(self).engine().slots(), name@, at) && #[trigger] loaded_at(
                    old(self).engine().slots(),
                    final(self).engine().slots(),
                    at,
                    result,
                    handle,
                    build,
                ),
    {
        self.inner.package_latest(name, handle, build)
    }
}

} // verus!
