//! Packages of the local database: how they are named, and how they are read
//! from disk only when somebody asks for them.

use std::rc::Rc;
use vstd::prelude::*;
use crate::config::Handle;
use crate::error::Error;

verus! {

/// What tells one installed package from another: its name and its version.
#[derive(Debug, Clone, PartialEq, Eq, Hash)]
pub struct PackageKey {
    pub name: String,
    pub version: String,
}

/// A [`PackageKey`] over sequences of characters.
pub struct KeyView {
    pub name: Seq<char>,
    pub version: Seq<char>,
}

impl View for PackageKey {
    type V = KeyView;

    open spec fn view(&self) -> KeyView {
        KeyView { name: self.name@, version: self.version@ }
    }
}

impl PackageKey {
    /// The key of the package `name` in version `version`.
    pub fn from_owned(name: String, version: String) -> (key: PackageKey)
        ensures
            key@ == (KeyView { name: name@, version: version@ }),
    {
        PackageKey { name, version }
    }

    /// Whether this is the key of the package `name` in version `version`.
    pub fn is(&self, name: &String, version: &String) -> (same: bool)
        ensures
            same == (self@ == KeyView { name: name@, version: version@ }),
    {
        self.name == *name && self.version == *version
    }
}

/// A package of the database that is read from disk when it is first asked for.
#[derive(Debug, Clone, PartialEq)]
pub enum MaybePackage<P> {
    /// The package has not been read yet. This is where it lies and what its
    /// directory is named after.
    Unloaded { path: String, name: String, version: String },
    /// The package as it was read.
    Loaded(Rc<P>),
}

/// A [`MaybePackage`] over sequences of characters.
pub enum MaybePackageView<P> {
    Unloaded { path: Seq<char>, name: Seq<char>, version: Seq<char> },
    Loaded(P),
}

impl<P> View for MaybePackage<P> {
    type V = MaybePackageView<P>;

    open spec fn view(&self) -> MaybePackageView<P> {
        match *self {
            MaybePackage::Unloaded { path, name, version } => MaybePackageView::Unloaded {
                path: path@,
                name: name@,
                version: version@,
            },
            MaybePackage::Loaded(package) => MaybePackageView::Loaded(*package),
        }
    }
}

impl<P> MaybePackage<P> {
    /// A package that lies at `path` and has not been read yet.
    pub fn new(path: String, name: String, version: String) -> (slot: MaybePackage<P>)
        ensures
            slot@ == (MaybePackageView::<P>::Unloaded { path: path@, name: name@, version: version@ }),
    {
        MaybePackage::Unloaded { path, name, version }
    }

    /// Whether `build` accepts what this package would hand to it.
    pub open spec fn can_load<B>(self, handle: &Handle, build: &B) -> bool where
        B: Fn(String, &String, &String, &Handle) -> Result<P, Error>,
     {
        match self {
            MaybePackage::Unloaded { path, name, version } => build.requires(
                (path, &name, &version, handle),
            ),
            MaybePackage::Loaded(_) => true,
        }
    }

    /// The package after reading has ended with `built`, and what the caller gets.
    ///
    /// A package that was read before stays as it is and is handed out again,
    /// whatever `built` is. One that was not becomes what was read. Where reading
    /// failed, it stays unread and the caller gets the failure.
    pub open spec fn settled(self, built: Result<P, Error>) -> (MaybePackage<P>, Result<Rc<P>, Error>) {
        match self {
            MaybePackage::Loaded(package) => (self, Ok(package)),
            MaybePackage::Unloaded { .. } => match built {
                Ok(package) => (MaybePackage::Loaded(Rc::new(package)), Ok(Rc::new(package))),
                Err(error) => (self, Err(error)),
            },
        }
    }

    /// Whether a load with `build` can turn this package into `after` and give
    /// `result`.
    ///
    /// A package that was read before is not built again: there is one outcome,
    /// and `build` has no part in it. Otherwise `build` is asked once, with the
    /// place, the name and the version of the package, and its answer decides.
    pub open spec fn loads_to<B>(
        self,
        after: MaybePackage<P>,
        result: Result<Rc<P>, Error>,
        handle: &Handle,
        build: &B,
    ) -> bool where B: Fn(String, &String, &String, &Handle) -> Result<P, Error> {
        match self {
            MaybePackage::Loaded(package) => after == self && result == Ok::<Rc<P>, Error>(
                package,
            ),
            MaybePackage::Unloaded { path, name, version } => exists|built: Result<P, Error>|
                #![trigger self.settled(built)]
                build.ensures((path, &name, &version, handle), built) && self.settled(built) == (
                    after,
                    result,
                ),
        }
    }

    /// Stores what reading the package gave, unless the package was read before,
    /// and hands out the package.
    pub fn settle(&mut self, built: Result<P, Error>) -> (result: Result<Rc<P>, Error>)
        ensures
            (*final(self), result) == old(self).settled(built),
    {
        match &*self {
            MaybePackage::Loaded(package) => {
                return Ok(package.clone());
            },
            MaybePackage::Unloaded { .. } => {},
        }
        match built {
            Ok(package) => {
                let shared = Rc::new(package);
                *self = MaybePackage::Loaded(shared.clone());
                Ok(shared)
            },
            Err(error) => Err(error),
        }
    }

    /// Reads the package with `build` if it has not been read yet, and hands it out.
    pub fn load<B>(&mut self, handle: &Handle, build: &B) -> (result: Result<Rc<P>, Error>) where
        B: Fn(String, &String, &String, &Handle) -> Result<P, Error>,

        requires
            old(self).can_load(handle, build),
        ensures
            old(self).loads_to(*final(self), result, handle, build),
    {
        let built = match &*self {
            MaybePackage::Loaded(package) => {
                return Ok(package.clone());
            },
            MaybePackage::Unloaded { path, name, version } => build(
                path.clone(),
                name,
                version,
                handle,
            ),
        };
        self.settle(built)
    }
}

/// A package is read once. After a load that handed out `package`, every later
/// load hands out `package` again and leaves the slot as it is, whatever reader
/// it is given.
pub proof fn law_load_is_remembered<P, B, C>(
    unread: MaybePackage<P>,
    read: MaybePackage<P>,
    package: Rc<P>,
    handle: &Handle,
    build: &B,
    later: MaybePackage<P>,
    result: Result<Rc<P>, Error>,
    later_handle: &Handle,
    later_build: &C,
) where
    B: Fn(String, &String, &String, &Handle) -> Result<P, Error>,
    C: Fn(String, &String, &String, &Handle) -> Result<P, Error>,

    requires
        unread.loads_to(read, Ok(package), handle, build),
        read.loads_to(later, result, later_handle, later_build),
    ensures
        read == MaybePackage::Loaded(package),
        later == read,
        result == Ok::<Rc<P>, Error>(package),
{
}

} // verus!
