//! The store of installed packages of a package manager.
//!
//! Installed packages are recorded on disk as one directory per package inside the
//! database root, next to a small file that holds the version of the layout. This
//! crate holds the rules of that store: how the layout version is judged, how a
//! directory listing becomes a cache of packages, and how packages are found in it.
//! Nothing here touches the filesystem. The caller reads and writes, and hands the
//! library what it saw.

pub mod config;
pub mod dirname;
pub mod error;
pub mod local;
pub mod package;
pub mod scan;
pub mod status;
pub mod text;
pub mod version_file;

pub use config::{join_path, DbUsage, Handle, SignatureLevel};
pub use dirname::split_package_dirname;
pub use error::Error;
pub use local::{LocalDatabase, LocalDatabaseInner, Slot, LOCAL_DB_NAME};
pub use package::{MaybePackage, PackageKey};
pub use scan::Scanned;
pub use status::{
    judge_marker, next_step, DbStatus, Listing, MarkerRead, MarkerWrite, RootQuery, StatusProbe,
    StatusStep,
};
pub use version_file::{version_file_content, LOCAL_DB_CURRENT_VERSION, LOCAL_DB_VERSION_FILE};
