//! The check of the database's structure.
//!
//! The check looks at the root directory and at the layout version file, and never
//! at the packages themselves. It needs up to four things from the filesystem. The
//! library asks for them one at a time: [`next_step`] takes what has been seen so
//! far and answers with the next thing to do, or with the verdict. The caller does
//! what is asked, adds the answer to the [`StatusProbe`] and asks again.

use vstd::prelude::*;
use crate::error::{Error, ErrorView};
use crate::version_file::{
    current_version_bytes, lemma_current_version_bytes_parse, parse_number, parsed_number,
    LOCAL_DB_CURRENT_VERSION,
};

verus! {

/// The state of the database on disk.
#[derive(Debug, Clone, Copy, PartialEq, Eq, Structural)]
pub enum DbStatus {
    /// There is nothing at the root path.
    Missing,
    /// Something is there, but it is not a database that this library can use.
    Invalid,
    /// The root is a directory with the current layout version.
    Valid,
}

/// What a query of the root path found.
#[derive(Debug, Clone, PartialEq, Eq)]
pub enum RootQuery {
    /// Nothing exists at the path.
    Missing,
    /// The path exists and is not a directory.
    NotDirectory,
    /// The path is a directory.
    Directory,
    /// The query failed for another reason, described by the text.
    Failed(String),
}

/// What reading the version file gave.
#[derive(Debug, Clone, PartialEq, Eq)]
pub enum MarkerRead {
    /// There is no version file.
    Missing,
    /// The bytes of the version file.
    Content(Vec<u8>),
    /// The file could not be read for another reason.
    Failed,
}

/// What listing the root directory showed.
#[derive(Debug, Clone, Copy, PartialEq, Eq, Structural)]
pub enum Listing {
    /// The directory has no entry.
    Empty,
    /// The directory has at least one entry.
    Occupied,
    /// The directory could not be listed.
    Failed,
}

/// How writing a new version file ended.
#[derive(Debug, Clone, Copy, PartialEq, Eq, Structural)]
pub enum MarkerWrite {
    /// The file was created with the content asked for.
    Written,
    /// The file could not be created or written.
    Failed,
}

/// What has been seen of the filesystem during one check. A field is `None` until
/// the caller has looked.
#[derive(Debug, Clone, PartialEq, Eq)]
pub struct StatusProbe {
    pub root: Option<RootQuery>,
    pub marker: Option<MarkerRead>,
    pub listing: Option<Listing>,
    pub written: Option<MarkerWrite>,
}

/// What the caller has to do next.
#[derive(Debug, PartialEq, Eq)]
pub enum StatusStep {
    /// Query the root path and set [`StatusProbe::root`].
    QueryRoot,
    /// Read the version file in the root and set [`StatusProbe::marker`].
    ReadMarker,
    /// Look whether the root directory has any entry and set [`StatusProbe::listing`].
    ListRoot,
    /// Create the version file with the content of
    /// [`version_file_content`](crate::version_file::version_file_content) and set
    /// [`StatusProbe::written`].
    WriteMarker,
    /// The check is over, with this verdict.
    Done(Result<DbStatus, Error>),
}

/// A [`RootQuery`] with its text as a sequence of characters.
pub enum RootView {
    Missing,
    NotDirectory,
    Directory,
    Failed(Seq<char>),
}

/// A [`MarkerRead`] with its content as a sequence of bytes.
pub enum MarkerView {
    Missing,
    Content(Seq<u8>),
    Failed,
}

/// A [`StatusProbe`] over sequences.
pub struct ProbeView {
    pub root: Option<RootView>,
    pub marker: Option<MarkerView>,
    pub listing: Option<Listing>,
    pub written: Option<MarkerWrite>,
}

/// A [`StatusStep`] over sequences.
pub enum StepView {
    QueryRoot,
    ReadMarker,
    ListRoot,
    WriteMarker,
    Done(Result<DbStatus, ErrorView>),
}

impl View for RootQuery {
    type V = RootView;

    open spec fn view(&self) -> RootView {
        match *self {
            RootQuery::Missing => RootView::Missing,
            RootQuery::NotDirectory => RootView::NotDirectory,
            RootQuery::Directory => RootView::Directory,
            RootQuery::Failed(text) => RootView::Failed(text@),
        }
    }
}

impl View for MarkerRead {
    type V = MarkerView;

    open spec fn view(&self) -> MarkerView {
        match *self {
            MarkerRead::Missing => MarkerView::Missing,
            MarkerRead::Content(bytes) => MarkerView::Content(bytes@),
            MarkerRead::Failed => MarkerView::Failed,
        }
    }
}

impl View for StatusProbe {
    type V = ProbeView;

    open spec fn view(&self) -> ProbeView {
        ProbeView {
            root: match self.root {
                Some(root) => Some(root@),
                None => None,
            },
            marker: match self.marker {
                Some(marker) => Some(marker@),
                None => None,
            },
            listing: self.listing,
            written: self.written,
        }
    }
}

impl View for StatusStep {
    type V = StepView;

    open spec fn view(&self) -> StepView {
        match *self {
            StatusStep::QueryRoot => StepView::QueryRoot,
            StatusStep::ReadMarker => StepView::ReadMarker,
            StatusStep::ListRoot => StepView::ListRoot,
            StatusStep::WriteMarker => StepView::WriteMarker,
            StatusStep::Done(Ok(status)) => StepView::Done(Ok(status)),
            StatusStep::Done(Err(error)) => StepView::Done(Err(error@)),
        }
    }
}

/// The verdict on a version file with this content.
pub open spec fn marker_verdict(content: Seq<u8>) -> DbStatus {
    if parsed_number(content) == Some(LOCAL_DB_CURRENT_VERSION) {
        DbStatus::Valid
    } else {
        DbStatus::Invalid
    }
}

/// What follows once the version file is known to be absent.
///
/// A directory with entries and no version file is not a database. An empty one
/// becomes a database by getting a version file.
pub open spec fn step_without_marker(probe: ProbeView) -> StepView {
    match probe.listing {
        None => StepView::ListRoot,
        Some(Listing::Occupied) => StepView::Done(Ok(DbStatus::Invalid)),
        Some(Listing::Failed) => StepView::Done(Ok(DbStatus::Invalid)),
        Some(Listing::Empty) => match probe.written {
            None => StepView::WriteMarker,
            Some(MarkerWrite::Written) => StepView::Done(Ok(DbStatus::Valid)),
            Some(MarkerWrite::Failed) => StepView::Done(Ok(DbStatus::Invalid)),
        },
    }
}

/// What follows once the root is known to be a directory.
pub open spec fn step_in_directory(probe: ProbeView) -> StepView {
    match probe.marker {
        None => StepView::ReadMarker,
        Some(MarkerView::Content(content)) => StepView::Done(Ok(marker_verdict(content))),
        Some(MarkerView::Failed) => StepView::Done(Ok(DbStatus::Invalid)),
        Some(MarkerView::Missing) => step_without_marker(probe),
    }
}

/// The next step of the check, given what has been seen.
///
/// Only a failed query of the root ends the check with an error. Every later
/// failure ends it with [`DbStatus::Invalid`].
pub open spec fn status_step(probe: ProbeView) -> StepView {
    match probe.root {
        None => StepView::QueryRoot,
        Some(RootView::Missing) => StepView::Done(Ok(DbStatus::Missing)),
        Some(RootView::NotDirectory) => StepView::Done(Ok(DbStatus::Invalid)),
        Some(RootView::Failed(text)) => StepView::Done(Err(ErrorView::Io(text))),
        Some(RootView::Directory) => step_in_directory(probe),
    }
}

impl StatusProbe {
    /// A probe that has seen nothing yet.
    pub fn new() -> (probe: StatusProbe)
        ensures
            probe@ == ProbeView::blank(),
    {
        StatusProbe { root: None, marker: None, listing: None, written: None }
    }
}

impl ProbeView {
    /// The probe that has seen nothing.
    pub open spec fn blank() -> ProbeView {
        ProbeView { root: None, marker: None, listing: None, written: None }
    }
}

/// The step after the version file was found absent.
fn next_without_marker(probe: &StatusProbe) -> (step: StatusStep)
    ensures
        step@ == step_without_marker(probe@),
{
    match probe.listing {
        None => StatusStep::ListRoot,
        Some(Listing::Occupied) => StatusStep::Done(Ok(DbStatus::Invalid)),
        Some(Listing::Failed) => StatusStep::Done(Ok(DbStatus::Invalid)),
        Some(Listing::Empty) => match probe.written {
            None => StatusStep::WriteMarker,
            Some(MarkerWrite::Written) => StatusStep::Done(Ok(DbStatus::Valid)),
            Some(MarkerWrite::Failed) => StatusStep::Done(Ok(DbStatus::Invalid)),
        },
    }
}

/// Judges the content of a version file.
pub fn judge_marker(content: &[u8]) -> (status: DbStatus)
    ensures
        status == marker_verdict(content@),
{
    match parse_number(content) {
        Some(version) => {
            if version == LOCAL_DB_CURRENT_VERSION {
                DbStatus::Valid
            } else {
                DbStatus::Invalid
            }
        },
        None => DbStatus::Invalid,
    }
}

/// Says what to do next in a check of the database, or how the check ended.
pub fn next_step(probe: &StatusProbe) -> (step: StatusStep)
    ensures
        step@ == status_step(probe@),
{
    match &probe.root {
        None => StatusStep::QueryRoot,
        Some(RootQuery::Missing) => StatusStep::Done(Ok(DbStatus::Missing)),
        Some(RootQuery::NotDirectory) => StatusStep::Done(Ok(DbStatus::Invalid)),
        Some(RootQuery::Failed(text)) => StatusStep::Done(Err(Error::Io(text.clone()))),
        Some(RootQuery::Directory) => match &probe.marker {
            None => StatusStep::ReadMarker,
            Some(MarkerRead::Content(content)) => StatusStep::Done(
                Ok(judge_marker(content.as_slice())),
            ),
            Some(MarkerRead::Failed) => StatusStep::Done(Ok(DbStatus::Invalid)),
            Some(MarkerRead::Missing) => next_without_marker(probe),
        },
    }
}

/// The part of the filesystem that the check looks at, for a filesystem on which
/// no operation fails.
pub enum Disk {
    /// Nothing exists at the root path.
    Absent,
    /// The root path holds something that is not a directory.
    NotDirectory,
    /// The root path is a directory. `marker` is the content of the version file, if
    /// there is one, and `others` counts the other entries of the directory.
    Directory { marker: Option<Seq<u8>>, others: nat },
}

impl Disk {
    /// What this disk shows to a caller that carries out `step`: the probe with the
    /// answer added.
    pub open spec fn answer(self, probe: ProbeView, step: StepView) -> ProbeView {
        match step {
            StepView::QueryRoot => ProbeView {
                root: Some(
                    match self {
                        Disk::Absent => RootView::Missing,
                        Disk::NotDirectory => RootView::NotDirectory,
                        Disk::Directory { .. } => RootView::Directory,
                    },
                ),
                ..probe
            },
            StepView::ReadMarker => ProbeView {
                marker: Some(
                    match self {
                        Disk::Directory { marker: Some(content), .. } => MarkerView::Content(
                            content,
                        ),
                        Disk::Directory { marker: None, .. } => MarkerView::Missing,
                        _ => MarkerView::Failed,
                    },
                ),
                ..probe
            },
            StepView::ListRoot => ProbeView {
                listing: Some(
                    match self {
                        Disk::Directory { marker: None, others } if others == 0 => Listing::Empty,
                        Disk::Directory { .. } => Listing::Occupied,
                        _ => Listing::Failed,
                    },
                ),
                ..probe
            },
            StepView::WriteMarker => ProbeView {
                written: Some(
                    match self {
                        Disk::Directory { .. } => MarkerWrite::Written,
                        _ => MarkerWrite::Failed,
                    },
                ),
                ..probe
            },
            StepView::Done(_) => probe,
        }
    }

    /// The disk after a caller has carried out `step`. Only writing the version file
    /// changes anything.
    pub open spec fn after(self, step: StepView) -> Disk {
        match (step, self) {
            (StepView::WriteMarker, Disk::Directory { marker, others }) => Disk::Directory {
                marker: Some(current_version_bytes()),
                others,
            },
            _ => self,
        }
    }
}

/// Carries out up to `rounds` steps of a check on `disk`, starting from `probe`.
/// Gives the last step, which is the verdict if the check has ended, and the disk
/// as the check left it.
pub open spec fn run_check(disk: Disk, probe: ProbeView, rounds: nat) -> (StepView, Disk)
    decreases rounds,
{
    let step = status_step(probe);
    if rounds == 0 || step is Done {
        (step, disk)
    } else {
        run_check(disk.after(step), disk.answer(probe, step), (rounds - 1) as nat)
    }
}

/// A whole check of `disk`: the verdict, and the disk afterwards.
pub open spec fn check(disk: Disk) -> (StepView, Disk) {
    run_check(disk, ProbeView::blank(), 4)
}

/// A check never asks for a fifth thing: after at most four steps it has a verdict.
pub proof fn law_check_ends(disk: Disk)
    ensures
        check(disk).0 is Done,
{
    reveal_with_fuel(run_check, 5);
}

/// A directory whose version file holds the current version is valid, and the
/// check leaves it as it was. So it is valid at every check.
pub proof fn law_current_version_is_valid(content: Seq<u8>, others: nat)
    requires
        parsed_number(content) == Some(LOCAL_DB_CURRENT_VERSION),
    ensures
        ({
            let disk = Disk::Directory { marker: Some(content), others };
            check(disk) == (StepView::Done(Ok(DbStatus::Valid)), disk)
        }),
{
    reveal_with_fuel(run_check, 5);
}

/// An empty directory without a version file is valid at the first check, which
/// gives it a version file for the current version. The second check finds it valid
/// too and changes nothing.
pub proof fn law_empty_directory_becomes_valid()
    ensures
        ({
            let empty = Disk::Directory { marker: None, others: 0 };
            let marked = Disk::Directory { marker: Some(current_version_bytes()), others: 0 };
            &&& check(empty) == (StepView::Done(Ok(DbStatus::Valid)), marked)
            &&& check(marked) == (StepView::Done(Ok(DbStatus::Valid)), marked)
        }),
{
    reveal_with_fuel(run_check, 5);
    lemma_current_version_bytes_parse();
}

/// A directory that has entries and no version file is invalid, and the check
/// never gives it a version file.
pub proof fn law_occupied_directory_is_invalid(others: nat)
    requires
        others > 0,
    ensures
        ({
            let disk = Disk::Directory { marker: None, others };
            check(disk) == (StepView::Done(Ok(DbStatus::Invalid)), disk)
        }),
{
    reveal_with_fuel(run_check, 5);
}

/// A directory whose version file holds no number, or another number than the
/// current version, is invalid.
pub proof fn law_other_version_is_invalid(content: Seq<u8>, others: nat)
    requires
        parsed_number(content) != Some(LOCAL_DB_CURRENT_VERSION),
    ensures
        ({
            let disk = Disk::Directory { marker: Some(content), others };
            check(disk) == (StepView::Done(Ok(DbStatus::Invalid)), disk)
        }),
{
    reveal_with_fuel(run_check, 5);
}

/// Where nothing exists at the root path the database is missing.
pub proof fn law_absent_root_is_missing()
    ensures
        check(Disk::Absent) == (StepView::Done(Ok(DbStatus::Missing)), Disk::Absent),
{
    reveal_with_fuel(run_check, 5);
}

/// A root path that holds something else than a directory is invalid.
pub proof fn law_root_file_is_invalid()
    ensures
        check(Disk::NotDirectory) == (StepView::Done(Ok(DbStatus::Invalid)), Disk::NotDirectory),
{
    reveal_with_fuel(run_check, 5);
}

} // verus!
