use alpm::{
    judge_marker, next_step, version_file_content, DbStatus, Error, Listing, LocalDatabase,
    LocalDatabaseInner, Handle, MarkerRead, MarkerWrite, RootQuery, SignatureLevel, StatusProbe,
    StatusStep, LOCAL_DB_CURRENT_VERSION, LOCAL_DB_VERSION_FILE,
};

/// A directory tree in memory, as far as a check looks at it.
#[derive(Debug, Clone, PartialEq)]
enum Disk {
    Absent,
    File,
    Directory { marker: Option<Vec<u8>>, others: usize },
}

/// Runs a whole check against `disk`, doing what each step asks for, and counts the steps.
fn check(disk: &mut Disk) -> (Result<DbStatus, Error>, usize) {
    let mut probe = StatusProbe::new();
    let mut steps = 0;
    loop {
        match next_step(&probe) {
            StatusStep::QueryRoot => {
                probe.root = Some(match disk {
                    Disk::Absent => RootQuery::Missing,
                    Disk::File => RootQuery::NotDirectory,
                    Disk::Directory { .. } => RootQuery::Directory,
                });
            }
            StatusStep::ReadMarker => {
                probe.marker = Some(match disk {
                    Disk::Directory { marker: Some(content), .. } => {
                        MarkerRead::Content(content.clone())
                    }
                    Disk::Directory { marker: None, .. } => MarkerRead::Missing,
                    _ => MarkerRead::Failed,
                });
            }
            StatusStep::ListRoot => {
                probe.listing = Some(match disk {
                    Disk::Directory { marker: None, others: 0 } => Listing::Empty,
                    Disk::Directory { .. } => Listing::Occupied,
                    _ => Listing::Failed,
                });
            }
            StatusStep::WriteMarker => {
                probe.written = Some(match disk {
                    Disk::Directory { marker, .. } => {
                        *marker = Some(version_file_content());
                        MarkerWrite::Written
                    }
                    _ => MarkerWrite::Failed,
                });
            }
            StatusStep::Done(verdict) => return (verdict, steps),
        }
        steps += 1;
        assert!(steps <= 4);
    }
}

fn directory(marker: &[u8], others: usize) -> Disk {
    Disk::Directory { marker: Some(marker.to_vec()), others }
}

#[test]
fn constants_are_those_of_the_layout() {
    assert_eq!(LOCAL_DB_VERSION_FILE, "ALPM_DB_VERSION");
    assert_eq!(LOCAL_DB_CURRENT_VERSION, 9);
    assert_eq!(version_file_content(), b"9\n".to_vec());
}

#[test]
fn current_version_is_valid_at_every_check() {
    let mut disk = directory(b"9\n", 3);
    let before = disk.clone();
    for _ in 0..3 {
        assert_eq!(check(&mut disk), (Ok(DbStatus::Valid), 2));
        assert_eq!(disk, before);
    }
}

#[test]
fn empty_directory_gets_a_version_file() {
    let mut disk = Disk::Directory { marker: None, others: 0 };
    assert_eq!(check(&mut disk), (Ok(DbStatus::Valid), 4));
    assert_eq!(disk, directory(b"9\n", 0));
    assert_eq!(check(&mut disk), (Ok(DbStatus::Valid), 2));
    assert_eq!(disk, directory(b"9\n", 0));
}

#[test]
fn occupied_directory_without_version_file_is_invalid() {
    let mut disk = Disk::Directory { marker: None, others: 2 };
    let before = disk.clone();
    assert_eq!(check(&mut disk), (Ok(DbStatus::Invalid), 3));
    assert_eq!(disk, before);
}

#[test]
fn other_version_is_invalid() {
    for content in [&b"8\n"[..], b"10\n", b"90", b"0", b"99999"] {
        let mut disk = directory(content, 1);
        assert_eq!(check(&mut disk), (Ok(DbStatus::Invalid), 2));
        assert_eq!(disk, directory(content, 1));
    }
}

#[test]
fn unreadable_version_is_invalid() {
    for content in [&b""[..], b"\n", b"nine", b" 9", b"v9", b"\xff\xfe"] {
        let mut disk = directory(content, 0);
        assert_eq!(check(&mut disk), (Ok(DbStatus::Invalid), 2));
    }
}

#[test]
fn absent_root_is_missing() {
    let mut disk = Disk::Absent;
    assert_eq!(check(&mut disk), (Ok(DbStatus::Missing), 1));
    assert_eq!(disk, Disk::Absent);
}

#[test]
fn root_that_is_a_file_is_invalid() {
    let mut disk = Disk::File;
    assert_eq!(check(&mut disk), (Ok(DbStatus::Invalid), 1));
}

#[test]
fn failed_root_query_is_an_error() {
    let mut probe = StatusProbe::new();
    assert_eq!(next_step(&probe), StatusStep::QueryRoot);
    probe.root = Some(RootQuery::Failed("permission denied".to_string()));
    assert_eq!(
        next_step(&probe),
        StatusStep::Done(Err(Error::Io("permission denied".to_string())))
    );
}

#[test]
fn later_failures_are_downgraded_to_invalid() {
    let mut probe = StatusProbe::new();
    probe.root = Some(RootQuery::Directory);
    assert_eq!(next_step(&probe), StatusStep::ReadMarker);
    probe.marker = Some(MarkerRead::Failed);
    assert_eq!(next_step(&probe), StatusStep::Done(Ok(DbStatus::Invalid)));

    probe.marker = Some(MarkerRead::Missing);
    assert_eq!(next_step(&probe), StatusStep::ListRoot);
    probe.listing = Some(Listing::Failed);
    assert_eq!(next_step(&probe), StatusStep::Done(Ok(DbStatus::Invalid)));

    probe.listing = Some(Listing::Empty);
    assert_eq!(next_step(&probe), StatusStep::WriteMarker);
    probe.written = Some(MarkerWrite::Failed);
    assert_eq!(next_step(&probe), StatusStep::Done(Ok(DbStatus::Invalid)));
    probe.written = Some(MarkerWrite::Written);
    assert_eq!(next_step(&probe), StatusStep::Done(Ok(DbStatus::Valid)));
}

#[test]
fn observations_that_were_not_asked_for_are_ignored() {
    let mut probe = StatusProbe::new();
    probe.marker = Some(MarkerRead::Content(b"9\n".to_vec()));
    probe.written = Some(MarkerWrite::Written);
    assert_eq!(next_step(&probe), StatusStep::QueryRoot);
    probe.root = Some(RootQuery::Missing);
    assert_eq!(next_step(&probe), StatusStep::Done(Ok(DbStatus::Missing)));
}

#[test]
fn marker_is_judged_by_its_leading_number() {
    assert_eq!(judge_marker(b"9\n"), DbStatus::Valid);
    assert_eq!(judge_marker(b"9"), DbStatus::Valid);
    assert_eq!(judge_marker(b"009\n"), DbStatus::Valid);
    assert_eq!(judge_marker(b"9 and more"), DbStatus::Valid);
    assert_eq!(judge_marker(b"+9\n"), DbStatus::Valid);
    assert_eq!(judge_marker(b"-9\n"), DbStatus::Invalid);
    assert_eq!(judge_marker(b"-0\n"), DbStatus::Invalid);
    assert_eq!(judge_marker(b"+"), DbStatus::Invalid);
    assert_eq!(judge_marker(b"19\n"), DbStatus::Invalid);
    assert_eq!(judge_marker(b"\n9"), DbStatus::Invalid);
    assert_eq!(judge_marker(b""), DbStatus::Invalid);
}

#[test]
fn marker_number_that_overflows_is_invalid() {
    // Two to the power of 64, plus nine: nine if the number were allowed to wrap.
    assert_eq!(judge_marker(b"18446744073709551625\n"), DbStatus::Invalid);
    assert_eq!(judge_marker(b"18446744073709551615\n"), DbStatus::Invalid);
    assert_eq!(judge_marker(b"00000000000000000000000009\n"), DbStatus::Valid);
}

#[test]
fn database_answers_as_the_free_function() {
    let handle = Handle {
        root_path: "/".to_string(),
        database_path: "/var/lib/pacman".to_string(),
        sig_level: SignatureLevel::Optional,
    };
    let inner: LocalDatabaseInner<u8> = LocalDatabaseInner::new(&handle, SignatureLevel::Never);
    let mut probe = StatusProbe::new();
    assert_eq!(inner.status(&probe), StatusStep::QueryRoot);
    let db = LocalDatabase::new(inner);
    probe.root = Some(RootQuery::Directory);
    probe.marker = Some(MarkerRead::Content(b"9\n".to_vec()));
    assert_eq!(db.status(&probe), StatusStep::Done(Ok(DbStatus::Valid)));
    probe.marker = Some(MarkerRead::Content(b"8\n".to_vec()));
    assert_eq!(db.status(&probe), StatusStep::Done(Ok(DbStatus::Invalid)));
}
