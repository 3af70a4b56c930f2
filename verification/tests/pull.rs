use std::path::{Path, PathBuf};

use tp7::error::AppError;
use tp7::mtp::{DateTime, ObjectInfo};
use tp7::pull::{
    FolderWalk, PullOptions, PullReport, PullStatus, file_destination, file_report,
    folder_destination, prepare_file_destination, safe_child_path, temp_download_path,
    validate_options, verify_file_size,
};

#[test]
fn defaults_file_destination_to_remote_name() {
    assert_eq!(
        PathBuf::from(file_destination(None, false, "take.wav").unwrap()),
        PathBuf::from("take.wav")
    );
}

#[test]
fn treats_trailing_slash_file_destination_as_directory() {
    assert_eq!(
        PathBuf::from(file_destination(Some("out/"), false, "take.wav").unwrap()),
        PathBuf::from("out/take.wav")
    );
}

#[test]
fn rejects_unsafe_child_names() {
    let error = safe_child_path("out", "../take.wav").unwrap_err();

    assert!(matches!(error, AppError::InvalidRemotePath { .. }));
}

#[test]
fn builds_temp_download_path_next_to_destination() {
    assert_eq!(
        PathBuf::from(temp_download_path("out/take.wav").unwrap()),
        PathBuf::from("out/.take.wav.tp7tmp")
    );
}

#[test]
fn rejects_conflicting_overwrite_and_skip_options() {
    let error = validate_options(PullOptions {
        recursive: false,
        overwrite: true,
        skip_existing: true,
        dry_run: false,
        progress: false,
    })
    .unwrap_err();

    assert!(matches!(error, AppError::InvalidArguments { .. }));
}

#[test]
fn detects_size_mismatch() {
    let path = Path::new("target/tp7-unit-size-mismatch.tmp");
    let written = b"abc";

    let error = verify_file_size(path.to_str().unwrap(), 4, written.len() as u64).unwrap_err();

    assert!(matches!(error, AppError::TransferVerification { .. }));
}

fn options(overwrite: bool, skip_existing: bool, dry_run: bool) -> PullOptions {
    PullOptions { recursive: false, overwrite, skip_existing, dry_run, progress: false }
}

#[test]
fn decides_what_happens_to_existing_destinations() {
    assert_eq!(prepare_file_destination("a", false, false, options(false, false, false)).unwrap(), PullStatus::Downloaded);
    assert_eq!(prepare_file_destination("a", false, false, options(false, false, true)).unwrap(), PullStatus::DryRun);
    assert_eq!(prepare_file_destination("a", true, false, options(false, true, false)).unwrap(), PullStatus::Skipped);
    assert!(matches!(
        prepare_file_destination("a", true, false, options(false, false, false)),
        Err(AppError::LocalPathExists { .. })
    ));
    assert_eq!(prepare_file_destination("a", true, false, options(true, false, false)).unwrap(), PullStatus::Downloaded);
    assert!(matches!(
        prepare_file_destination("a", true, true, options(true, false, false)),
        Err(AppError::LocalPathIsDirectory { .. })
    ));
}

#[test]
fn folder_destinations_must_not_be_files() {
    assert!(matches!(folder_destination(Some("x"), true, false, "f"), Err(AppError::LocalPathIsFile { .. })));
    assert_eq!(folder_destination(Some("x"), true, true, "f").unwrap(), "x");
    assert_eq!(folder_destination(None, false, false, "f").unwrap(), "f");
    assert_eq!(PathBuf::from(file_destination(Some("dir"), true, "t.wav").unwrap()), PathBuf::from("dir/t.wav"));
    assert_eq!(file_destination(Some("t2.wav"), false, "t.wav").unwrap(), "t2.wav");
}

#[test]
fn counts_what_a_pull_did() {
    let mut report = PullReport::new("/memo".to_string(), false);
    report.record(file_report("/memo/a", "a", 10, PullStatus::Downloaded));
    report.record(file_report("/memo/b", "b", 20, PullStatus::Skipped));
    report.record(file_report("/memo/c", "c", 30, PullStatus::Downloaded));
    assert_eq!((report.downloaded, report.skipped, report.total_bytes), (2, 1, 40));
    assert_eq!(report.files.len(), 3);
}

fn object(name: &str, folder: bool) -> ObjectInfo {
    ObjectInfo {
        handle: 1,
        storage_id: 1,
        format: if folder { 0x3001 } else { 0x3008 },
        association_type: 0,
        parent: 0,
        filename: name.to_string(),
        size: 1,
        created: None,
        modified: DateTime::new(2026, 1, 1, 0, 0, 0),
    }
}

#[test]
fn walks_folders_depth_first_in_listing_order() {
    let mut walk = FolderWalk::new();
    walk.push_children(vec![object("a", true), object("b.wav", false)], "/memo", "out");
    let first = walk.next().unwrap().unwrap();
    assert_eq!(first.remote_path, "/memo/a");
    assert_eq!(PathBuf::from(&first.local_path), PathBuf::from("out/a"));
    walk.push_children(vec![object("c.wav", false)], &first.remote_path, &first.local_path);
    assert_eq!(walk.next().unwrap().unwrap().remote_path, "/memo/a/c.wav");
    assert_eq!(walk.next().unwrap().unwrap().remote_path, "/memo/b.wav");
    assert!(walk.next().is_none());
}

#[test]
fn dry_runs_never_download() {
    for (present, overwrite, skip) in [(false, false, false), (true, true, false), (true, false, true)] {
        let options = tp7::pull::PullOptions {
            recursive: false,
            overwrite,
            skip_existing: skip,
            dry_run: true,
            progress: false,
        };
        let status = tp7::pull::prepare_file_destination("take.wav", present, false, options).unwrap();
        assert_ne!(status, tp7::pull::PullStatus::Downloaded);
    }
    assert_eq!(tp7::local_path::parent_to_create("out/take.wav", true), None);
    assert_eq!(tp7::local_path::parent_to_create("out/take.wav", false), Some("out".to_string()));
}
