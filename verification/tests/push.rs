use tp7::push::{ReplaceOp, replacement_first, replacement_next};
use tp7::error::AppError;
use tp7::mtp::ObjectInfo;
use tp7::push::{
    DestinationStep, DirectoryPlan, PushOptions, PushReport, PushStatus, RemoteDestination,
    file_destination_step, file_report, find_child, local_file_name, parent_handle,
    replacement_temp_name, sort_paths, validate_destination_for_write, validate_local_source,
};
use tp7::remote::parent_remote_path;

#[test]
fn maps_root_parent_to_none() {
    assert_eq!(parent_handle(0), None);
    assert_eq!(parent_handle(7), Some(7));
}

#[test]
fn gets_local_file_name() {
    assert_eq!(local_file_name("target/test.txt").unwrap(), "test.txt");
}

#[test]
fn builds_parent_remote_paths() {
    assert_eq!(parent_remote_path("/file.txt"), "/");
    assert_eq!(parent_remote_path("/memo/file.txt"), "/memo");
}

#[test]
fn builds_replacement_temp_names_with_original_prefix() {
    let name = replacement_temp_name("recording.wav", "upload", 3, 4242, 1_700_000_000_000);

    assert!(name.starts_with("recording.wav.tp7cli-upload-"));
    assert!(name.ends_with("-3.tmp"));
}

fn object(handle: u32, name: &str, folder: bool) -> ObjectInfo {
    ObjectInfo {
        handle,
        storage_id: 1,
        format: if folder { 0x3001 } else { 0x3008 },
        association_type: 0,
        parent: 0,
        filename: name.to_string(),
        size: 5,
        created: None,
        modified: None,
    }
}

#[test]
fn temp_names_clip_long_names() {
    let long = "x".repeat(200);
    let name = replacement_temp_name(&long, "backup", 0, 42, 7);
    assert_eq!(name, format!("{}.tp7cli-backup-42-7-0.tmp", "x".repeat(120)));
}

#[test]
fn refuses_to_replace_folders_or_files_without_overwrite() {
    let folder = RemoteDestination { parent: None, path: "/memo".to_string(), name: "memo".to_string(), existing: Some(object(1, "memo", true)) };
    assert!(matches!(validate_destination_for_write(&folder, true), Err(AppError::RemotePathIsFolder { .. })));
    let file = RemoteDestination { parent: None, path: "/a".to_string(), name: "a".to_string(), existing: Some(object(2, "a", false)) };
    assert!(matches!(validate_destination_for_write(&file, false), Err(AppError::RemotePathExists { .. })));
    assert!(validate_destination_for_write(&file, true).is_ok());
}

#[test]
fn checks_local_sources() {
    let options = PushOptions { recursive: false, overwrite: false, dry_run: false, progress: false };
    assert!(matches!(validate_local_source("d", true, false, options), Err(AppError::LocalPathIsFolder { .. })));
    assert!(matches!(validate_local_source("p", false, false, options), Err(AppError::FileSystem { .. })));
    assert!(validate_local_source("f", false, true, options).is_ok());
}

#[test]
fn starts_file_destinations() {
    assert!(matches!(file_destination_step("  "), DestinationStep::InRoot));
    assert!(matches!(file_destination_step("/"), DestinationStep::InRoot));
    assert!(matches!(file_destination_step("/memo/"), DestinationStep::ResolveFolder(ref p) if p == "/memo/"));
    assert!(matches!(file_destination_step(" /memo/a.wav "), DestinationStep::Resolve(ref p) if p == "/memo/a.wav"));
}

#[test]
fn finds_children_by_exact_name() {
    let found = find_child(vec![object(1, "A.wav", false), object(2, "a.wav", false)], "a.wav").unwrap();
    assert_eq!(found.handle, 2);
    assert!(find_child(vec![object(1, "b", false)], "a").is_none());
}

#[test]
fn plans_folder_uploads() {
    let mut plan = DirectoryPlan::new("local", None, "/", false);
    let dir = plan.next_directory().unwrap();
    assert!(plan.next_directory().is_none());
    let missing = plan.add_folder(&dir, "local/sub".to_string(), "sub", None).unwrap_err();
    assert!(matches!(missing, AppError::MtpUnsupported { ref message } if message == "remote folder creation is not available; create /sub before pushing this directory"));
    plan.add_folder(&dir, "local/memo".to_string(), "memo", Some(object(9, "memo", true))).unwrap();
    plan.add_file(&dir, "local/a.wav".to_string(), "a.wav".to_string(), None, 5).unwrap();
    let sub = plan.next_directory().unwrap();
    assert_eq!(sub.remote_parent, Some(9));
    assert_eq!(sub.remote_parent_path, "/memo");
    assert_eq!(plan.plan.len(), 1);
    assert_eq!(plan.plan[0].destination.path, "/a.wav");
    let refused = plan.add_file(&sub, "local/memo/b".to_string(), "b".to_string(), Some(object(3, "b", false)), 1);
    assert!(matches!(refused, Err(AppError::RemotePathExists { ref path }) if path == "/memo/b"));
}

#[test]
fn sorts_local_paths() {
    let mut paths = vec!["b".to_string(), "B".to_string(), "a/z".to_string(), "a".to_string()];
    sort_paths(&mut paths);
    assert_eq!(paths, vec!["B", "a", "a/z", "b"]);
}

#[test]
fn counts_what_a_push_did() {
    let mut report = PushReport::new("l", "/r", false);
    report.record(file_report("l/a", "/r/a", 4, PushStatus::Uploaded));
    report.record(file_report("l/b", "/r/b", 6, PushStatus::DryRun));
    assert_eq!((report.uploaded, report.total_bytes, report.files.len()), (1, 4, 2));
}

#[test]
fn replaces_only_after_moving_the_existing_object_aside() {
    let mut op = replacement_first();
    assert_eq!(op, ReplaceOp::MoveExistingAside);
    op = replacement_next(op, true);
    assert_eq!(op, ReplaceOp::PromoteUpload);
    op = replacement_next(op, true);
    assert_eq!(op, ReplaceOp::DeleteBackup);
    assert_eq!(replacement_next(op, true), ReplaceOp::Done);
    assert_eq!(replacement_next(op, false), ReplaceOp::ReportBackupLeft);
    assert_eq!(replacement_next(ReplaceOp::MoveExistingAside, false), ReplaceOp::DropUpload);
    assert_eq!(replacement_next(ReplaceOp::PromoteUpload, false), ReplaceOp::DropUploadAndRestore);
    assert_eq!(replacement_next(ReplaceOp::Done, false), ReplaceOp::Done);
}
