use tp7::error::AppError;
use tp7::mtp::ObjectInfo;
use tp7::remote::{RemoteTarget, ResolvedPath};
use tp7::write_ops::{
    MkdirAction, map_create_folder_error, renamed_path, rm_plan, start_mkdir,
    validate_remote_name,
};

#[test]
fn rejects_invalid_remote_names() {
    assert!(validate_remote_name("../x").is_err());
    assert!(validate_remote_name("").is_err());
}

#[test]
fn builds_renamed_root_child_path() {
    assert_eq!(renamed_path("/old.txt", "new.txt"), "/new.txt");
}

#[test]
fn builds_renamed_nested_path() {
    assert_eq!(renamed_path("/memo/old.txt", "new.txt"), "/memo/new.txt");
}

fn folder(handle: u32, name: &str) -> ObjectInfo {
    ObjectInfo {
        handle,
        storage_id: 1,
        format: 0x3001,
        association_type: 0,
        parent: 0,
        filename: name.to_string(),
        size: 0,
        created: None,
        modified: None,
    }
}

#[test]
fn mkdir_walks_and_creates_folders() {
    let mut plan = start_mkdir("/memo/2026", true).unwrap();
    assert_eq!(plan.next_component().unwrap().unwrap(), "memo");
    assert!(matches!(plan.on_lookup(Some(folder(4, "memo"))), Ok(MkdirAction::Entered)));
    assert_eq!(plan.next_component().unwrap().unwrap(), "2026");
    match plan.on_lookup(None) {
        Ok(MkdirAction::Create { parent, name }) => {
            assert_eq!((parent, name.as_str()), (Some(4), "2026"));
        }
        _ => panic!("expected a creation"),
    }
    plan.on_created(9);
    assert!(plan.next_component().is_none());
    let report = plan.report();
    assert_eq!(report.path, "/memo/2026");
    assert_eq!(report.created, vec!["/memo/2026".to_string()]);
}

#[test]
fn mkdir_without_parents_needs_the_folders_before() {
    let mut plan = start_mkdir("/memo/2026", false).unwrap();
    assert!(matches!(plan.on_lookup(None), Err(AppError::RemotePathNotFound { ref path }) if path == "/memo"));
    let mut plan = start_mkdir("/memo", false).unwrap();
    assert!(matches!(plan.on_lookup(Some(folder(1, "memo"))), Err(AppError::RemotePathExists { .. })));
    assert!(matches!(start_mkdir("/", false), Err(AppError::RemotePathIsRoot)));
}

#[test]
fn rm_plans_deletions() {
    let missing = rm_plan(Err(AppError::RemotePathNotFound { path: "/x".to_string() }), "/x", false, true, false).unwrap();
    assert!(missing.report.removed.is_empty());
    assert!(missing.delete.is_none());
    let resolved = ResolvedPath { path: "/memo".to_string(), target: RemoteTarget::Object(folder(5, "memo")) };
    assert!(matches!(rm_plan(Ok(resolved), "/memo", false, false, false), Err(AppError::RemotePathIsFolder { .. })));
    let resolved = ResolvedPath { path: "/memo".to_string(), target: RemoteTarget::Object(folder(5, "memo")) };
    let plan = rm_plan(Ok(resolved), "/memo", true, false, true).unwrap();
    assert_eq!(plan.report.removed.len(), 1);
    assert!(plan.delete.is_none());
}

#[test]
fn folder_creation_refusals_are_unsupported() {
    let error = map_create_folder_error(Some(0x200E), false, "store is read-only".to_string());
    assert!(matches!(error, AppError::MtpUnsupported { ref message } if message == "TP-7 rejected folder creation (store is read-only)"));
    assert!(matches!(map_create_folder_error(Some(0x2009), false, "x".to_string()), AppError::Mtp { .. }));
}
