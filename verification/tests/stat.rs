use tp7::mtp::{DateTime, ObjectInfo};
use tp7::remote::{RemoteTarget, ResolvedPath};
use tp7::stat::stat_report;

#[test]
fn builds_stat_report_from_object_info() {
    let object = ObjectInfo {
        handle: 1,
        storage_id: 65_537,
        format: 0x3001,
        association_type: 0,
        parent: 0,
        filename: "recordings".to_string(),
        size: 0,
        created: Some(DateTime::new(2024, 1, 26, 14, 20, 0).unwrap()),
        modified: Some(DateTime::new(2026, 5, 7, 12, 0, 0).unwrap()),
    };
    let resolved = ResolvedPath {
        path: "/recordings".to_string(),
        target: RemoteTarget::Object(object),
    };
    let report = stat_report(resolved, "Association".to_string()).unwrap();

    assert_eq!(report.path, "/recordings");
    assert_eq!(report.object.name, "recordings");
    assert_eq!(report.object.id, 1);
    assert_eq!(report.format, "Association");
    assert_eq!(report.format_code, "0x3001");
    assert_eq!(report.created.as_deref(), Some("20240126T142000"));
}

#[test]
fn the_root_has_no_metadata() {
    let resolved = ResolvedPath { path: "/".to_string(), target: RemoteTarget::Root };
    assert!(matches!(
        stat_report(resolved, String::new()),
        Err(tp7::error::AppError::RemotePathIsRoot)
    ));
}
