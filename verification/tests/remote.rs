use tp7::error::AppError;
use tp7::mtp::{DateTime, ObjectInfo};
use tp7::remote::{
    ObjectKind, RemoteObject, join_remote_path, normalize_remote_path, parent_remote_path,
    path_components, sort_object_infos, sort_remote_objects, to_remote_objects,
};

fn object(name: &str, kind: ObjectKind) -> ObjectInfo {
    let format = match kind {
        ObjectKind::File => 0x3008,
        ObjectKind::Folder => 0x3001,
    };
    ObjectInfo {
        handle: 0,
        storage_id: 0,
        format,
        association_type: 0,
        parent: 0,
        filename: name.to_string(),
        size: 0,
        created: None,
        modified: None,
    }
}

fn entry(name: &str, kind: ObjectKind) -> RemoteObject {
    RemoteObject::from_object(object(name, kind))
}

#[test]
fn normalizes_empty_and_root_paths_to_root() {
    assert_eq!(normalize_remote_path("").unwrap(), "/");
    assert_eq!(normalize_remote_path("/").unwrap(), "/");
}

#[test]
fn normalizes_repeated_separators() {
    assert_eq!(
        normalize_remote_path("//Recordings//Take 1//").unwrap(),
        "/Recordings/Take 1"
    );
}

#[test]
fn rejects_parent_path_components() {
    let error = normalize_remote_path("/Recordings/../System").unwrap_err();

    assert!(matches!(error, AppError::InvalidRemotePath { .. }));
}

#[test]
fn converts_object_info_to_remote_object() {
    let object = ObjectInfo {
        handle: 42,
        storage_id: 65_537,
        format: 0,
        association_type: 0,
        parent: 7,
        filename: "take.wav".to_string(),
        size: 1024,
        created: None,
        modified: Some(DateTime::new(2026, 5, 7, 12, 30, 45).unwrap()),
    };

    let entry = RemoteObject::from_object(object);

    assert_eq!(entry.id, 42);
    assert_eq!(entry.parent_id, 7);
    assert_eq!(entry.storage_id, 65_537);
    assert_eq!(entry.kind, ObjectKind::File);
    assert_eq!(entry.name, "take.wav");
    assert_eq!(entry.size, 1024);
    assert_eq!(entry.modified.as_deref(), Some("20260507T123045"));
}

#[test]
fn sorts_folders_before_files_by_name() {
    let mut entries = vec![
        entry("z.wav", ObjectKind::File),
        entry("Recordings", ObjectKind::Folder),
        entry("a.wav", ObjectKind::File),
    ];

    sort_remote_objects(&mut entries);

    assert_eq!(
        entries.into_iter().map(|entry| entry.name).collect::<Vec<_>>(),
        vec!["Recordings", "a.wav", "z.wav"]
    );
}

#[test]
fn sorts_object_infos_folders_before_files_by_name() {
    let mut objects = vec![
        object("z.wav", ObjectKind::File),
        object("Recordings", ObjectKind::Folder),
        object("a.wav", ObjectKind::File),
    ];

    sort_object_infos(&mut objects);

    assert_eq!(
        objects.into_iter().map(|object| object.filename).collect::<Vec<_>>(),
        vec!["Recordings", "a.wav", "z.wav"]
    );
}

#[test]
fn joins_remote_root_paths() {
    assert_eq!(join_remote_path("/", "recordings"), "/recordings");
}

#[test]
fn joins_remote_nested_paths() {
    assert_eq!(join_remote_path("/recordings", "take.wav"), "/recordings/take.wav");
}

#[test]
fn sorting_is_case_insensitive_then_exact_and_stable() {
    let mut entries = vec![
        entry("b", ObjectKind::File),
        entry("B", ObjectKind::File),
        entry("a", ObjectKind::File),
    ];
    sort_remote_objects(&mut entries);
    assert_eq!(entries.into_iter().map(|e| e.name).collect::<Vec<_>>(), vec!["a", "B", "b"]);
    let listed = to_remote_objects(vec![object("y", ObjectKind::File), object("x", ObjectKind::Folder)]);
    assert_eq!(listed[0].name, "x");
    assert_eq!(listed[0].kind, ObjectKind::Folder);
}

#[test]
fn parent_of_a_joined_path_is_the_folder() {
    for parent in ["/", "/memo", "/memo/2026"] {
        assert_eq!(parent_remote_path(&join_remote_path(parent, "take.wav")), parent);
    }
}

#[test]
fn normalizing_twice_changes_nothing() {
    for path in ["", "a//b/", " /x/ y ", "//Recordings//Take 1//"] {
        let once = normalize_remote_path(path).unwrap();
        assert_eq!(normalize_remote_path(&once).unwrap(), once);
    }
    assert_eq!(path_components("/a/./b").unwrap_err().exit_code(), 2);
}

#[test]
fn requires_a_storage() {
    assert!(tp7::remote::check_storages(1).is_ok());
    assert!(matches!(
        tp7::remote::check_storages(0),
        Err(tp7::error::AppError::Mtp { message }) if message == "TP-7 reported no MTP storages."
    ));
}

#[test]
fn errors_exit_with_non_zero_codes() {
    let errors = vec![
        AppError::NoDevices,
        AppError::RemotePathIsRoot,
        AppError::MtpExclusiveAccess { message: "busy".to_string() },
        AppError::Midi { message: "gone".to_string() },
        AppError::MtpNotVisible { serial: "A".to_string(), mode: "audio-midi".to_string() },
    ];
    let codes: Vec<i32> = errors.iter().map(|e| e.exit_code()).collect();
    assert_eq!(codes, vec![1, 2, 4, 5, 3]);
}
