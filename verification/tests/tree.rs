use tp7::mtp::ObjectInfo;
use tp7::remote::ObjectKind;
use tp7::tree::{TreeEntry, TreeStep, TreeWalk};

fn object(handle: u32, name: &str, folder: bool) -> ObjectInfo {
    ObjectInfo {
        handle,
        storage_id: 0,
        format: if folder { 0x3001 } else { 0x3008 },
        association_type: 0,
        parent: 0,
        filename: name.to_string(),
        size: 1024,
        created: None,
        modified: None,
    }
}

#[test]
fn builds_tree_entry_from_object() {
    let object = object(16, "take.wav", false);

    let entry = TreeEntry::from_object("/recordings/take.wav".to_string(), 1, object);

    assert_eq!(entry.path, "/recordings/take.wav");
    assert_eq!(entry.depth, 1);
    assert_eq!(entry.object.name, "take.wav");
    assert_eq!(entry.object.kind, ObjectKind::File);
}

#[test]
fn walks_a_tree_down_to_the_depth_limit() {
    let mut walk = TreeWalk::new(Some(2));
    assert!(walk.lists_depth(0));
    walk.push_children(vec![object(1, "memo", true), object(2, "z.wav", false)], 0, "/");
    match walk.next() {
        TreeStep::Descend { handle, depth, path } => {
            assert_eq!((handle, depth, path.as_str()), (1, 1, "/memo"));
            walk.push_children(vec![object(3, "deep", true)], depth, &path);
        }
        _ => panic!("expected to descend"),
    }
    assert!(matches!(walk.next(), TreeStep::Visited));
    assert!(matches!(walk.next(), TreeStep::Visited));
    assert!(matches!(walk.next(), TreeStep::Done));
    let report = walk.report("/".to_string(), 7);
    let paths: Vec<_> = report.entries.iter().map(|e| (e.path.as_str(), e.depth)).collect();
    assert_eq!(paths, vec![("/memo", 0), ("/memo/deep", 1), ("/z.wav", 0)]);
}
