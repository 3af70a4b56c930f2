use tp7::connect::{ConnectReport, MtpSessionCheck, MtpSessionStatus};
use tp7::device::{TP7_PRODUCT_ID, TP7_VENDOR_ID, Tp7Device, UsbInterface, UsbMode};
use tp7::doctor::{CheckStatus, DoctorCheck, DoctorReport, ProcessConflict};
use tp7::eject::EjectReport;
use tp7::ls::LsReport;
use tp7::midi::MidiSwitchReport;
use tp7::output::{LsDisplayOptions, LsSort};
use tp7::pull::{PullFileReport, PullReport, PullStatus};
use tp7::push::{PushFileReport, PushReport, PushStatus};
use tp7::remote::{ObjectKind, RemoteObject};
use tp7::render::{
    connect_lines, device_lines, doctor_lines, eject_lines, ls_display_entries, ls_line,
    ls_size_label, mkdir_lines, process_conflict_line, pull_lines, pull_summary_bytes, push_lines,
    push_summary_bytes, rename_lines, rm_lines, size_with_bytes, stat_lines, status_lines,
    tree_lines, usb_owner_line,
};
use tp7::stat::StatReport;
use tp7::status::{MtpStatus, StatusReport, StorageStatus};
use tp7::tree::{TreeEntry, TreeReport};
use tp7::usb_owner::{UsbOwner, UsbOwnerKind, UsbOwnerScope};
use tp7::write_ops::{MkdirReport, RenameReport, RmReport};

fn device(serial: Option<&str>, address: Option<u8>) -> Tp7Device {
    Tp7Device {
        vendor_id: TP7_VENDOR_ID,
        product_id: TP7_PRODUCT_ID,
        vendor_id_hex: "0x2367".to_string(),
        product_id_hex: "0x0019".to_string(),
        manufacturer: None,
        product: Some("TP-7".to_string()),
        serial_number: serial.map(str::to_string),
        mode: UsbMode::Mtp,
        speed: None,
        usb_version: "2.0.0".to_string(),
        device_version: Some("2.5.7".to_string()),
        class: 0,
        subclass: 0,
        protocol: 0,
        bus_id: Some("01".to_string()),
        device_address: address,
        port_chain: vec![1],
        location_id: None,
        registry_entry_id: None,
        interfaces: vec![UsbInterface {
            number: 0,
            class: 6,
            subclass: 1,
            protocol: 1,
            class_name: "image".to_string(),
            name: Some("MTP".to_string()),
        }],
    }
}

fn object(id: u32, name: &str, kind: ObjectKind, size: u64, modified: Option<&str>) -> RemoteObject {
    RemoteObject {
        id,
        parent_id: 0,
        storage_id: 65537,
        kind,
        name: name.to_string(),
        size,
        modified: modified.map(str::to_string),
    }
}

fn options(long: bool, ids: bool, size: bool) -> LsDisplayOptions {
    LsDisplayOptions {
        long,
        ids,
        size,
        human_readable: false,
        sort: LsSort::Name,
        reverse: false,
    }
}

#[test]
fn renders_no_devices() {
    assert_eq!(device_lines(&[]), vec!["No TP-7 devices found.".to_string()]);
}

#[test]
fn renders_device_block() {
    let lines = device_lines(&[device(Some("ABC"), Some(7))]);
    assert_eq!(
        lines,
        vec![
            "ABC  mtp  0x2367:0x0019  unknown-speed  TP-7",
            "  manufacturer: unknown",
            "  usb version: 2.0.0",
            "  device version: 2.5.7",
            "  bus: 01",
            "  address: 7",
            "  interfaces: 6:1:1 MTP",
        ]
    );
    let without = device_lines(&[device(None, None)]);
    assert_eq!(without[0], "<no-serial>  mtp  0x2367:0x0019  unknown-speed  TP-7");
    assert_eq!(without.len(), 6);
}

#[test]
fn renders_status() {
    let report = StatusReport {
        usb: device(Some("ABC"), None),
        mtp: MtpStatus {
            manufacturer: "teenage engineering".to_string(),
            model: "TP-7".to_string(),
            device_version: "1.1.9".to_string(),
            serial_number: "XYZ".to_string(),
            vendor_extension: None,
            supports_rename: true,
            storage_count: 1,
            storages: vec![StorageStatus {
                id: 65537,
                description: "internal".to_string(),
                volume_identifier: "tp7".to_string(),
                max_capacity_bytes: 1000,
                free_space_bytes: 400,
                free_space_objects: None,
            }],
        },
    };
    assert_eq!(
        status_lines(&report),
        vec![
            "ABC  mtp  TP-7",
            "  mtp: teenage engineering TP-7 (1.1.9)",
            "  mtp serial: XYZ",
            "  supports rename: true",
            "  storages: 1",
            "  - 65537: 400 free of 1000 bytes (internal)",
        ]
    );
}

#[test]
fn renders_connect_with_midi_switch() {
    let report = ConnectReport {
        serial_number: Some("ABC".to_string()),
        initial_mode: UsbMode::AudioMidi,
        final_mode: UsbMode::Mtp,
        mtp_ready: true,
        switched: true,
        midi_switch: Some(MidiSwitchReport {
            device_id: 0,
            command: 0x0b,
            payload: vec!["0x01".to_string(), "0x02".to_string()],
            greet: None,
        }),
        mtp_session: MtpSessionCheck {
            status: MtpSessionStatus::Open,
            storage_count: Some(1),
            message: "opened".to_string(),
        },
        message: "ready".to_string(),
    };
    assert_eq!(
        connect_lines(&report),
        vec![
            "ABC  audio-midi -> mtp  ready",
            "  switched: yes",
            "  mtp session: opened",
            "  storages: 1",
            "  midi switch: command 0x0b, payload 0x01 0x02",
        ]
    );
}

#[test]
fn renders_eject() {
    let report = EjectReport {
        serial_number: None,
        initial_mode: UsbMode::Mtp,
        final_mode: UsbMode::Mtp,
        switched: false,
        closed: true,
        message: "closed".to_string(),
    };
    assert_eq!(
        eject_lines(&report),
        vec!["<no-serial>  mtp -> mtp  closed", "  switched: no", "  closed: yes"]
    );
}

#[test]
fn renders_listing_columns() {
    let file = object(42, "a.wav", ObjectKind::File, 1234, Some("20240126T142000"));
    let folder = object(7, "memo", ObjectKind::Folder, 0, None);
    assert_eq!(ls_line(&file, options(false, false, false), "1234"), "a.wav");
    assert_eq!(ls_line(&folder, options(false, false, false), "0"), "memo/");
    assert_eq!(ls_line(&file, options(false, true, false), "1234"), "        42 a.wav");
    assert_eq!(ls_line(&file, options(false, false, true), "1234"), "        1234 a.wav");
    assert_eq!(ls_line(&file, options(false, true, true), "1234"), "        42         1234 a.wav");
    assert_eq!(
        ls_line(&file, options(true, false, false), "1234"),
        "file           1234 20240126T142000 a.wav"
    );
    assert_eq!(
        ls_line(&folder, options(true, true, false), "0"),
        "         7 folder            0 -               memo/"
    );
}

#[test]
fn chooses_listing_size_labels() {
    assert_eq!(ls_size_label(2048, false, "2.0K"), "2048");
    assert_eq!(ls_size_label(2048, true, "2.0K"), "2.0K");
}

#[test]
fn orders_listing_for_display() {
    let report = LsReport {
        path: "/".to_string(),
        storage_id: 1,
        entries: vec![
            object(1, "a", ObjectKind::File, 5, None),
            object(2, "b", ObjectKind::File, 50, None),
            object(3, "c", ObjectKind::File, 10, None),
        ],
    };
    let mut by_size = options(false, false, false);
    by_size.sort = LsSort::Size;
    by_size.reverse = true;
    let names: Vec<String> = ls_display_entries(report, by_size).into_iter().map(|e| e.name).collect();
    assert_eq!(names, vec!["a", "c", "b"]);
}

#[test]
fn renders_sizes_with_bytes() {
    assert_eq!(size_with_bytes(512, "512B"), "512 bytes");
    assert_eq!(size_with_bytes(2048, "2.0K"), "2.0K (2048 bytes)");
}

#[test]
fn renders_stat() {
    let report = StatReport {
        path: "/memo/a.wav".to_string(),
        object: object(42, "a.wav", ObjectKind::File, 2048, None),
        format: "wav".to_string(),
        format_code: "0x3008".to_string(),
        created: Some("2024-01-26T14:20:00Z".to_string()),
    };
    assert_eq!(
        stat_lines(&report, "2.0K"),
        vec![
            "/memo/a.wav  file  a.wav",
            "  id: 42",
            "  parent: 0",
            "  storage: 65537",
            "  size: 2.0K (2048 bytes)",
            "  format: wav (0x3008)",
            "  created: 2024-01-26T14:20:00Z",
            "  modified: -",
        ]
    );
}

#[test]
fn renders_tree_below_its_root() {
    let report = TreeReport {
        path: "/memo".to_string(),
        storage_id: 1,
        entries: vec![
            TreeEntry {
                path: "/memo/a".to_string(),
                depth: 0,
                object: object(3, "a", ObjectKind::Folder, 0, None),
            },
            TreeEntry {
                path: "/memo/a/b.wav".to_string(),
                depth: 1,
                object: object(4, "b.wav", ObjectKind::File, 1, None),
            },
        ],
    };
    assert_eq!(tree_lines(&report, false), vec!["/memo", "  a/", "    b.wav"]);
    assert_eq!(tree_lines(&report, true), vec!["/memo", "           3 a/", "             4 b.wav"]);
}

#[test]
fn renders_tree_of_single_file() {
    let report = TreeReport {
        path: "/memo/b.wav".to_string(),
        storage_id: 1,
        entries: vec![TreeEntry {
            path: "/memo/b.wav".to_string(),
            depth: 0,
            object: object(4, "b.wav", ObjectKind::File, 1, None),
        }],
    };
    assert_eq!(tree_lines(&report, false), vec!["b.wav"]);
}

#[test]
fn renders_pull_summary() {
    let report = PullReport {
        remote_path: "/memo".to_string(),
        local_path: String::new(),
        dry_run: true,
        downloaded: 0,
        skipped: 1,
        total_bytes: 0,
        files: vec![
            PullFileReport {
                remote_path: "/memo/a.wav".to_string(),
                local_path: "./a.wav".to_string(),
                size: 2000,
                status: PullStatus::DryRun,
            },
            PullFileReport {
                remote_path: "/memo/b.wav".to_string(),
                local_path: "./b.wav".to_string(),
                size: 10,
                status: PullStatus::Skipped,
            },
        ],
    };
    assert_eq!(pull_summary_bytes(&report), 2010);
    assert_eq!(
        pull_lines(&report, &vec!["2.0K".to_string(), "10B".to_string()], "2.0K"),
        vec![
            "would download /memo/a.wav -> ./a.wav (2.0K (2000 bytes))",
            "skipped /memo/b.wav -> ./b.wav (10 bytes)",
            "0 downloaded, 1 skipped, 2.0K (2010 bytes) would download",
        ]
    );
}

#[test]
fn renders_push_summary() {
    let report = PushReport {
        local_path: "./a.wav".to_string(),
        remote_path: "/memo/a.wav".to_string(),
        dry_run: false,
        uploaded: 1,
        total_bytes: 100,
        files: vec![PushFileReport {
            local_path: "./a.wav".to_string(),
            remote_path: "/memo/a.wav".to_string(),
            size: 100,
            status: PushStatus::Uploaded,
        }],
    };
    assert_eq!(push_summary_bytes(&report), 100);
    assert_eq!(
        push_lines(&report, &vec!["100B".to_string()], "100B"),
        vec!["uploaded ./a.wav -> /memo/a.wav (100 bytes)", "1 uploaded, 100 bytes"]
    );
}

#[test]
fn renders_write_reports() {
    let created = MkdirReport { path: "/a/b".to_string(), created: vec!["/a".to_string(), "/a/b".to_string()] };
    assert_eq!(mkdir_lines(&created), vec!["created /a", "created /a/b"]);
    let existing = MkdirReport { path: "/a".to_string(), created: vec![] };
    assert_eq!(mkdir_lines(&existing), vec!["exists /a"]);
    let renamed = RenameReport {
        old_path: "/a.wav".to_string(),
        new_path: "/b.wav".to_string(),
        object: object(1, "b.wav", ObjectKind::File, 1, None),
    };
    assert_eq!(rename_lines(&renamed), vec!["renamed /a.wav -> /b.wav"]);
    let removed = RmReport {
        path: "/a.wav".to_string(),
        dry_run: true,
        removed: vec![object(1, "a.wav", ObjectKind::File, 1, None)],
    };
    assert_eq!(rm_lines(&removed), vec!["would remove /a.wav (file)"]);
    let nothing = RmReport { path: "/a.wav".to_string(), dry_run: false, removed: vec![] };
    assert_eq!(rm_lines(&nothing), vec!["nothing removed"]);
}

#[test]
fn renders_doctor() {
    let report = DoctorReport {
        devices: vec![device(Some("ABC"), None)],
        checks: vec![DoctorCheck {
            status: CheckStatus::Warn,
            name: "mode".to_string(),
            message: "in mtp mode".to_string(),
        }],
        process_conflicts: vec![ProcessConflict {
            pid: 12,
            name: "ptpcamerad".to_string(),
            reason: "claims cameras".to_string(),
        }],
    };
    assert_eq!(
        doctor_lines(&report),
        vec![
            "TP-7 doctor",
            "[warn] mode: in mtp mode",
            "",
            "Possible process conflicts:",
            "- pid 12: ptpcamerad (claims cameras)",
            "",
            "Detected devices:",
            "- ABC (mtp)",
        ]
    );
    assert_eq!(
        process_conflict_line(&report.process_conflicts[0]),
        "- pid 12: ptpcamerad (claims cameras)"
    );
}

#[test]
fn renders_usb_owners() {
    let mut owner = UsbOwner {
        kind: UsbOwnerKind::ExclusiveOwner,
        scope: UsbOwnerScope::Interface,
        scope_node_name: "IOUSBHostInterface@0".to_string(),
        owner_node_name: "owner".to_string(),
        owner_node_class: "class".to_string(),
        interface_number: Some(0),
        interface_name: Some("MTP".to_string()),
        interface_class: Some(6),
        interface_subclass: Some(1),
        interface_protocol: Some(1),
        pid: Some(99),
        process: "ptpcamerad".to_string(),
        raw: String::new(),
    };
    assert_eq!(usb_owner_line(&owner), "- exclusive-owner pid 99: ptpcamerad on interface 0 (MTP)");
    owner.interface_number = None;
    owner.pid = None;
    owner.kind = UsbOwnerKind::UserClient;
    owner.scope = UsbOwnerScope::Device;
    assert_eq!(
        usb_owner_line(&owner),
        "- user-client pid unknown: ptpcamerad on device IOUSBHostInterface@0"
    );
}

#[test]
fn keeps_listing_order_among_equal_entries() {
    let report = LsReport {
        path: "/".to_string(),
        storage_id: 1,
        entries: vec![
            object(1, "same", ObjectKind::File, 5, None),
            object(2, "big", ObjectKind::File, 9, None),
            object(3, "same", ObjectKind::File, 5, None),
        ],
    };
    let mut by_size = options(false, false, false);
    by_size.sort = LsSort::Size;
    let ids: Vec<u32> = ls_display_entries(report, by_size).into_iter().map(|e| e.id).collect();
    assert_eq!(ids, vec![2, 1, 3]);
}
