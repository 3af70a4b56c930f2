use tp7::error::AppError;
use tp7::midi::{pack_7bit, unpack_7bit};
use tp7::mtp::ObjectInfo;
use tp7::mount::{MountpointStep, next_mountpoint, percent_encode_component, weekday_name};
use tp7::pull::{DownloadOp, FolderWalk, download_first, download_next, file_destination};
use tp7::push::{TempNameStep, after_destination_resolve, next_temp_attempt};
use tp7::remote::normalize_remote_path;
use tp7::write_ops::start_mkdir;

#[test]
fn takes_the_first_free_mountpoint() {
    assert_eq!(next_mountpoint(0, true), MountpointStep::Use);
    assert_eq!(next_mountpoint(0, false), MountpointStep::Next(1));
    assert_eq!(next_mountpoint(98, false), MountpointStep::Next(99));
    assert_eq!(next_mountpoint(99, false), MountpointStep::Exhausted);
    assert_eq!(next_mountpoint(99, true), MountpointStep::Use);
}

#[test]
fn gives_up_on_temporary_names_after_the_last_attempt() {
    assert_eq!(next_temp_attempt(0, true), TempNameStep::Use);
    assert_eq!(next_temp_attempt(0, false), TempNameStep::Next(1));
    assert_eq!(next_temp_attempt(31, false), TempNameStep::Exhausted);
}

#[test]
fn cleans_up_after_a_failed_download() {
    assert_eq!(download_first(), DownloadOp::Download);
    assert_eq!(download_next(DownloadOp::Download, true), DownloadOp::Rename);
    assert_eq!(download_next(DownloadOp::Download, false), DownloadOp::RemoveTemp);
    assert_eq!(download_next(DownloadOp::Rename, true), DownloadOp::VerifySize);
    assert_eq!(download_next(DownloadOp::Rename, false), DownloadOp::RemoveTemp);
    assert_eq!(download_next(DownloadOp::VerifySize, true), DownloadOp::Done);
    assert_eq!(download_next(DownloadOp::VerifySize, false), DownloadOp::RemoveFinal);
    assert_eq!(download_next(DownloadOp::RemoveTemp, true), DownloadOp::RemoveTemp);
    assert_eq!(download_next(DownloadOp::Done, false), DownloadOp::Done);
}

#[test]
fn packed_groups_carry_top_bits_in_their_leading_byte() {
    let data = [0x81u8, 0x02, 0xff, 0x04, 0x05, 0x06, 0x87, 0x88];
    let packed = pack_7bit(&data);
    assert_eq!(packed.len(), data.len() + (data.len() + 6) / 7);
    assert_eq!(packed[0], 0b0100_0101);
    assert_eq!(&packed[1..8], &[0x01, 0x02, 0x7f, 0x04, 0x05, 0x06, 0x07]);
    assert_eq!(packed[8], 0b0000_0001);
    assert_eq!(packed[9], 0x08);
    assert_eq!(unpack_7bit(&packed), data.to_vec());
}

#[test]
fn percent_encoding_uses_unreserved_ascii_and_upper_case_escapes() {
    let encoded = percent_encode_component("Take é/1 ~ok.wav");
    assert_eq!(encoded, "Take%20%C3%A9%2F1%20~ok.wav");
    let bytes = encoded.as_bytes();
    let mut i = 0;
    while i < bytes.len() {
        let b = bytes[i];
        if b == b'%' {
            assert!(bytes[i + 1].is_ascii_hexdigit() && !bytes[i + 1].is_ascii_lowercase());
            assert!(bytes[i + 2].is_ascii_hexdigit() && !bytes[i + 2].is_ascii_lowercase());
            i += 3;
        } else {
            assert!(b.is_ascii_alphanumeric() || b == b'-' || b == b'_' || b == b'.' || b == b'~');
            i += 1;
        }
    }
}

#[test]
fn normalised_paths_have_a_canonical_shape() {
    assert_eq!(normalize_remote_path("  //a///b/ ").unwrap(), "/a/b");
    assert_eq!(normalize_remote_path("/").unwrap(), "/");
    assert_eq!(normalize_remote_path("").unwrap(), "/");
    let s = normalize_remote_path("x//y/").unwrap();
    assert!(s.starts_with('/') && !s.contains("//") && !s.ends_with('/'));
}

#[test]
fn consecutive_days_have_consecutive_weekdays() {
    assert_eq!(weekday_name(1970, 1, 1), "Thu");
    assert_eq!(weekday_name(1969, 12, 31), "Wed");
    assert_eq!(weekday_name(2024, 2, 29), "Thu");
    assert_eq!(weekday_name(2024, 3, 1), "Fri");
    assert_eq!(weekday_name(2023, 2, 28), "Tue");
    assert_eq!(weekday_name(2023, 3, 1), "Wed");
}

#[test]
fn dot_components_are_reported_with_the_path() {
    let message = "remote paths cannot contain . or .. components";
    match start_mkdir("/a/../b", false) {
        Err(AppError::InvalidRemotePath { path, message: m }) => {
            assert_eq!(path, "/a/../b");
            assert_eq!(m, message);
        }
        _ => panic!("expected an invalid path"),
    }
    let missing = Err(AppError::RemotePathNotFound { path: "/x/./y".to_string() });
    match after_destination_resolve(missing, "/x/./y") {
        Err(AppError::InvalidRemotePath { path, message: m }) => {
            assert_eq!(path, "/x/./y");
            assert_eq!(m, message);
        }
        _ => panic!("expected an invalid path"),
    }
}

#[test]
fn unsafe_remote_names_are_refused_with_their_reason() {
    match file_destination(Some("out/"), false, "..") {
        Err(AppError::InvalidRemotePath { path, message }) => {
            assert_eq!(path, "..");
            assert_eq!(message, "remote object names cannot contain path separators");
        }
        _ => panic!("expected an invalid name"),
    }
    let mut walk = FolderWalk::new();
    let child = ObjectInfo {
        handle: 2,
        storage_id: 1,
        format: 0x3008,
        association_type: 0,
        parent: 0,
        filename: "..".to_string(),
        size: 1,
        created: None,
        modified: None,
    };
    walk.push_children(vec![child], "/memo", "out");
    match walk.next() {
        Some(Err(AppError::InvalidRemotePath { path, message })) => {
            assert_eq!(path, "..");
            assert_eq!(message, "remote object names cannot contain path separators");
        }
        _ => panic!("expected an invalid name"),
    }
}
