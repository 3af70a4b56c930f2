use tp7::error::AppError;
use tp7::mount::{
    ByteRange, DavEntry, DavMethod, GetPlan, MountState, PartialNext, PartialOp,
    PartialReadState, PathRequest, RangeTransfer, StoredMountState, StreamWindow,
    content_type_for_name, format_mtp_creation_date, format_mtp_http_date, href_for_remote_path,
    mount_listing_mentions, parse_header_line, parse_range_header, parse_request_line,
    percent_decode_path, percent_encode_component, propfind_body, reason_phrase, remote_path,
    response_head, route_method, strip_token_path, unmount_targets, weekday_name, xml_escape,
};
use tp7::mtp::{DateTime, ObjectInfo};
use tp7::remote::RemoteTarget;

#[test]
fn parses_regular_byte_range() {
    assert_eq!(
        parse_range_header("bytes=10-19", 100).unwrap(),
        ByteRange { start: 10, end: 19 }
    );
}

#[test]
fn parses_open_ended_byte_range() {
    assert_eq!(
        parse_range_header("bytes=95-", 100).unwrap(),
        ByteRange { start: 95, end: 99 }
    );
}

#[test]
fn parses_suffix_byte_range() {
    assert_eq!(
        parse_range_header("bytes=-5", 100).unwrap(),
        ByteRange { start: 95, end: 99 }
    );
}

#[test]
fn rejects_out_of_bounds_byte_range() {
    assert!(parse_range_header("bytes=100-101", 100).is_err());
}

#[test]
fn strips_token_prefix() {
    assert_eq!(strip_token_path("/tp7-token", "tp7-token").as_deref(), Some("/"));
    assert_eq!(
        strip_token_path("/tp7-token/memo/a.wav", "tp7-token").as_deref(),
        Some("memo/a.wav")
    );
    assert_eq!(strip_token_path("/other/memo", "tp7-token"), None);
}

#[test]
fn decodes_percent_encoded_paths() {
    assert_eq!(
        percent_decode_path("/memo/take%201.wav").unwrap(),
        "/memo/take 1.wav"
    );
}

#[test]
fn encodes_href_components() {
    assert_eq!(
        href_for_remote_path("tp7-token", "/memo/take 1.wav", false),
        "/tp7-token/memo/take%201.wav"
    );
}

#[test]
fn formats_mtp_http_date() {
    let datetime = DateTime::new(2026, 5, 8, 12, 30, 45).unwrap();
    assert_eq!(
        format_mtp_http_date(&datetime),
        "Fri, 08 May 2026 12:30:45 GMT"
    );
}

#[test]
fn byte_ranges_are_clamped_and_validated() {
    assert_eq!(parse_range_header("bytes=90-500", 100).unwrap(), ByteRange { start: 90, end: 99 });
    assert_eq!(parse_range_header("bytes=-500", 100).unwrap(), ByteRange { start: 0, end: 99 });
    assert!(parse_range_header("bytes=-0", 100).is_err());
    assert!(parse_range_header("bytes=0-1,4-5", 100).is_err());
    assert!(parse_range_header("bytes=5-4", 100).is_err());
    assert!(parse_range_header("items=0-1", 100).is_err());
    assert!(parse_range_header("bytes=0-1", 0).is_err());
    assert!(parse_range_header("bytes=x-1", 100).is_err());
}

#[test]
fn percent_decoding_rejects_bad_escapes() {
    assert_eq!(percent_decode_path("/a%2"), None);
    assert_eq!(percent_decode_path("/a%zz"), None);
    assert_eq!(percent_decode_path("/a%ff"), None);
    assert_eq!(percent_decode_path("/%C3%A9").as_deref(), Some("/é"));
}

#[test]
fn percent_encoding_then_decoding_gives_back_the_name() {
    for name in ["take 1.wav", "a/b", "é%x", "~ok-_."] {
        let encoded = percent_encode_component(name);
        assert_eq!(percent_decode_path(&encoded).as_deref(), Some(name));
    }
    assert_eq!(percent_encode_component("a b&c"), "a%20b%26c");
}

#[test]
fn folder_hrefs_end_with_a_slash() {
    assert_eq!(href_for_remote_path("t", "/", true), "/t/");
    assert_eq!(href_for_remote_path("t", "/memo", true), "/t/memo/");
}

#[test]
fn escapes_xml_text() {
    assert_eq!(xml_escape("a&b<c>\"d'"), "a&amp;b&lt;c&gt;&quot;d&apos;");
}

#[test]
fn picks_content_types_by_extension() {
    assert_eq!(content_type_for_name("take.WAV"), "audio/wav");
    assert_eq!(content_type_for_name("take.aiff"), "audio/aiff");
    assert_eq!(content_type_for_name("notes.txt"), "text/plain");
    assert_eq!(content_type_for_name("noext"), "application/octet-stream");
}

#[test]
fn formats_dates_and_weekdays() {
    let datetime = DateTime::new(2024, 1, 26, 14, 20, 0).unwrap();
    assert_eq!(format_mtp_creation_date(&datetime), "2024-01-26T14:20:00Z");
    assert_eq!(weekday_name(2024, 1, 26), "Fri");
    assert_eq!(weekday_name(2000, 2, 29), "Tue");
    assert_eq!(weekday_name(1970, 1, 1), "Thu");
}

#[test]
fn maps_request_targets() {
    assert_eq!(remote_path("/t/memo/take%201.wav", "t"), PathRequest::Remote("/memo/take 1.wav".to_string()));
    assert_eq!(remote_path("http://127.0.0.1:80/t/?x=1", "t"), PathRequest::Remote("/".to_string()));
    assert_eq!(remote_path("/t//.tp7-shutdown", "t"), PathRequest::Shutdown);
    assert_eq!(remote_path("/t/.tp7-shutdown", "t"), PathRequest::Remote("/.tp7-shutdown".to_string()));
    assert_eq!(remote_path("/u/memo", "t"), PathRequest::NotFound);
    assert_eq!(remote_path("/t/memo/../x", "t"), PathRequest::NotFound);
}

#[test]
fn routes_methods() {
    assert_eq!(route_method("PROPFIND"), DavMethod::Propfind);
    assert_eq!(route_method("GET"), DavMethod::Get);
    assert_eq!(route_method("DELETE"), DavMethod::Write);
    assert_eq!(route_method("BREW"), DavMethod::Other);
}

#[test]
fn writes_response_heads() {
    let head = response_head(404, &[("Connection".to_string(), "close".to_string())]);
    assert_eq!(head, "HTTP/1.1 404 Not Found\r\nConnection: close\r\n\r\n");
    assert_eq!(reason_phrase(416), "Range Not Satisfiable");
    assert_eq!(reason_phrase(999), "Unknown");
}

#[test]
fn parses_request_and_header_lines() {
    assert_eq!(
        parse_request_line("PROPFIND /t/ HTTP/1.1\r\n"),
        Some(("PROPFIND".to_string(), "/t/".to_string()))
    );
    assert_eq!(parse_request_line("GET"), None);
    assert_eq!(
        parse_header_line(" Depth :  1 "),
        Some(("depth".to_string(), "1".to_string()))
    );
    assert_eq!(parse_header_line("no colon"), None);
}

fn object(handle: u32, name: &str, format: u16, size: u64) -> ObjectInfo {
    ObjectInfo {
        handle,
        storage_id: 65537,
        format,
        association_type: 0,
        parent: 0,
        filename: name.to_string(),
        size,
        created: None,
        modified: DateTime::new(2026, 5, 8, 12, 30, 45),
    }
}

#[test]
fn builds_propfind_entries_and_bodies() {
    let entry = DavEntry::from_object("t", "/", object(3, "a&b.wav", 0x3008, 12));
    assert_eq!(entry.href, "/t/a%26b.wav");
    assert_eq!(entry.etag, "\"3-12-Fri, 08 May 2026 12:30:45 GMT\"");
    assert_eq!(entry.created_iso, "2026-05-08T12:30:45Z");
    assert_eq!(entry.content_type, "audio/wav");
    let body = propfind_body(&[DavEntry::root("t"), entry]);
    assert!(body.starts_with("<?xml version=\"1.0\" encoding=\"utf-8\"?>\n<D:multistatus xmlns:D=\"DAV:\">\n"));
    assert!(body.contains("<D:href>/t/</D:href>"));
    assert!(body.contains("<D:displayname>a&amp;b.wav</D:displayname>"));
    assert!(body.contains("<D:getcontentlength>12</D:getcontentlength>"));
    assert!(body.ends_with("</D:multistatus>\n"));
}

#[test]
fn plans_get_requests() {
    let file = RemoteTarget::Object(object(9, "x.wav", 0x3008, 100));
    match tp7::mount::get_plan(&file, Some("bytes=10-19")) {
        GetPlan::Send { head, handle, offset, length } => {
            assert_eq!((head.status, handle, offset, length), (206, 9, 10, 10));
            assert_eq!(head.headers.last().unwrap().1, "bytes 10-19/100");
        }
        GetPlan::Respond(_) => panic!("expected a body"),
    }
    match tp7::mount::get_plan(&file, Some("bytes=200-")) {
        GetPlan::Respond(r) => {
            assert_eq!(r.status, 416);
            assert_eq!(r.headers[0].1, "bytes */100");
        }
        GetPlan::Send { .. } => panic!("expected a refusal"),
    }
    match tp7::mount::get_plan(&RemoteTarget::Root, None) {
        GetPlan::Respond(r) => assert_eq!(r.status, 403),
        GetPlan::Send { .. } => panic!("expected a refusal"),
    }
}

#[test]
fn partial_reads_fall_back_from_64_to_32_bit() {
    let mut state = PartialReadState::new();
    assert_eq!(state.begin(5), PartialNext::Try(PartialOp::Partial64));
    assert_eq!(state.after_failure(PartialOp::Partial64, true, 5), PartialNext::Try(PartialOp::Partial32));
    assert_eq!(state.begin(5), PartialNext::Try(PartialOp::Partial32));
    assert_eq!(state.begin(1 << 40), PartialNext::Unsupported);
    assert_eq!(state.after_failure(PartialOp::Partial32, true, 5), PartialNext::Fail);
    assert_eq!(state.begin(5), PartialNext::Unsupported);
}

#[test]
fn range_transfers_go_in_chunks() {
    let mut transfer = RangeTransfer::new(0, 3 * 1024 * 1024 + 5);
    assert_eq!(transfer.next_chunk(), Some(1024 * 1024));
    transfer.advance(3 * 1024 * 1024);
    assert_eq!(transfer.next_chunk(), Some(5));
    transfer.advance(5);
    assert_eq!(transfer.next_chunk(), None);
    assert_eq!(RangeTransfer::new(u64::MAX - 1, 10).end, u64::MAX);
}

#[test]
fn stream_windows_skip_then_send() {
    let mut window = StreamWindow::new(10, 15);
    assert_eq!(window.take(8), (8, 0));
    assert_eq!(window.take(8), (2, 6));
    assert_eq!(window.take(100), (0, 9));
    assert_eq!(window.remaining, 0);
}

#[test]
fn finds_mounts_in_mount_output() {
    let output = b"/dev/disk1 on / (apfs)\nhttp://127.0.0.1:1/t/ on /Volumes/TP-7 (webdav, nodev)\n";
    assert!(mount_listing_mentions(output, "/Volumes/TP-7"));
    assert!(!mount_listing_mentions(output, "/Volumes/TP"));
}

fn state(mountpoint: &str, pid: u32) -> StoredMountState {
    StoredMountState {
        state: MountState {
            mountpoint: mountpoint.to_string(),
            url: String::new(),
            port: 1,
            token: "t".to_string(),
            pid,
            serial_number: None,
            read_write: false,
        },
        path: format!("/s/mount-{pid}.json"),
    }
}

#[test]
fn chooses_unmount_targets() {
    let all = unmount_targets(None, vec![state("/a", 1), state("/b", 2)]);
    assert_eq!(all.len(), 2);
    assert_eq!(all[1].mountpoint, "/b");
    let some = unmount_targets(Some("/b".to_string()), vec![state("/a", 1), state("/b", 2), state("/b", 3)]);
    assert_eq!(some.len(), 2);
    assert_eq!(some[1].state.as_ref().unwrap().state.pid, 3);
    let none = unmount_targets(Some("/c".to_string()), vec![state("/a", 1)]);
    assert_eq!(none.len(), 1);
    assert!(none[0].state.is_none());
}

#[test]
fn refuses_read_write_mounts() {
    let error = tp7::mount::check_mount_request(true, true).unwrap_err();
    assert!(matches!(error, AppError::MtpUnsupported { .. }));
    assert!(tp7::mount::check_mount_request(false, true).is_ok());
    assert_eq!(tp7::mount::mountpoint_candidate(0), "/Volumes/TP-7");
    assert_eq!(tp7::mount::mountpoint_candidate(1), "/Volumes/TP-7 2");
    assert_eq!(tp7::mount::format_mount_token(0xab), "tp7-00000000000000ab");
}

#[test]
fn published_hrefs_map_back_to_their_paths() {
    let token = "3f2a9c";
    for (path, folder) in [
        ("/", true),
        ("/", false),
        ("/memo", true),
        ("/memo/take 1.wav", false),
        ("/recordings/2024 #1/ü?.wav", false),
    ] {
        let href = href_for_remote_path(token, path, folder);
        assert_eq!(remote_path(&href, token), PathRequest::Remote(path.to_string()));
    }
}

#[test]
fn leading_white_space_is_lost_on_the_way_back() {
    let href = href_for_remote_path("t", "/ a.wav", false);
    assert_eq!(href, "/t/%20a.wav");
    assert_eq!(remote_path(&href, "t"), PathRequest::Remote("/a.wav".to_string()));
}

#[test]
fn percent_encoding_round_trips_components() {
    for component in ["take 1.wav", "ü?#%", "plain-name_1.~"] {
        let encoded = percent_encode_component(component);
        assert_eq!(percent_decode_path(&encoded).unwrap(), component);
    }
}

#[test]
fn parsed_ranges_stay_inside_the_file() {
    for header in ["bytes=0-", "bytes=5-1000", "bytes=-1000", "bytes=99-99", "bytes=-1"] {
        let range = parse_range_header(header, 100).unwrap();
        assert!(range.start <= range.end && range.end < 100);
    }
    assert_eq!(parse_range_header("bytes=-1000", 100).unwrap(), ByteRange { start: 0, end: 99 });
}

#[test]
fn keeps_mount_records_under_the_home_folder() {
    assert_eq!(
        tp7::mount::state_dir(Some("/Users/me")).unwrap(),
        "/Users/me/Library/Application Support/tp7/mounts"
    );
    assert!(matches!(tp7::mount::state_dir(None), Err(AppError::FileSystem { .. })));
    assert!(tp7::mount::is_state_file("/x/mount-12.json"));
    assert!(!tp7::mount::is_state_file("/x/mount-12.json.tmp"));
    assert!(!tp7::mount::is_state_file("/x/README"));
}
