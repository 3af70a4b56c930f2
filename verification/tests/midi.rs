use tp7::midi::{is_tp7_endpoint, missing_endpoint};
use tp7::midi::{
    COMMAND_GREET, COMMAND_MODE, MODE_MTP_NEW, STATUS_OK, build_te_request, format_hex_bytes,
    pack_7bit, parse_greet_info, parse_te_response, unpack_7bit,
};

#[test]
fn packs_and_unpacks_7bit_payload() {
    let data = [0x01, 0x03, 0x80, 0xff, b'm', b't', b'p'];

    let packed = pack_7bit(&data);

    assert_eq!(unpack_7bit(&packed), data);
}

#[test]
fn builds_te_mode_request() {
    let request = build_te_request(0x19, 5, COMMAND_MODE, &MODE_MTP_NEW);

    assert_eq!(
        request,
        vec![0xf0, 0x00, 0x20, 0x76, 0x19, 0x40, 0x60, 0x05, 0x04, 0x00, 0x01, 0x03, 0xf7]
    );
}

#[test]
fn parses_te_greet_response() {
    let response = [
        0xf0, 0x00, 0x20, 0x76, 0x19, 0x40, 0x20, 0x01, 0x01, 0x00, 0x00, b'm', b'o', b'd',
        b'e', b':', b'n', b'o', 0x00, b'r', b'm', b'a', b'l', b';', b'p', b'r', 0x00, b'o',
        b'd', b'u', b'c', b't', b':', b'T', 0x00, b'P', b'-', b'7', b';', 0xf7,
    ];

    let parsed = parse_te_response(&response).expect("response parses");
    let greet = parse_greet_info(&parsed.data);

    assert_eq!(parsed.request_id, 1);
    assert_eq!(parsed.command, COMMAND_GREET);
    assert_eq!(parsed.status, STATUS_OK);
    assert_eq!(greet.mode.as_deref(), Some("normal"));
    assert_eq!(greet.product.as_deref(), Some("TP-7"));
}

#[test]
fn unpacking_a_packed_payload_gives_it_back_for_many_lengths() {
    for len in 0..20usize {
        let data: Vec<u8> = (0..len).map(|i| (i as u8).wrapping_mul(37).wrapping_add(0x81)).collect();
        assert_eq!(unpack_7bit(&pack_7bit(&data)), data);
    }
}

#[test]
fn formats_bytes_as_hex() {
    assert_eq!(format_hex_bytes(&[0xf0, 0x00, 0x7f]), "f0 00 7f");
    assert_eq!(format_hex_bytes(&[]), "");
}

#[test]
fn recognises_tp7_endpoints() {
    assert!(is_tp7_endpoint(Some("TP-7"), None));
    assert!(is_tp7_endpoint(None, Some("TP-7 MIDI 1")));
    assert!(!is_tp7_endpoint(Some("OP-1"), Some("TP-7")));
    assert!(!is_tp7_endpoint(None, None));
    assert!(matches!(missing_endpoint(true), tp7::error::AppError::Midi { message } if message.contains("source")));
}

#[test]
fn packed_bytes_fit_in_sysex() {
    let data: Vec<u8> = (0..=255u8).collect();
    assert!(pack_7bit(&data).iter().all(|byte| *byte < 0x80));
}

#[test]
fn ignores_echoed_requests() {
    let request = build_te_request(0, 300, COMMAND_MODE, &MODE_MTP_NEW);
    assert!(matches!(tp7::midi::te_reply(&request, 300, COMMAND_MODE), tp7::midi::TeReply::Ignore));
    assert!(parse_te_response(&request).is_none());
}

#[test]
fn reads_request_ids_back_from_replies() {
    for id in [0u16, 1, 127, 128, 300, 4095] {
        let mut reply = build_te_request(0, id, COMMAND_GREET, &[]);
        reply[6] &= !0x40;
        reply.insert(9, STATUS_OK);
        let parsed = parse_te_response(&reply).unwrap();
        assert_eq!(parsed.request_id, id);
        assert_eq!(parsed.status, STATUS_OK);
    }
}
