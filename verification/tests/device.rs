use tp7::device::{
    TP7_PRODUCT_ID, TP7_VENDOR_ID, Tp7Device, UsbInterface, UsbMode, bcd_version, filter_by_serial,
    format_hex16, format_hex32, format_hex64, infer_usb_mode, interface_summary,
    select_one_device, usb_class_name,
};
use tp7::error::AppError;

fn interface(class: u8, subclass: u8, protocol: u8) -> UsbInterface {
    UsbInterface {
        number: 0,
        class,
        subclass,
        protocol,
        class_name: usb_class_name(class).to_string(),
        name: None,
    }
}

fn tp7_device(serial_number: Option<&str>) -> Tp7Device {
    Tp7Device {
        vendor_id: TP7_VENDOR_ID,
        product_id: TP7_PRODUCT_ID,
        vendor_id_hex: "0x2367".to_string(),
        product_id_hex: "0x0019".to_string(),
        manufacturer: Some("teenage engineering".to_string()),
        product: Some("TP-7".to_string()),
        serial_number: serial_number.map(str::to_string),
        mode: UsbMode::AudioMidi,
        speed: Some("high".to_string()),
        usb_version: "2.0.0".to_string(),
        device_version: Some("2.5.7".to_string()),
        class: 0,
        subclass: 0,
        protocol: 0,
        bus_id: Some("01".to_string()),
        device_address: Some(1),
        port_chain: vec![1],
        location_id: Some("0x01100000".to_string()),
        registry_entry_id: Some("0x00000001000b6528".to_string()),
        interfaces: vec![],
    }
}

#[test]
fn infers_audio_midi_mode() {
    let interfaces = vec![interface(0x01, 0x01, 0), interface(0x01, 0x03, 0)];

    assert_eq!(infer_usb_mode(&interfaces), UsbMode::AudioMidi);
}

#[test]
fn infers_mtp_mode() {
    let interfaces = vec![interface(0x06, 0x01, 0x01)];

    assert_eq!(infer_usb_mode(&interfaces), UsbMode::Mtp);
}

#[test]
fn infers_mixed_mode() {
    let interfaces = vec![interface(0x01, 0x03, 0), interface(0x06, 0x01, 0x01)];

    assert_eq!(infer_usb_mode(&interfaces), UsbMode::Mixed);
}

#[test]
fn filters_by_serial() {
    let devices = vec![tp7_device(Some("A")), tp7_device(Some("B"))];

    let filtered = filter_by_serial(devices, Some("B")).unwrap();

    assert_eq!(filtered.len(), 1);
    assert_eq!(filtered[0].serial_number.as_deref(), Some("B"));
}

#[test]
fn returns_error_for_missing_serial() {
    let devices = vec![tp7_device(Some("A"))];

    let error = filter_by_serial(devices, Some("B")).unwrap_err();

    assert!(matches!(error, AppError::DeviceNotFound { .. }));
}

#[test]
fn selects_one_device() {
    let device = select_one_device(vec![tp7_device(Some("A"))], None).unwrap();

    assert_eq!(device.serial_number.as_deref(), Some("A"));
}

#[test]
fn requires_serial_for_multiple_devices() {
    let devices = vec![tp7_device(Some("A")), tp7_device(Some("B"))];

    let error = select_one_device(devices, None).unwrap_err();

    assert!(matches!(error, AppError::MultipleDevices { count: 2 }));
}

#[test]
fn reports_no_devices_when_none_are_connected() {
    let error = select_one_device(Vec::new(), None).unwrap_err();

    assert!(matches!(error, AppError::NoDevices));
}

#[test]
fn filter_without_serial_keeps_every_device_in_order() {
    let devices = vec![tp7_device(Some("B")), tp7_device(None), tp7_device(Some("A"))];

    let kept = filter_by_serial(devices, None).unwrap();

    assert_eq!(kept.len(), 3);
    assert_eq!(kept[0].serial_number.as_deref(), Some("B"));
    assert_eq!(kept[1].serial_number, None);
    assert_eq!(kept[2].serial_number.as_deref(), Some("A"));
}

#[test]
fn infers_mass_storage_and_unknown_modes() {
    assert_eq!(infer_usb_mode(&[interface(0x08, 0x06, 0x50)]), UsbMode::MassStorage);
    assert_eq!(infer_usb_mode(&[]), UsbMode::Unknown);
    assert_eq!(infer_usb_mode(&[interface(0x03, 0, 0)]), UsbMode::Unknown);
    assert_eq!(
        infer_usb_mode(&[interface(0x08, 0x06, 0x50), interface(0x01, 0x01, 0)]),
        UsbMode::Mixed
    );
}

#[test]
fn formats_hex_ids_and_versions() {
    assert_eq!(format_hex16(0x2367), "0x2367");
    assert_eq!(format_hex16(0x19), "0x0019");
    assert_eq!(format_hex32(0x0110_0000), "0x01100000");
    assert_eq!(format_hex64(0x1_000b_6528), "0x00000001000b6528");
    assert_eq!(bcd_version(0x0200), "2.0.0");
    assert_eq!(bcd_version(0x0257), "2.5.7");
}

#[test]
fn summarizes_interfaces() {
    assert_eq!(interface_summary(&[]), "none");
    let mut named = interface(0x01, 0x03, 0);
    named.name = Some("TP-7 MIDI".to_string());
    let summary = interface_summary(&[interface(0x06, 0x01, 0x01), named]);
    assert_eq!(summary, "6:1:1 still-image, 1:3:0 TP-7 MIDI");
}

#[test]
fn labels_modes() {
    assert_eq!(UsbMode::AudioMidi.label(), "audio-midi");
    assert_eq!(UsbMode::Mtp.label(), "mtp");
    assert_eq!(UsbMode::MassStorage.label(), "mass-storage");
    assert_eq!(usb_class_name(0xff), "vendor-specific");
    assert_eq!(usb_class_name(0x42), "unknown");
}
