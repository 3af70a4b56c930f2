use tp7::usb_owner::{
    UsbOwnerScope, inspect_tp7_usb_owners, is_conflicting_owner, parse_ioreg_entries,
    parse_ioreg_usb_owners, parse_node_line, parse_owner, parse_property_line,
};

const LISTING: &str = r#"
+-o TP-7@01100000  <class IOUSBHostDevice, id 0x1000b6528, registered>
  | {
  |   "idVendor" = 9063
  |   "idProduct" = 25
  |   "UsbExclusiveOwner" = "pid 1490, MIDIServer"
  | }
  |
  +-o Audio In 0@1  <class IOUSBHostInterface, id 0x1000b6530, registered>
  | | {
  | |   "bInterfaceProtocol" = 0
  | |   "bInterfaceClass" = 1
  | |   "bInterfaceSubClass" = 2
  | |   "UsbExclusiveOwner" = "pid 88951, usbaudiod"
  | |   "kUSBString" = "Audio In 0"
  | |   "bInterfaceNumber" = 1
  | | }
  | |
  | +-o usbaudiod@01100000  <class AppleUSBHostFrameworkInterfaceClient, id 0x1000b6545>
  |     {
  |       "IOUserClientCreator" = "pid 88951, usbaudiod"
  |     }
  |
  +-o field kit  <class AppleUSBHostDeviceUserClient, id 0x1000b6537>
      {
        "IOUserClientCreator" = "pid 19731, field kit"
      }
"#;

#[test]
fn parses_ioreg_device_and_interface_owners() {
    let owners = parse_ioreg_usb_owners(LISTING);

    assert_eq!(owners.len(), 4);
    assert_eq!(owners[0].scope, UsbOwnerScope::Device);
    assert_eq!(owners[0].pid, Some(1490));
    assert_eq!(owners[1].scope, UsbOwnerScope::Interface);
    assert_eq!(owners[1].interface_number, Some(1));
    assert_eq!(owners[1].interface_name.as_deref(), Some("Audio In 0"));
    assert_eq!(owners[2].scope, UsbOwnerScope::Interface);
    assert_eq!(owners[2].interface_number, Some(1));
    assert_eq!(owners[3].scope, UsbOwnerScope::Device);
    assert!(is_conflicting_owner(&owners[3]));
}

#[test]
fn parses_owner_without_pid() {
    let (pid, process) = parse_owner("unknown owner");

    assert_eq!(pid, None);
    assert_eq!(process, "unknown owner");
}

#[test]
fn every_parent_comes_before_its_children() {
    let entries = parse_ioreg_entries(LISTING);
    assert_eq!(entries.len(), 4);
    assert_eq!(entries[0].parent, None);
    assert_eq!(entries[1].parent, Some(0));
    assert_eq!(entries[2].parent, Some(1));
    assert_eq!(entries[3].parent, Some(0));
    for (index, entry) in entries.iter().enumerate() {
        if let Some(parent) = entry.parent {
            assert!(parent < index);
        }
    }
}

#[test]
fn reads_node_and_property_lines() {
    assert_eq!(
        parse_node_line("  | +-o usbaudiod@1  <class AppleUSBHostFrameworkInterfaceClient, id 0x1>"),
        Some((2, "usbaudiod@1".to_string(), "AppleUSBHostFrameworkInterfaceClient".to_string()))
    );
    assert_eq!(parse_node_line("+-o x  <class >"), None);
    assert_eq!(parse_node_line("  | {"), None);
    assert_eq!(
        parse_property_line("  | |   \"kUSBString\" = \"Audio In 0\","),
        Some(("kUSBString".to_string(), "Audio In 0".to_string()))
    );
    assert_eq!(parse_property_line("  | }"), None);
    assert_eq!(parse_owner("pid 12 , ptpcamerad "), (Some(12), "ptpcamerad".to_string()));
    assert_eq!(parse_owner("pid x, y"), (None, "pid x, y".to_string()));
}

#[test]
fn owners_outside_the_tp7_are_left_out() {
    let listing = "+-o Other  <class IOUSBHostDevice, id 1>\n  \"idVendor\" = 1\n  \"UsbExclusiveOwner\" = \"pid 5, x\"\n+-o TP-7  <class IOUSBHostDevice, id 2>\n  \"idVendor\" = 9063\n  \"idProduct\" = 25\n  \"UsbExclusiveOwner\" = \"pid 6, y\"\n";
    let owners = parse_ioreg_usb_owners(listing);
    assert_eq!(owners.len(), 1);
    assert_eq!(owners[0].pid, Some(6));
}

#[test]
fn reports_ioreg_failures() {
    assert!(inspect_tp7_usb_owners(false, "exit status: 1", b"").is_err());
    assert_eq!(inspect_tp7_usb_owners(true, "", LISTING.as_bytes()).unwrap().len(), 4);
}
