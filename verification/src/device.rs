//! TP-7 devices on the USB bus: what the commands report of them, the mode their
//! interfaces reveal, and picking the one device a command works on.
use vstd::prelude::*;

use crate::error::AppError;
use crate::text::{
    lowercase, push_char, push_decimal, push_hex_padded, spec_decimal, spec_hex_padded,
    to_lowercase,
};

verus! {

/// The USB vendor id of teenage engineering.
pub const TP7_VENDOR_ID: u16 = 0x2367;

/// The USB product id of the TP-7.
pub const TP7_PRODUCT_ID: u16 = 0x0019;

/// The USB personality a TP-7 shows.
#[derive(Debug, Clone, Copy, PartialEq, Eq, Structural)]
pub enum UsbMode {
    AudioMidi,
    Mtp,
    MassStorage,
    Mixed,
    Unknown,
}

/// The label of a USB mode.
pub open spec fn spec_mode_label(mode: UsbMode) -> Seq<char> {
    match mode {
        UsbMode::AudioMidi => "audio-midi"@,
        UsbMode::Mtp => "mtp"@,
        UsbMode::MassStorage => "mass-storage"@,
        UsbMode::Mixed => "mixed"@,
        UsbMode::Unknown => "unknown"@,
    }
}

impl UsbMode {
    /// The label of the mode, as the reports print it.
    pub fn label(&self) -> (res: &'static str)
        ensures
            res@ == spec_mode_label(*self),
    {
        match self {
            UsbMode::AudioMidi => "audio-midi",
            UsbMode::Mtp => "mtp",
            UsbMode::MassStorage => "mass-storage",
            UsbMode::Mixed => "mixed",
            UsbMode::Unknown => "unknown",
        }
    }
}

/// A TP-7 as the commands report it.
#[derive(Debug, Clone)]
pub struct Tp7Device {
    pub vendor_id: u16,
    pub product_id: u16,
    pub vendor_id_hex: String,
    pub product_id_hex: String,
    pub manufacturer: Option<String>,
    pub product: Option<String>,
    pub serial_number: Option<String>,
    pub mode: UsbMode,
    pub speed: Option<String>,
    pub usb_version: String,
    pub device_version: Option<String>,
    pub class: u8,
    pub subclass: u8,
    pub protocol: u8,
    pub bus_id: Option<String>,
    pub device_address: Option<u8>,
    pub port_chain: Vec<u8>,
    pub location_id: Option<String>,
    pub registry_entry_id: Option<String>,
    pub interfaces: Vec<UsbInterface>,
}

/// One USB interface of a device.
#[derive(Debug, Clone)]
pub struct UsbInterface {
    pub number: u8,
    pub class: u8,
    pub subclass: u8,
    pub protocol: u8,
    pub class_name: String,
    pub name: Option<String>,
}

/// What the USB host reports of an interface.
#[derive(Debug, Clone)]
pub struct InterfaceDescriptor {
    pub number: u8,
    pub class: u8,
    pub subclass: u8,
    pub protocol: u8,
    pub name: Option<String>,
}

/// What the USB host reports of a device. The fields that only some platforms know
/// are `None` (or empty) elsewhere; `speed` is the name of the host's speed value.
#[derive(Debug, Clone)]
pub struct DeviceDescriptor {
    pub vendor_id: u16,
    pub product_id: u16,
    pub manufacturer: Option<String>,
    pub product: Option<String>,
    pub serial_number: Option<String>,
    pub speed: Option<String>,
    pub usb_version: u16,
    pub device_version: Option<u16>,
    pub class: u8,
    pub subclass: u8,
    pub protocol: u8,
    pub bus_id: Option<String>,
    pub device_address: Option<u8>,
    pub port_chain: Vec<u8>,
    pub location_id: Option<u32>,
    pub registry_entry_id: Option<u64>,
    pub interfaces: Vec<InterfaceDescriptor>,
}

/// Whether a vendor and product id are those of a TP-7.
pub fn is_tp7_ids(vendor_id: u16, product_id: u16) -> (res: bool)
    ensures
        res == (vendor_id == TP7_VENDOR_ID && product_id == TP7_PRODUCT_ID),
{
    vendor_id == TP7_VENDOR_ID && product_id == TP7_PRODUCT_ID
}

/// The name of a USB class code.
pub open spec fn spec_class_name(class: u8) -> Seq<char> {
    if class == 0x01 {
        "audio"@
    } else if class == 0x02 {
        "communications"@
    } else if class == 0x03 {
        "hid"@
    } else if class == 0x06 {
        "still-image"@
    } else if class == 0x08 {
        "mass-storage"@
    } else if class == 0x09 {
        "hub"@
    } else if class == 0x0a {
        "cdc-data"@
    } else if class == 0x0e {
        "video"@
    } else if class == 0xe0 {
        "wireless-controller"@
    } else if class == 0xef {
        "miscellaneous"@
    } else if class == 0xff {
        "vendor-specific"@
    } else {
        "unknown"@
    }
}

/// The name of a USB class code.
pub fn usb_class_name(class: u8) -> (res: &'static str)
    ensures
        res@ == spec_class_name(class),
{
    match class {
        0x01 => "audio",
        0x02 => "communications",
        0x03 => "hid",
        0x06 => "still-image",
        0x08 => "mass-storage",
        0x09 => "hub",
        0x0a => "cdc-data",
        0x0e => "video",
        0xe0 => "wireless-controller",
        0xef => "miscellaneous",
        0xff => "vendor-specific",
        _ => "unknown",
    }
}

/// `0x` and the value in four lower-case hex digits.
pub fn format_hex16(value: u16) -> (res: String)
    ensures
        res@ == "0x"@ + spec_hex_padded(value as nat, 4, false),
{
    let mut s = String::new();
    s.append("0x");
    push_hex_padded(&mut s, value as u64, 4, false);
    s
}

/// `0x` and the value in eight lower-case hex digits.
pub fn format_hex32(value: u32) -> (res: String)
    ensures
        res@ == "0x"@ + spec_hex_padded(value as nat, 8, false),
{
    let mut s = String::new();
    s.append("0x");
    push_hex_padded(&mut s, value as u64, 8, false);
    s
}

/// `0x` and the value in sixteen lower-case hex digits.
pub fn format_hex64(value: u64) -> (res: String)
    ensures
        res@ == "0x"@ + spec_hex_padded(value as nat, 16, false),
{
    let mut s = String::new();
    s.append("0x");
    push_hex_padded(&mut s, value, 16, false);
    s
}

/// A binary-coded version `0xJJMN` as `J.M.N` (major byte, minor and sub-minor nibbles).
pub open spec fn spec_bcd_version(value: u16) -> Seq<char> {
    spec_decimal((value as nat / 256) % 256) + "."@ + spec_decimal((value as nat / 16) % 16)
        + "."@ + spec_decimal(value as nat % 16)
}

/// A binary-coded version as `major.minor.subminor`.
pub fn bcd_version(value: u16) -> (res: String)
    ensures
        res@ == spec_bcd_version(value),
{
    let major = (value >> 8u16) & 0xffu16;
    let minor = (value >> 4u16) & 0x0fu16;
    let sub = value & 0x0fu16;
    assert(major == (value / 256) % 256) by (bit_vector)
        requires
            major == (value >> 8u16) & 0xffu16,
    ;
    assert(minor == (value / 16) % 16) by (bit_vector)
        requires
            minor == (value >> 4u16) & 0x0fu16,
    ;
    assert(sub == value % 16) by (bit_vector)
        requires
            sub == value & 0x0fu16,
    ;
    let mut s = String::new();
    push_decimal(&mut s, major as u64);
    s.append(".");
    push_decimal(&mut s, minor as u64);
    s.append(".");
    push_decimal(&mut s, sub as u64);
    s
}

/// The USB mode that a set of interfaces reveals: MTP alone, mass storage alone, audio
/// or MIDI alone; MTP with anything else, or mass storage with audio, is mixed.
pub open spec fn spec_infer_mode(interfaces: Seq<UsbInterface>) -> UsbMode {
    let has_mtp = exists|i: int|
        0 <= i < interfaces.len() && #[trigger] interfaces[i].class == 0x06 && interfaces[i].subclass
            == 0x01;
    let has_mass_storage = exists|i: int|
        0 <= i < interfaces.len() && #[trigger] interfaces[i].class == 0x08;
    let has_audio = exists|i: int| 0 <= i < interfaces.len() && #[trigger] interfaces[i].class == 0x01;
    if has_mtp && !has_mass_storage && !has_audio {
        UsbMode::Mtp
    } else if !has_mtp && has_mass_storage && !has_audio {
        UsbMode::MassStorage
    } else if !has_mtp && !has_mass_storage && has_audio {
        UsbMode::AudioMidi
    } else if has_mtp || (has_mass_storage && has_audio) {
        UsbMode::Mixed
    } else {
        UsbMode::Unknown
    }
}

/// Whether one of `interfaces` has class `class` (and, when given, subclass `subclass`).
pub open spec fn has_interface(interfaces: Seq<UsbInterface>, class: u8, subclass: Option<u8>) -> bool {
    exists|i: int|
        0 <= i < interfaces.len() && #[trigger] interfaces[i].class == class && (subclass matches Some(
            s,
        ) ==> interfaces[i].subclass == s)
}

/// What the interfaces say of the mode: an MTP interface (class 6, subclass 1) always
/// shows MTP, alone or mixed; the mode is audio/MIDI exactly when there is an audio
/// interface (class 1) and no MTP or mass-storage (class 8) one; a device with no
/// interface of these classes is of unknown mode.
pub proof fn lemma_mode_from_interfaces(interfaces: Seq<UsbInterface>)
    ensures
        has_interface(interfaces, 0x06, Some(0x01u8)) ==> spec_infer_mode(interfaces)
            == UsbMode::Mtp || spec_infer_mode(interfaces) == UsbMode::Mixed,
        spec_infer_mode(interfaces) == UsbMode::Mtp <==> has_interface(interfaces, 0x06, Some(0x01u8))
            && !has_interface(interfaces, 0x08, None) && !has_interface(interfaces, 0x01, None),
        spec_infer_mode(interfaces) == UsbMode::AudioMidi <==> has_interface(interfaces, 0x01, None)
            && !has_interface(interfaces, 0x06, Some(0x01u8)) && !has_interface(
            interfaces,
            0x08,
            None,
        ),
        spec_infer_mode(interfaces) == UsbMode::MassStorage <==> has_interface(interfaces, 0x08, None)
            && !has_interface(interfaces, 0x06, Some(0x01u8)) && !has_interface(
            interfaces,
            0x01,
            None,
        ),
        spec_infer_mode(interfaces) == UsbMode::Unknown <==> !has_interface(interfaces, 0x06, Some(0x01u8))
            && !has_interface(interfaces, 0x08, None) && !has_interface(interfaces, 0x01, None),
{
    let has_mtp = exists|i: int|
        0 <= i < interfaces.len() && #[trigger] interfaces[i].class == 0x06 && interfaces[i].subclass
            == 0x01;
    assert(has_mtp <==> has_interface(interfaces, 0x06, Some(0x01u8))) by {
        if has_mtp {
            let i = choose|i: int|
                0 <= i < interfaces.len() && #[trigger] interfaces[i].class == 0x06
                    && interfaces[i].subclass == 0x01;
            assert(interfaces[i].class == 0x06);
        }
        if has_interface(interfaces, 0x06, Some(0x01u8)) {
            let i = choose|i: int|
                0 <= i < interfaces.len() && #[trigger] interfaces[i].class == 0x06 && (Some(
                    0x01u8,
                ) matches Some(s) ==> interfaces[i].subclass == s);
            assert(interfaces[i].class == 0x06);
        }
    }
}

/// The USB mode that a device's interfaces reveal.
pub fn infer_usb_mode(interfaces: &[UsbInterface]) -> (res: UsbMode)
    ensures
        res == spec_infer_mode(interfaces@),
        has_interface(interfaces@, 0x06, Some(0x01u8)) ==> res == UsbMode::Mtp || res
            == UsbMode::Mixed,
        res == UsbMode::AudioMidi <==> has_interface(interfaces@, 0x01, None) && !has_interface(
            interfaces@,
            0x06,
            Some(0x01u8),
        ) && !has_interface(interfaces@, 0x08, None),
        res == UsbMode::Mtp <==> has_interface(interfaces@, 0x06, Some(0x01u8)) && !has_interface(
            interfaces@,
            0x08,
            None,
        ) && !has_interface(interfaces@, 0x01, None),
{
    proof {
        lemma_mode_from_interfaces(interfaces@);
    }
    let n = interfaces.len();
    let mut has_mtp = false;
    let mut has_mass_storage = false;
    let mut has_audio = false;
    let mut has_midi = false;
    for i in 0..n
        invariant
            n == interfaces@.len(),
            has_mtp == exists|j: int|
                0 <= j < i && #[trigger] interfaces@[j].class == 0x06 && interfaces@[j].subclass
                    == 0x01,
            has_mass_storage == exists|j: int| 0 <= j < i && #[trigger] interfaces@[j].class == 0x08,
            has_audio == exists|j: int| 0 <= j < i && #[trigger] interfaces@[j].class == 0x01,
            has_midi ==> has_audio,
    {
        let interface = &interfaces[i];
        if interface.class == 0x06 && interface.subclass == 0x01 {
            has_mtp = true;
        }
        if interface.class == 0x08 {
            has_mass_storage = true;
        }
        if interface.class == 0x01 {
            has_audio = true;
        }
        if interface.class == 0x01 && interface.subclass == 0x03 {
            has_midi = true;
        }
    }
    let audio = has_audio || has_midi;
    if has_mtp && !has_mass_storage && !audio {
        UsbMode::Mtp
    } else if !has_mtp && has_mass_storage && !audio {
        UsbMode::MassStorage
    } else if !has_mtp && !has_mass_storage && audio {
        UsbMode::AudioMidi
    } else if has_mtp || (has_mass_storage && audio) {
        UsbMode::Mixed
    } else {
        UsbMode::Unknown
    }
}

/// The summary of one interface: `class:subclass:protocol name`, the class name
/// standing in for a missing name.
pub open spec fn spec_interface_item(i: UsbInterface) -> Seq<char> {
    spec_decimal(i.class as nat) + ":"@ + spec_decimal(i.subclass as nat) + ":"@ + spec_decimal(
        i.protocol as nat,
    ) + " "@ + match i.name {
        Some(n) => n@,
        None => i.class_name@,
    }
}

/// The summaries of interfaces joined with `, `.
pub open spec fn spec_interface_items(is: Seq<UsbInterface>) -> Seq<char>
    decreases is.len(),
{
    if is.len() == 0 {
        Seq::empty()
    } else if is.len() == 1 {
        spec_interface_item(is[0])
    } else {
        spec_interface_items(is.drop_last()) + ", "@ + spec_interface_item(is.last())
    }
}

/// The one-line summary of a device's interfaces: `none` when it has none.
pub open spec fn spec_interface_summary(is: Seq<UsbInterface>) -> Seq<char> {
    if is.len() == 0 {
        "none"@
    } else {
        spec_interface_items(is)
    }
}

/// Appends the summary of one interface.
fn push_interface_item(s: &mut String, interface: &UsbInterface)
    ensures
        final(s)@ == old(s)@ + spec_interface_item(*interface),
{
    push_decimal(s, interface.class as u64);
    s.append(":");
    push_decimal(s, interface.subclass as u64);
    s.append(":");
    push_decimal(s, interface.protocol as u64);
    s.append(" ");
    match &interface.name {
        Some(n) => s.append(n.as_str()),
        None => s.append(interface.class_name.as_str()),
    }
}

/// The one-line summary of a device's interfaces.
pub fn interface_summary(interfaces: &[UsbInterface]) -> (res: String)
    ensures
        res@ == spec_interface_summary(interfaces@),
{
    let n = interfaces.len();
    if n == 0 {
        return String::from_str("none");
    }
    let mut s = String::new();
    push_interface_item(&mut s, &interfaces[0]);
    assert(interfaces@.take(1) =~= seq![interfaces@[0]]);
    for i in 1..n
        invariant
            n == interfaces@.len(),
            n >= 1,
            s@ == spec_interface_items(interfaces@.take(i as int)),
    {
        s.append(", ");
        push_interface_item(&mut s, &interfaces[i]);
        assert(interfaces@.take(i + 1).drop_last() =~= interfaces@.take(i as int));
        assert(interfaces@.take(i + 1).last() == interfaces@[i as int]);
    }
    assert(interfaces@.take(n as int) =~= interfaces@);
    s
}

/// The report form of an interface.
pub fn interface_from_descriptor(d: InterfaceDescriptor) -> (res: UsbInterface)
    ensures
        res.number == d.number,
        res.class == d.class,
        res.subclass == d.subclass,
        res.protocol == d.protocol,
        res.class_name@ == spec_class_name(d.class),
        res.name == d.name,
{
    UsbInterface {
        number: d.number,
        class: d.class,
        subclass: d.subclass,
        protocol: d.protocol,
        class_name: String::from_str(usb_class_name(d.class)),
        name: d.name,
    }
}

/// The view of an optional string.
pub open spec fn opt_chars(o: Option<String>) -> Option<Seq<char>> {
    match o {
        Some(s) => Some(s@),
        None => None,
    }
}

/// Whether `dev` is the report of the device `d`: ids in hex, the mode its interfaces
/// reveal, the speed name in lower case, versions in binary-coded form, the location
/// and registry ids in hex, everything else as the host reported it.
pub open spec fn device_matches(dev: Tp7Device, d: DeviceDescriptor) -> bool {
    &&& dev.vendor_id == d.vendor_id
    &&& dev.product_id == d.product_id
    &&& dev.vendor_id_hex@ == "0x"@ + spec_hex_padded(d.vendor_id as nat, 4, false)
    &&& dev.product_id_hex@ == "0x"@ + spec_hex_padded(d.product_id as nat, 4, false)
    &&& dev.manufacturer == d.manufacturer
    &&& dev.product == d.product
    &&& dev.serial_number == d.serial_number
    &&& dev.interfaces@.len() == d.interfaces@.len()
    &&& (forall|i: int|
        0 <= i < d.interfaces@.len() ==> {
            let a = #[trigger] dev.interfaces@[i];
            let b = d.interfaces@[i];
            a.number == b.number && a.class == b.class && a.subclass == b.subclass && a.protocol
                == b.protocol && a.class_name@ == spec_class_name(b.class) && a.name == b.name
        })
    &&& dev.mode == spec_infer_mode(dev.interfaces@)
    &&& opt_chars(dev.speed) == match d.speed {
        Some(s) => Some(lowercase(s@)),
        None => None,
    }
    &&& dev.usb_version@ == spec_bcd_version(d.usb_version)
    &&& opt_chars(dev.device_version) == match d.device_version {
        Some(v) => Some(spec_bcd_version(v)),
        None => None,
    }
    &&& dev.class == d.class
    &&& dev.subclass == d.subclass
    &&& dev.protocol == d.protocol
    &&& dev.bus_id == d.bus_id
    &&& dev.device_address == d.device_address
    &&& dev.port_chain@ == d.port_chain@
    &&& opt_chars(dev.location_id) == match d.location_id {
        Some(v) => Some("0x"@ + spec_hex_padded(v as nat, 8, false)),
        None => None,
    }
    &&& opt_chars(dev.registry_entry_id) == match d.registry_entry_id {
        Some(v) => Some("0x"@ + spec_hex_padded(v as nat, 16, false)),
        None => None,
    }
}

impl Tp7Device {
    /// The report of a device from what the USB host says of it.
    pub fn from_descriptor(d: DeviceDescriptor) -> (res: Self)
        ensures
            device_matches(res, d),
    {
        let ghost d0 = d;
        let DeviceDescriptor {
            vendor_id,
            product_id,
            manufacturer,
            product,
            serial_number,
            speed,
            usb_version,
            device_version,
            class,
            subclass,
            protocol,
            bus_id,
            device_address,
            port_chain,
            location_id,
            registry_entry_id,
            interfaces: descriptors,
        } = d;
        let n = descriptors.len();
        let mut rest = descriptors;
        let ghost all = rest@;
        let mut interfaces: Vec<UsbInterface> = Vec::new();
        let mut i: usize = 0;
        while i < n
            invariant
                n == all.len(),
                i <= n,
                rest@ == all.subrange(i as int, n as int),
                interfaces@.len() == i,
                forall|j: int|
                    0 <= j < i ==> {
                        let a = #[trigger] interfaces@[j];
                        let b = all[j];
                        a.number == b.number && a.class == b.class && a.subclass == b.subclass
                            && a.protocol == b.protocol && a.class_name@ == spec_class_name(b.class)
                            && a.name == b.name
                    },
            decreases n - i,
        {
            let descriptor = rest.remove(0);
            assert(descriptor == all[i as int]);
            assert(rest@ =~= all.subrange(i + 1, n as int));
            interfaces.push(interface_from_descriptor(descriptor));
            i += 1;
        }
        let mode = infer_usb_mode(interfaces.as_slice());
        let speed = match speed {
            Some(s) => Some(to_lowercase(s.as_str())),
            None => None,
        };
        let device_version = match device_version {
            Some(v) => Some(bcd_version(v)),
            None => None,
        };
        let location_id = match location_id {
            Some(v) => Some(format_hex32(v)),
            None => None,
        };
        let registry_entry_id = match registry_entry_id {
            Some(v) => Some(format_hex64(v)),
            None => None,
        };
        Tp7Device {
            vendor_id,
            product_id,
            vendor_id_hex: format_hex16(vendor_id),
            product_id_hex: format_hex16(product_id),
            manufacturer,
            product,
            serial_number,
            mode,
            speed,
            usb_version: bcd_version(usb_version),
            device_version,
            class,
            subclass,
            protocol,
            bus_id,
            device_address,
            port_chain,
            location_id,
            registry_entry_id,
            interfaces,
        }
    }
}

/// Whether a device has the serial number `serial`.
pub open spec fn has_serial(d: Tp7Device, serial: Seq<char>) -> bool {
    d.serial_number matches Some(s) && s@ == serial
}

/// The devices, in order, that have the serial number `serial`.
pub open spec fn devices_with_serial(ds: Seq<Tp7Device>, serial: Seq<char>) -> Seq<Tp7Device>
    decreases ds.len(),
{
    if ds.len() == 0 {
        Seq::empty()
    } else {
        let before = devices_with_serial(ds.drop_last(), serial);
        if has_serial(ds.last(), serial) {
            before.push(ds.last())
        } else {
            before
        }
    }
}

/// The devices kept for a serial number all have it, and every device that has it is
/// kept.
pub proof fn lemma_devices_with_serial(ds: Seq<Tp7Device>, serial: Seq<char>)
    ensures
        forall|k: int|
            0 <= k < devices_with_serial(ds, serial).len() ==> has_serial(
                #[trigger] devices_with_serial(ds, serial)[k],
                serial,
            ),
        forall|i: int|
            0 <= i < ds.len() && has_serial(#[trigger] ds[i], serial) ==> devices_with_serial(
                ds,
                serial,
            ).contains(ds[i]),
        devices_with_serial(ds, serial).len() <= ds.len(),
        devices_with_serial(ds, serial).len() > 0 ==> exists|i: int|
            0 <= i < ds.len() && has_serial(#[trigger] ds[i], serial),
    decreases ds.len(),
{
    if ds.len() > 0 {
        let init = ds.drop_last();
        lemma_devices_with_serial(init, serial);
        let before = devices_with_serial(init, serial);
        if has_serial(ds.last(), serial) {
            assert(has_serial(ds[ds.len() - 1], serial));
        } else if before.len() > 0 {
            let i = choose|i: int| 0 <= i < init.len() && has_serial(#[trigger] init[i], serial);
            assert(has_serial(ds[i], serial));
        }
        assert forall|i: int| 0 <= i < ds.len() && has_serial(#[trigger] ds[i], serial) implies devices_with_serial(
            ds,
            serial,
        ).contains(ds[i]) by {
            if i < ds.len() - 1 {
                assert(init[i] == ds[i]);
                assert(before.contains(ds[i]));
                let w = choose|w: int| 0 <= w < before.len() && before[w] == ds[i];
                if has_serial(ds.last(), serial) {
                    assert(devices_with_serial(ds, serial)[w] == ds[i]);
                }
            } else {
                assert(devices_with_serial(ds, serial).last() == ds[i]);
            }
        }
    }
}

/// Keeps the devices with the requested serial number, in order.
pub fn filter_by_serial(devices: Vec<Tp7Device>, serial: Option<&str>) -> (res: Result<Vec<Tp7Device>, AppError>)
    ensures
        match serial {
            None => res matches Ok(v) && v@ == devices@,
            Some(s) => {
                let kept = devices_with_serial(devices@, s@);
                if kept.len() == 0 {
                    res matches Err(AppError::DeviceNotFound { serial: e }) && e@ == s@
                } else {
                    res matches Ok(v) && v@ == kept
                }
            },
        },
        serial matches Some(s) ==> (res matches Ok(v) ==> (forall|k: int|
            0 <= k < v@.len() ==> has_serial(#[trigger] v@[k], s@)) && (forall|i: int|
            0 <= i < devices@.len() && has_serial(#[trigger] devices@[i], s@) ==> v@.contains(
                devices@[i],
            ))),
        serial matches Some(s) ==> (res is Err <==> forall|i: int|
            0 <= i < devices@.len() ==> !has_serial(#[trigger] devices@[i], s@)),
{
    proof {
        if let Some(s) = serial {
            lemma_devices_with_serial(devices@, s@);
        }
    }
    let serial = match serial {
        Some(s) => s,
        None => {
            return Ok(devices);
        },
    };
    let wanted = crate::text::chars_of(serial);
    let ghost all = devices@;
    let n = devices.len();
    let mut rest = devices;
    let mut kept: Vec<Tp7Device> = Vec::new();
    let mut i: usize = 0;
    while i < n
        invariant
            n == all.len(),
            i <= n,
            rest@ == all.subrange(i as int, n as int),
            wanted@ == serial@,
            kept@ == devices_with_serial(all.take(i as int), serial@),
        decreases n - i,
    {
        let device = rest.remove(0);
        assert(device == all[i as int]);
        assert(rest@ =~= all.subrange(i + 1, n as int));
        assert(all.take(i + 1).drop_last() =~= all.take(i as int));
        assert(all.take(i + 1).last() == all[i as int]);
        let matches = match &device.serial_number {
            Some(s) => {
                let c = crate::text::chars_of(s.as_str());
                crate::text::chars_eq(c.as_slice(), wanted.as_slice())
            },
            None => false,
        };
        if matches {
            kept.push(device);
        }
        i += 1;
    }
    assert(all.take(n as int) =~= all);
    if kept.len() == 0 {
        return Err(AppError::DeviceNotFound { serial: String::from_str(serial) });
    }
    Ok(kept)
}

/// Picks the one device a command works on: after the serial filter, exactly one must
/// remain.
pub fn select_one_device(devices: Vec<Tp7Device>, serial: Option<&str>) -> (res: Result<Tp7Device, AppError>)
    ensures
        ({
            let kept = match serial {
                None => devices@,
                Some(s) => devices_with_serial(devices@, s@),
            };
            match serial {
                Some(s) if devices_with_serial(devices@, s@).len() == 0 => res matches Err(
                    AppError::DeviceNotFound { serial: e },
                ) && e@ == s@,
                _ => if kept.len() == 0 {
                    res matches Err(AppError::NoDevices)
                } else if kept.len() == 1 {
                    res == Ok::<Tp7Device, AppError>(kept[0])
                } else {
                    res matches Err(AppError::MultipleDevices { count }) && count == kept.len()
                },
            }
        }),
        serial matches Some(s) ==> (res matches Ok(d) ==> has_serial(d, s@)),
{
    proof {
        if let Some(s) = serial {
            lemma_devices_with_serial(devices@, s@);
        }
    }
    let mut devices = filter_by_serial(devices, serial)?;
    match devices.len() {
        0 => Err(AppError::NoDevices),
        1 => Ok(devices.remove(0)),
        count => Err(AppError::MultipleDevices { count }),
    }
}

} // verus!
