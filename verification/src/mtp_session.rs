//! Getting an MTP session with the TP-7: whether its current USB mode serves, when to
//! switch it over MIDI, which failures to wait out, and how MTP errors are reported.
use vstd::prelude::*;

use crate::device::{Tp7Device, UsbInterface, UsbMode, has_serial, spec_mode_label};
use crate::error::AppError;
use crate::midi::MidiSwitchReport;
use crate::text::{chars_of, chars_eq, contains_chars, contains_seq};
use crate::usb_owner::{UsbOwner, UsbOwnerKind};

verus! {

/// How a command may bring the TP-7 into MTP mode.
#[derive(Debug, Clone, Copy, PartialEq, Eq, Structural)]
pub enum MtpOpenPolicy {
    /// Only use MTP if it is already visible.
    MtpOnly,
    /// Switch the TP-7 over MIDI when it is in audio/MIDI mode.
    AutoSwitch,
    /// Refuse, asking for `--auto-connect`, when a switch would be needed.
    RequireAutoConnectFlag,
}

/// A TP-7 that shows MTP, with how it got there.
#[derive(Debug, Clone)]
pub struct PreparedMtpDevice {
    pub initial_usb: Tp7Device,
    pub usb: Tp7Device,
    pub switched: bool,
    pub midi_switch: Option<MidiSwitchReport>,
}

/// Whether two device reports agree in every field.
pub open spec fn same_device(a: Tp7Device, b: Tp7Device) -> bool {
    &&& a.vendor_id == b.vendor_id
    &&& a.product_id == b.product_id
    &&& a.vendor_id_hex == b.vendor_id_hex
    &&& a.product_id_hex == b.product_id_hex
    &&& a.manufacturer == b.manufacturer
    &&& a.product == b.product
    &&& a.serial_number == b.serial_number
    &&& a.mode == b.mode
    &&& a.speed == b.speed
    &&& a.usb_version == b.usb_version
    &&& a.device_version == b.device_version
    &&& a.class == b.class
    &&& a.subclass == b.subclass
    &&& a.protocol == b.protocol
    &&& a.bus_id == b.bus_id
    &&& a.device_address == b.device_address
    &&& a.port_chain@ == b.port_chain@
    &&& a.location_id == b.location_id
    &&& a.registry_entry_id == b.registry_entry_id
    &&& a.interfaces@ == b.interfaces@
}

/// A copy of an optional string.
fn copy_opt(o: &Option<String>) -> (res: Option<String>)
    ensures
        res == *o,
{
    match o {
        Some(s) => Some(s.clone()),
        None => None,
    }
}

impl UsbInterface {
    /// A copy of this interface.
    pub fn duplicate(&self) -> (res: Self)
        ensures
            res == *self,
    {
        UsbInterface {
            number: self.number,
            class: self.class,
            subclass: self.subclass,
            protocol: self.protocol,
            class_name: self.class_name.clone(),
            name: copy_opt(&self.name),
        }
    }
}

impl Tp7Device {
    /// A copy of this device report.
    pub fn duplicate(&self) -> (res: Self)
        ensures
            same_device(res, *self),
    {
        let n = self.interfaces.len();
        let mut interfaces: Vec<UsbInterface> = Vec::new();
        for i in 0..n
            invariant
                n == self.interfaces@.len(),
                interfaces@ == self.interfaces@.take(i as int),
        {
            interfaces.push(self.interfaces[i].duplicate());
            assert(self.interfaces@.take(i + 1) =~= self.interfaces@.take(i as int).push(
                self.interfaces@[i as int],
            ));
        }
        assert(self.interfaces@.take(n as int) =~= self.interfaces@);
        let m = self.port_chain.len();
        let mut port_chain: Vec<u8> = Vec::new();
        for i in 0..m
            invariant
                m == self.port_chain@.len(),
                port_chain@ == self.port_chain@.take(i as int),
        {
            port_chain.push(self.port_chain[i]);
            assert(self.port_chain@.take(i + 1) =~= self.port_chain@.take(i as int).push(
                self.port_chain@[i as int],
            ));
        }
        assert(self.port_chain@.take(m as int) =~= self.port_chain@);
        Tp7Device {
            vendor_id: self.vendor_id,
            product_id: self.product_id,
            vendor_id_hex: self.vendor_id_hex.clone(),
            product_id_hex: self.product_id_hex.clone(),
            manufacturer: copy_opt(&self.manufacturer),
            product: copy_opt(&self.product),
            serial_number: copy_opt(&self.serial_number),
            mode: self.mode,
            speed: copy_opt(&self.speed),
            usb_version: self.usb_version.clone(),
            device_version: copy_opt(&self.device_version),
            class: self.class,
            subclass: self.subclass,
            protocol: self.protocol,
            bus_id: copy_opt(&self.bus_id),
            device_address: self.device_address,
            port_chain,
            location_id: copy_opt(&self.location_id),
            registry_entry_id: copy_opt(&self.registry_entry_id),
            interfaces,
        }
    }
}

/// Whether a device shows an MTP interface (alone or among others).
pub open spec fn spec_mtp_visible(device: Tp7Device) -> bool {
    device.mode == UsbMode::Mtp || device.mode == UsbMode::Mixed
}

/// Only a device in MTP or mixed mode shows MTP; in audio/MIDI, mass-storage or an
/// unknown mode it has to be switched (or cannot be used).
pub proof fn lemma_mtp_visible_modes(device: Tp7Device)
    ensures
        spec_mtp_visible(device) <==> (device.mode == UsbMode::Mtp || device.mode == UsbMode::Mixed),
        device.mode == UsbMode::AudioMidi ==> !spec_mtp_visible(device),
        device.mode == UsbMode::MassStorage ==> !spec_mtp_visible(device),
        device.mode == UsbMode::Unknown ==> !spec_mtp_visible(device),
{
}

/// Whether a device shows an MTP interface.
pub fn is_mtp_visible(device: &Tp7Device) -> (res: bool)
    ensures
        res == spec_mtp_visible(*device),
        res <==> (device.mode == UsbMode::Mtp || device.mode == UsbMode::Mixed),
        device.mode == UsbMode::AudioMidi ==> !res,
{
    match device.mode {
        UsbMode::Mtp | UsbMode::Mixed => true,
        _ => false,
    }
}

/// The serial number that errors name: the device's, or `<no-serial>`.
pub open spec fn spec_serial_for_error(device: Tp7Device) -> Seq<char> {
    match device.serial_number {
        Some(s) => s@,
        None => "<no-serial>"@,
    }
}

/// The serial number that errors name.
pub fn serial_for_error(device: &Tp7Device) -> (res: String)
    ensures
        res@ == spec_serial_for_error(*device),
{
    match &device.serial_number {
        Some(s) => s.clone(),
        None => String::from_str("<no-serial>"),
    }
}

/// The error for a device that does not show MTP.
pub fn mtp_not_visible(device: &Tp7Device) -> (res: AppError)
    ensures
        res matches AppError::MtpNotVisible { serial, mode } && serial@ == spec_serial_for_error(
            *device,
        ) && mode@ == spec_mode_label(device.mode),
{
    AppError::MtpNotVisible {
        serial: serial_for_error(device),
        mode: String::from_str(device.mode.label()),
    }
}

/// What preparing the device amounts to once its current state is known.
pub enum PrepareStep {
    /// It shows MTP already.
    Ready(PreparedMtpDevice),
    /// It is in audio/MIDI mode and may be switched over MIDI.
    SwitchNeeded(Tp7Device),
}

/// Decides how to get MTP from the device as it is now: use it when it shows MTP;
/// otherwise only a device in audio/MIDI mode can be switched, and only when the
/// policy allows it.
pub fn prepare_mtp_device(initial_usb: Tp7Device, policy: MtpOpenPolicy) -> (res: Result<PrepareStep, AppError>)
    ensures
        spec_mtp_visible(initial_usb) ==> (res matches Ok(PrepareStep::Ready(p)) && same_device(
            p.initial_usb,
            initial_usb,
        ) && same_device(p.usb, initial_usb) && !p.switched && p.midi_switch.is_none()),
        !spec_mtp_visible(initial_usb) && (initial_usb.mode != UsbMode::AudioMidi || policy
            == MtpOpenPolicy::MtpOnly) ==> (res matches Err(AppError::MtpNotVisible { serial, mode })
            && serial@ == spec_serial_for_error(initial_usb) && mode@ == spec_mode_label(
            initial_usb.mode,
        )),
        !spec_mtp_visible(initial_usb) && initial_usb.mode == UsbMode::AudioMidi && policy
            == MtpOpenPolicy::RequireAutoConnectFlag ==> (res matches Err(
            AppError::AutoConnectRequired { serial, mode },
        ) && serial@ == spec_serial_for_error(initial_usb) && mode@ == spec_mode_label(
            initial_usb.mode,
        )),
        !spec_mtp_visible(initial_usb) && initial_usb.mode == UsbMode::AudioMidi && policy
            == MtpOpenPolicy::AutoSwitch ==> res == Ok::<PrepareStep, AppError>(
            PrepareStep::SwitchNeeded(initial_usb),
        ),
        initial_usb.mode == UsbMode::AudioMidi && policy == MtpOpenPolicy::AutoSwitch ==> res
            == Ok::<PrepareStep, AppError>(PrepareStep::SwitchNeeded(initial_usb)),
        initial_usb.mode == UsbMode::AudioMidi && policy != MtpOpenPolicy::AutoSwitch ==> res
            is Err,
        (initial_usb.mode == UsbMode::Mtp || initial_usb.mode == UsbMode::Mixed) ==> (res matches Ok(
            PrepareStep::Ready(p),
        ) && !p.switched),
        (initial_usb.mode == UsbMode::MassStorage || initial_usb.mode == UsbMode::Unknown) ==> res
            is Err,
{
    if is_mtp_visible(&initial_usb) {
        let copy = initial_usb.duplicate();
        return Ok(
            PrepareStep::Ready(
                PreparedMtpDevice {
                    initial_usb: copy,
                    usb: initial_usb,
                    switched: false,
                    midi_switch: None,
                },
            ),
        );
    }
    if initial_usb.mode != UsbMode::AudioMidi {
        return Err(mtp_not_visible(&initial_usb));
    }
    match policy {
        MtpOpenPolicy::AutoSwitch => Ok(PrepareStep::SwitchNeeded(initial_usb)),
        MtpOpenPolicy::MtpOnly => Err(mtp_not_visible(&initial_usb)),
        MtpOpenPolicy::RequireAutoConnectFlag => Err(
            AppError::AutoConnectRequired {
                serial: serial_for_error(&initial_usb),
                mode: String::from_str(initial_usb.mode.label()),
            },
        ),
    }
}

/// The prepared device after a MIDI switch made it show MTP.
pub fn switched_device(initial_usb: Tp7Device, usb: Tp7Device, midi_switch: MidiSwitchReport) -> (res: PreparedMtpDevice)
    ensures
        res.initial_usb == initial_usb,
        res.usb == usb,
        res.switched,
        res.midi_switch == Some(midi_switch),
{
    PreparedMtpDevice { initial_usb, usb, switched: true, midi_switch: Some(midi_switch) }
}

/// Whether a failure to find the device may pass while it re-enumerates.
pub fn is_transient_device_absence(error: &AppError) -> (res: bool)
    ensures
        res == (error is NoDevices || error is DeviceNotFound),
{
    match error {
        AppError::NoDevices | AppError::DeviceNotFound { .. } => true,
        _ => false,
    }
}

/// Whether a MIDI failure is the endpoints not being there yet.
pub fn is_transient_midi_endpoint_absence(error: &AppError) -> (res: bool)
    ensures
        res == (error matches AppError::Midi { message } && (contains_seq(
            message@,
            "CoreMIDI source endpoint"@,
        ) || contains_seq(message@, "CoreMIDI destination endpoint"@))),
{
    match error {
        AppError::Midi { message } => {
            let m = chars_of(message.as_str());
            contains_chars(m.as_slice(), chars_of("CoreMIDI source endpoint").as_slice())
                || contains_chars(m.as_slice(), chars_of("CoreMIDI destination endpoint").as_slice())
        },
        _ => false,
    }
}

/// Whether to try again after a failure to open the session: only when another process
/// holds the interface and time is left.
pub fn should_retry_open(error: &AppError, before_deadline: bool) -> (res: bool)
    ensures
        res == (error is MtpExclusiveAccess && before_deadline),
{
    match error {
        AppError::MtpExclusiveAccess { .. } => before_deadline,
        _ => false,
    }
}

/// Whether to take the interface over from `ptpcamerad` after the first open failed.
pub fn should_take_over(error: &AppError, take_over: bool) -> (res: bool)
    ensures
        res == (error is MtpExclusiveAccess && take_over),
{
    match error {
        AppError::MtpExclusiveAccess { .. } => take_over,
        _ => false,
    }
}

/// The error for an MTP failure: exclusive access when another process owns the
/// interface, a plain MTP error otherwise; `message` is the failure's description.
pub fn map_mtp_error(exclusive_access: bool, message: String) -> (res: AppError)
    ensures
        exclusive_access ==> res == (AppError::MtpExclusiveAccess { message }),
        !exclusive_access ==> res == (AppError::Mtp { message }),
{
    if exclusive_access {
        AppError::MtpExclusiveAccess { message }
    } else {
        AppError::Mtp { message }
    }
}

/// Whether an owner is a `ptpcamerad` process with a known pid that exclusively owns a
/// node.
pub open spec fn is_ptpcamerad_owner(o: UsbOwner) -> bool {
    o.kind == UsbOwnerKind::ExclusiveOwner && o.process@ == "ptpcamerad"@ && o.pid.is_some()
}

/// Whether `pid` is the pid of a `ptpcamerad` owner among `owners`.
pub open spec fn is_ptpcamerad_pid(owners: Seq<UsbOwner>, pid: u32) -> bool {
    exists|j: int| 0 <= j < owners.len() && #[trigger] is_ptpcamerad_owner(owners[j]) && owners[j].pid == Some(pid)
}

/// The pids of `ptpcamerad` processes that exclusively own a TP-7 node, each once, in
/// the order they first appear.
pub fn ptpcamerad_exclusive_owner_pids(owners: &[UsbOwner]) -> (res: Vec<u32>)
    ensures
        forall|i: int| 0 <= i < res@.len() ==> #[trigger] is_ptpcamerad_pid(owners@, res@[i]),
        forall|j: int|
            0 <= j < owners@.len() && #[trigger] is_ptpcamerad_owner(owners@[j]) ==> res@.contains(
                owners@[j].pid.unwrap(),
            ),
        forall|a: int, b: int| 0 <= a < b < res@.len() ==> res@[a] != res@[b],
{
    let n = owners.len();
    let mut pids: Vec<u32> = Vec::new();
    for j in 0..n
        invariant
            n == owners@.len(),
            forall|i: int| 0 <= i < pids@.len() ==> #[trigger] is_ptpcamerad_pid(owners@, pids@[i]),
            forall|k: int|
                0 <= k < j && #[trigger] is_ptpcamerad_owner(owners@[k]) ==> pids@.contains(
                    owners@[k].pid.unwrap(),
                ),
            forall|a: int, b: int| 0 <= a < b < pids@.len() ==> pids@[a] != pids@[b],
    {
        let owner = &owners[j];
        let name = chars_of(owner.process.as_str());
        let is_ptp = owner.kind == UsbOwnerKind::ExclusiveOwner && crate::text::chars_are(
            name.as_slice(),
            "ptpcamerad",
        );
        if is_ptp {
            if let Some(pid) = owner.pid {
                let mut seen = false;
                for k in 0..pids.len()
                    invariant
                        seen == exists|a: int| 0 <= a < k && pids@[a] == pid,
                {
                    if pids[k] == pid {
                        seen = true;
                    }
                }
                assert(is_ptpcamerad_owner(owners@[j as int]));
                assert(is_ptpcamerad_pid(owners@, pid));
                if !seen {
                    let ghost before = pids@;
                    pids.push(pid);
                    assert forall|i: int| 0 <= i < pids@.len() implies #[trigger] is_ptpcamerad_pid(owners@, pids@[i]) by {
                        if i < before.len() {
                            assert(pids@[i] == before[i]);
                        }
                    }
                    assert forall|k: int|
                        0 <= k < j + 1 && #[trigger] is_ptpcamerad_owner(owners@[k]) implies pids@.contains(
                        owners@[k].pid.unwrap(),
                    ) by {
                        if k < j {
                            assert(before.contains(owners@[k].pid.unwrap()));
                            let w = choose|w: int| 0 <= w < before.len() && before[w] == owners@[k].pid.unwrap();
                            assert(pids@[w] == before[w]);
                        } else {
                            assert(pids@[pids@.len() - 1] == pid);
                        }
                    }
                } else {
                    assert(pids@.contains(pid));
                }
            }
        }
    }
    pids
}

/// The error for a `ptpcamerad` process that could not be terminated.
pub fn takeover_failure(pid: u32, detail: &str) -> (res: AppError)
    ensures
        res matches AppError::MtpTakeover { message } && message@ == "could not terminate ptpcamerad process "@
            + crate::text::spec_decimal(pid as nat) + ": "@ + detail@,
{
    let mut message = String::from_str("could not terminate ptpcamerad process ");
    crate::text::push_decimal(&mut message, pid as u64);
    message.append(": ");
    message.append(detail);
    AppError::MtpTakeover { message }
}

/// The devices a wait for MTP looks at: those with the requested serial number, else
/// with the serial number the device had before the switch, else all.
pub open spec fn spec_wait_candidates(devices: Seq<Tp7Device>, serial: Option<Seq<char>>) -> Seq<Tp7Device> {
    match serial {
        Some(s) => crate::device::devices_with_serial(devices, s),
        None => devices,
    }
}

/// The index of the first device that shows MTP, or -1.
pub open spec fn first_mtp_visible(ds: Seq<Tp7Device>) -> int
    decreases ds.len(),
{
    if ds.len() == 0 {
        -1
    } else if spec_mtp_visible(ds[0]) {
        0
    } else {
        let r = first_mtp_visible(ds.drop_first());
        if r < 0 {
            -1
        } else {
            r + 1
        }
    }
}

/// One look for the switched device: the first device showing MTP among those with the
/// requested serial number (or, without one, the serial number it had before).
#[verifier::loop_isolation(false)]
pub fn find_mtp_device(devices: Vec<Tp7Device>, serial: Option<&str>, fallback_serial: Option<&str>) -> (res: Option<Tp7Device>)
    ensures
        ({
            let wanted = match serial {
                Some(s) => Some(s@),
                None => match fallback_serial {
                    Some(f) => Some(f@),
                    None => None,
                },
            };
            let candidates = spec_wait_candidates(devices@, wanted);
            let i = first_mtp_visible(candidates);
            if i < 0 {
                res.is_none()
            } else {
                res == Some(candidates[i])
            }
        }),
{
    let wanted = match serial {
        Some(s) => Some(s),
        None => fallback_serial,
    };
    let ghost wanted_view = match wanted {
        Some(s) => Some(s@),
        None => None,
    };
    let ghost all = devices@;
    let candidates = match wanted {
        Some(s) => match crate::device::filter_by_serial(devices, Some(s)) {
            Ok(v) => v,
            Err(_) => Vec::new(),
        },
        None => devices,
    };
    assert(candidates@ =~= spec_wait_candidates(all, wanted_view));
    let ghost c = candidates@;
    let n = candidates.len();
    let mut rest = candidates;
    let mut i: usize = 0;
    assert(c.subrange(0, n as int) =~= c);
    while i < n
        invariant
            n == c.len(),
            i <= n,
            rest@ == c.subrange(i as int, n as int),
            first_mtp_visible(c) == if first_mtp_visible(c.subrange(i as int, n as int)) < 0 {
                -1
            } else {
                first_mtp_visible(c.subrange(i as int, n as int)) + i
            },
        decreases n - i,
    {
        let device = rest.remove(0);
        assert(device == c[i as int]);
        assert(c.subrange(i as int, n as int).drop_first() =~= c.subrange(i + 1, n as int));
        assert(c.subrange(i as int, n as int)[0] == c[i as int]);
        if is_mtp_visible(&device) {
            assert(first_mtp_visible(c.subrange(i as int, n as int)) == 0);
            return Some(device);
        }
        i += 1;
    }
    None
}

} // verus!
