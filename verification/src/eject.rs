//! `tp7 eject`: open an MTP session and close it on the device.
use vstd::prelude::*;

use crate::device::UsbMode;
use crate::mtp_session::{MtpOpenPolicy, PreparedMtpDevice};

verus! {

/// The report of `tp7 eject`.
#[derive(Debug, Clone)]
pub struct EjectReport {
    pub serial_number: Option<String>,
    pub initial_mode: UsbMode,
    pub final_mode: UsbMode,
    pub switched: bool,
    pub closed: bool,
    pub message: String,
}

/// The policy `tp7 eject` opens its session with: switching the device needs
/// `--auto-connect`.
pub fn eject_policy(auto_connect: bool) -> (res: MtpOpenPolicy)
    ensures
        res == (if auto_connect {
            MtpOpenPolicy::AutoSwitch
        } else {
            MtpOpenPolicy::RequireAutoConnectFlag
        }),
{
    if auto_connect {
        MtpOpenPolicy::AutoSwitch
    } else {
        MtpOpenPolicy::RequireAutoConnectFlag
    }
}

/// The report of an eject of the prepared device, whose session closed cleanly.
pub fn eject_report(prepared: &PreparedMtpDevice) -> (res: EjectReport)
    ensures
        res.serial_number == prepared.usb.serial_number,
        res.initial_mode == prepared.initial_usb.mode,
        res.final_mode == prepared.usb.mode,
        res.switched == prepared.switched,
        res.closed,
        res.message@ == "MTP session opened and closed cleanly."@,
{
    EjectReport {
        serial_number: match &prepared.usb.serial_number {
            Some(s) => Some(s.clone()),
            None => None,
        },
        initial_mode: prepared.initial_usb.mode,
        final_mode: prepared.usb.mode,
        switched: prepared.switched,
        closed: true,
        message: String::from_str("MTP session opened and closed cleanly."),
    }
}

} // verus!
