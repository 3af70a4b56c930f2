//! `tp7 connect`: bring the TP-7 into MTP mode and check that a session opens.
use vstd::prelude::*;

use crate::device::UsbMode;
use crate::error::{AppError, spec_message};
use crate::midi::MidiSwitchReport;
use crate::mtp_session::{PreparedMtpDevice, is_mtp_visible, spec_mtp_visible};

verus! {

/// The report of `tp7 connect`.
#[derive(Debug, Clone)]
pub struct ConnectReport {
    pub serial_number: Option<String>,
    pub initial_mode: UsbMode,
    pub final_mode: UsbMode,
    pub mtp_ready: bool,
    pub switched: bool,
    pub midi_switch: Option<MidiSwitchReport>,
    pub mtp_session: MtpSessionCheck,
    pub message: String,
}

/// How opening a test session went.
#[derive(Debug, Clone)]
pub struct MtpSessionCheck {
    pub status: MtpSessionStatus,
    pub storage_count: Option<usize>,
    pub message: String,
}

/// Whether a test session opened, was refused because another process holds the
/// interface, or failed otherwise.
#[derive(Debug, Clone, Copy, PartialEq, Eq, Structural)]
pub enum MtpSessionStatus {
    Open,
    Busy,
    Failed,
}

/// The check of a test session from its outcome: the number of storages it saw, or
/// the failure (exclusive access means busy).
pub fn validate_mtp_session(outcome: Result<usize, AppError>) -> (res: MtpSessionCheck)
    ensures
        match outcome {
            Ok(count) => res.status == MtpSessionStatus::Open && res.storage_count == Some(count)
                && res.message@ == "MTP session opened successfully."@,
            Err(AppError::MtpExclusiveAccess { message }) => res.status == MtpSessionStatus::Busy
                && res.storage_count.is_none() && res.message@ == message@,
            Err(e) => res.status == MtpSessionStatus::Failed && res.storage_count.is_none()
                && res.message@ == spec_message(e),
        },
{
    match outcome {
        Ok(storage_count) => MtpSessionCheck {
            status: MtpSessionStatus::Open,
            storage_count: Some(storage_count),
            message: String::from_str("MTP session opened successfully."),
        },
        Err(AppError::MtpExclusiveAccess { message }) => MtpSessionCheck {
            status: MtpSessionStatus::Busy,
            storage_count: None,
            message,
        },
        Err(error) => MtpSessionCheck {
            status: MtpSessionStatus::Failed,
            storage_count: None,
            message: error.message(),
        },
    }
}

/// The summary line of `tp7 connect`.
pub open spec fn spec_connect_message(status: MtpSessionStatus, switched: bool) -> Seq<char> {
    match status {
        MtpSessionStatus::Open => if switched {
            "TP-7 switched to MTP mode and the MTP session opened."@
        } else {
            "TP-7 already exposes MTP and the MTP session opened."@
        },
        MtpSessionStatus::Busy => if switched {
            "TP-7 switched to MTP mode, but another process owns the MTP interface."@
        } else {
            "TP-7 exposes MTP, but another process owns the MTP interface."@
        },
        MtpSessionStatus::Failed => if switched {
            "TP-7 switched to MTP mode, but MTP session validation failed."@
        } else {
            "TP-7 exposes MTP, but MTP session validation failed."@
        },
    }
}

/// The report for a prepared device and the check of its test session.
pub fn ready_report(prepared: PreparedMtpDevice, mtp_session: MtpSessionCheck) -> (res: ConnectReport)
    ensures
        res.serial_number == prepared.usb.serial_number,
        res.initial_mode == prepared.initial_usb.mode,
        res.final_mode == prepared.usb.mode,
        res.mtp_ready == spec_mtp_visible(prepared.usb),
        res.switched == prepared.switched,
        res.midi_switch == prepared.midi_switch,
        res.mtp_session == mtp_session,
        res.message@ == spec_connect_message(mtp_session.status, prepared.switched),
{
    let message = match mtp_session.status {
        MtpSessionStatus::Open => if prepared.switched {
            String::from_str("TP-7 switched to MTP mode and the MTP session opened.")
        } else {
            String::from_str("TP-7 already exposes MTP and the MTP session opened.")
        },
        MtpSessionStatus::Busy => if prepared.switched {
            String::from_str("TP-7 switched to MTP mode, but another process owns the MTP interface.")
        } else {
            String::from_str("TP-7 exposes MTP, but another process owns the MTP interface.")
        },
        MtpSessionStatus::Failed => if prepared.switched {
            String::from_str("TP-7 switched to MTP mode, but MTP session validation failed.")
        } else {
            String::from_str("TP-7 exposes MTP, but MTP session validation failed.")
        },
    };
    let mtp_ready = is_mtp_visible(&prepared.usb);
    let initial_mode = prepared.initial_usb.mode;
    let final_mode = prepared.usb.mode;
    let switched = prepared.switched;
    let PreparedMtpDevice { usb, midi_switch, .. } = prepared;
    ConnectReport {
        serial_number: usb.serial_number,
        initial_mode,
        final_mode,
        mtp_ready,
        switched,
        midi_switch,
        mtp_session,
        message,
    }
}

/// `tp7 connect` once the device is prepared: the report, with the outcome of opening
/// a test session (the number of storages it saw, or its failure).
pub fn run_connect(prepared: PreparedMtpDevice, session: Result<usize, AppError>) -> (res: ConnectReport)
    ensures
        res.serial_number == prepared.usb.serial_number,
        res.switched == prepared.switched,
        res.mtp_ready == spec_mtp_visible(prepared.usb),
        res.message@ == spec_connect_message(res.mtp_session.status, prepared.switched),
        match session {
            Ok(count) => res.mtp_session.status == MtpSessionStatus::Open
                && res.mtp_session.storage_count == Some(count),
            Err(AppError::MtpExclusiveAccess { message }) => res.mtp_session.status
                == MtpSessionStatus::Busy && res.mtp_session.message@ == message@,
            Err(e) => res.mtp_session.status == MtpSessionStatus::Failed
                && res.mtp_session.message@ == spec_message(e),
        },
{
    let check = validate_mtp_session(session);
    ready_report(prepared, check)
}

} // verus!
