//! The error type shared by every command, its exit codes and its messages.
use vstd::prelude::*;

use crate::text::{push_decimal, push_hex_padded, spec_decimal, spec_hex_padded};

verus! {

/// Every failure a command can report.
#[derive(Debug, Clone, PartialEq, Eq)]
#[allow(inconsistent_fields)]
pub enum AppError {
    UsbEnumeration { message: String },
    ProcessInspection { message: String },
    UsbOwnershipInspection { message: String },
    DeviceNotFound { serial: String },
    NoDevices,
    MultipleDevices { count: usize },
    MtpNotVisible { serial: String, mode: String },
    AutoConnectRequired { serial: String, mode: String },
    InvalidRemotePath { path: String, message: String },
    RemotePathNotFound { path: String },
    RemotePathNotDirectory { path: String },
    RemotePathIsRoot,
    RemotePathIsFolder { path: String },
    LocalPathExists { path: String },
    LocalPathIsDirectory { path: String },
    LocalPathIsFile { path: String },
    LocalPathIsFolder { path: String },
    RemotePathExists { path: String },
    FileSystem { path: String, message: String },
    TransferVerification { path: String, expected_size: u64, actual_size: u64 },
    InvalidArguments { message: String },
    Mtp { message: String },
    MtpTakeover { message: String },
    MtpUnsupported { message: String },
    MtpExclusiveAccess { message: String },
    Midi { message: String },
    MidiTimeout { message: String },
    MidiCommandRejected { command: u8, status: u8, message: String },
    Runtime { message: String },
    /// JSON output failed; `message` is the serializer's own description.
    Json { message: String },
    NotImplemented { command: String },
    Mount { message: String },
    Unmount { message: String },
}

/// The process exit code for an error.
pub open spec fn spec_exit_code(e: AppError) -> i32 {
    match e {
        AppError::NotImplemented { .. }
        | AppError::InvalidRemotePath { .. }
        | AppError::RemotePathIsRoot
        | AppError::RemotePathIsFolder { .. }
        | AppError::LocalPathExists { .. }
        | AppError::LocalPathIsDirectory { .. }
        | AppError::LocalPathIsFile { .. }
        | AppError::LocalPathIsFolder { .. }
        | AppError::RemotePathExists { .. }
        | AppError::InvalidArguments { .. } => 2,
        AppError::MtpNotVisible { .. } | AppError::AutoConnectRequired { .. } => 3,
        AppError::MtpExclusiveAccess { .. } | AppError::MtpTakeover { .. } => 4,
        AppError::Midi { .. } | AppError::MidiTimeout { .. } | AppError::MidiCommandRejected {
            ..
        } => 5,
        _ => 1,
    }
}

/// Every error ends the program with a non-zero exit code.
pub proof fn lemma_errors_exit_nonzero(e: AppError)
    ensures
        spec_exit_code(e) != 0,
{
}

/// The human-readable description of an error.
pub open spec fn spec_message(e: AppError) -> Seq<char> {
    match e {
        AppError::UsbEnumeration { message } => "USB enumeration failed: "@ + message@,
        AppError::ProcessInspection { message } => "process inspection failed: "@ + message@,
        AppError::UsbOwnershipInspection { message } => "USB ownership inspection failed: "@
            + message@,
        AppError::DeviceNotFound { serial } => "no TP-7 device with serial "@ + serial@
            + " was found"@,
        AppError::NoDevices => "no TP-7 devices were found"@,
        AppError::MultipleDevices { count } => "found "@ + spec_decimal(count as nat)
            + " TP-7 devices; rerun with --device <serial>"@,
        AppError::MtpNotVisible { serial, mode } => "TP-7 "@ + serial@ + " is in "@ + mode@
            + " mode; no MTP-compatible interface is visible"@,
        AppError::AutoConnectRequired { serial, mode } => "TP-7 "@ + serial@ + " is in "@ + mode@
            + " mode; rerun with --auto-connect to switch into MTP mode for this command"@,
        AppError::InvalidRemotePath { path, message } => "invalid remote path "@ + path@ + ": "@
            + message@,
        AppError::RemotePathNotFound { path } => "remote path was not found: "@ + path@,
        AppError::RemotePathNotDirectory { path } => "remote path is not a folder: "@ + path@,
        AppError::RemotePathIsRoot => "remote path is the storage root; use `tp7 ls /` to inspect it"@,
        AppError::RemotePathIsFolder { path } => "remote path is a folder; rerun with --recursive: "@
            + path@,
        AppError::LocalPathExists { path } => "local path already exists; use --overwrite or --skip-existing: "@
            + path@,
        AppError::LocalPathIsDirectory { path } => "local path is a directory: "@ + path@,
        AppError::LocalPathIsFile { path } => "local path is a file: "@ + path@,
        AppError::LocalPathIsFolder { path } => "local path is a folder; use --recursive to upload it: "@
            + path@,
        AppError::RemotePathExists { path } => "remote path already exists; use --overwrite to replace it: "@
            + path@,
        AppError::FileSystem { path, message } => "file operation failed for "@ + path@ + ": "@
            + message@,
        AppError::TransferVerification { path, expected_size, actual_size } =>
            "download verification failed for "@ + path@ + ": expected "@ + spec_decimal(
            expected_size as nat,
        ) + " bytes, got "@ + spec_decimal(actual_size as nat),
        AppError::InvalidArguments { message } => "invalid arguments: "@ + message@,
        AppError::Mtp { message } => "MTP operation failed: "@ + message@,
        AppError::MtpTakeover { message } => "could not take over the TP-7 MTP interface: "@
            + message@,
        AppError::MtpUnsupported { message } => "MTP operation is not supported: "@ + message@,
        AppError::MtpExclusiveAccess { message } => "MTP device is busy or owned by another process: "@
            + message@,
        AppError::Midi { message } => "MIDI operation failed: "@ + message@,
        AppError::MidiTimeout { message } => "MIDI response timed out: "@ + message@,
        AppError::MidiCommandRejected { command, status, message } => "MIDI command 0x"@
            + spec_hex_padded(command as nat, 2, false) + " was rejected with status 0x"@
            + spec_hex_padded(status as nat, 2, false) + ": "@ + message@,
        AppError::Runtime { message } => "runtime initialization failed: "@ + message@,
        AppError::Json { message } => "JSON output failed: "@ + message@,
        AppError::NotImplemented { command } => command@ + " is not implemented yet"@,
        AppError::Mount { message } => "mount failed: "@ + message@,
        AppError::Unmount { message } => "unmount failed: "@ + message@,
    }
}

/// `prefix` followed by `rest`.
fn join2(prefix: &str, rest: &str) -> (res: String)
    ensures
        res@ == prefix@ + rest@,
{
    let mut s = String::from_str(prefix);
    s.append(rest);
    s
}

/// `a`, `b` and `c` in a row.
fn join3(a: &str, b: &str, c: &str) -> (res: String)
    ensures
        res@ == a@ + b@ + c@,
{
    let mut s = String::from_str(a);
    s.append(b);
    s.append(c);
    s
}

impl AppError {
    /// A `NotImplemented` error for the named command.
    pub fn not_implemented(command: &str) -> (res: Self)
        ensures
            res is NotImplemented,
            res->NotImplemented_command@ == command@,
    {
        AppError::NotImplemented { command: String::from_str(command) }
    }

    /// The process exit code: 2 for usage and path errors, 3 when MTP is not visible,
    /// 4 when another process holds the device, 5 for MIDI failures, 1 otherwise.
    pub fn exit_code(&self) -> (code: i32)
        ensures
            code == spec_exit_code(*self),
    {
        match self {
            AppError::NotImplemented { .. }
            | AppError::InvalidRemotePath { .. }
            | AppError::RemotePathIsRoot
            | AppError::RemotePathIsFolder { .. }
            | AppError::LocalPathExists { .. }
            | AppError::LocalPathIsDirectory { .. }
            | AppError::LocalPathIsFile { .. }
            | AppError::LocalPathIsFolder { .. }
            | AppError::RemotePathExists { .. }
            | AppError::InvalidArguments { .. } => 2,
            AppError::MtpNotVisible { .. } | AppError::AutoConnectRequired { .. } => 3,
            AppError::MtpExclusiveAccess { .. } | AppError::MtpTakeover { .. } => 4,
            AppError::Midi { .. } | AppError::MidiTimeout { .. } | AppError::MidiCommandRejected {
                ..
            } => 5,
            _ => 1,
        }
    }

    /// The human-readable description of the error.
    pub fn message(&self) -> (res: String)
        ensures
            res@ == spec_message(*self),
    {
        match self {
            AppError::UsbEnumeration { message } => join2("USB enumeration failed: ", message),
            AppError::ProcessInspection { message } => join2(
                "process inspection failed: ",
                message,
            ),
            AppError::UsbOwnershipInspection { message } => join2(
                "USB ownership inspection failed: ",
                message,
            ),
            AppError::DeviceNotFound { serial } => join3(
                "no TP-7 device with serial ",
                serial,
                " was found",
            ),
            AppError::NoDevices => String::from_str("no TP-7 devices were found"),
            AppError::MultipleDevices { count } => {
                let mut s = String::from_str("found ");
                push_decimal(&mut s, *count as u64);
                s.append(" TP-7 devices; rerun with --device <serial>");
                s
            },
            AppError::MtpNotVisible { serial, mode } => {
                let mut s = join3("TP-7 ", serial, " is in ");
                s.append(mode);
                s.append(" mode; no MTP-compatible interface is visible");
                s
            },
            AppError::AutoConnectRequired { serial, mode } => {
                let mut s = join3("TP-7 ", serial, " is in ");
                s.append(mode);
                s.append(
                    " mode; rerun with --auto-connect to switch into MTP mode for this command",
                );
                s
            },
            AppError::InvalidRemotePath { path, message } => {
                let mut s = join3("invalid remote path ", path, ": ");
                s.append(message);
                s
            },
            AppError::RemotePathNotFound { path } => join2("remote path was not found: ", path),
            AppError::RemotePathNotDirectory { path } => join2(
                "remote path is not a folder: ",
                path,
            ),
            AppError::RemotePathIsRoot => String::from_str(
                "remote path is the storage root; use `tp7 ls /` to inspect it",
            ),
            AppError::RemotePathIsFolder { path } => join2(
                "remote path is a folder; rerun with --recursive: ",
                path,
            ),
            AppError::LocalPathExists { path } => join2(
                "local path already exists; use --overwrite or --skip-existing: ",
                path,
            ),
            AppError::LocalPathIsDirectory { path } => join2("local path is a directory: ", path),
            AppError::LocalPathIsFile { path } => join2("local path is a file: ", path),
            AppError::LocalPathIsFolder { path } => join2(
                "local path is a folder; use --recursive to upload it: ",
                path,
            ),
            AppError::RemotePathExists { path } => join2(
                "remote path already exists; use --overwrite to replace it: ",
                path,
            ),
            AppError::FileSystem { path, message } => {
                let mut s = join3("file operation failed for ", path, ": ");
                s.append(message);
                s
            },
            AppError::TransferVerification { path, expected_size, actual_size } => {
                let mut s = join3("download verification failed for ", path, ": expected ");
                push_decimal(&mut s, *expected_size);
                s.append(" bytes, got ");
                push_decimal(&mut s, *actual_size);
                s
            },
            AppError::InvalidArguments { message } => join2("invalid arguments: ", message),
            AppError::Mtp { message } => join2("MTP operation failed: ", message),
            AppError::MtpTakeover { message } => join2(
                "could not take over the TP-7 MTP interface: ",
                message,
            ),
            AppError::MtpUnsupported { message } => join2(
                "MTP operation is not supported: ",
                message,
            ),
            AppError::MtpExclusiveAccess { message } => join2(
                "MTP device is busy or owned by another process: ",
                message,
            ),
            AppError::Midi { message } => join2("MIDI operation failed: ", message),
            AppError::MidiTimeout { message } => join2("MIDI response timed out: ", message),
            AppError::MidiCommandRejected { command, status, message } => {
                let mut s = String::from_str("MIDI command 0x");
                push_hex_padded(&mut s, *command as u64, 2, false);
                s.append(" was rejected with status 0x");
                push_hex_padded(&mut s, *status as u64, 2, false);
                s.append(": ");
                s.append(message);
                s
            },
            AppError::Runtime { message } => join2("runtime initialization failed: ", message),
            AppError::Json { message } => join2("JSON output failed: ", message),
            AppError::NotImplemented { command } => join2(command, " is not implemented yet"),
            AppError::Mount { message } => join2("mount failed: ", message),
            AppError::Unmount { message } => join2("unmount failed: ", message),
        }
    }
}

} // verus!
