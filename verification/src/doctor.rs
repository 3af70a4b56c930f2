//! `tp7 doctor`: the checks it reports about the connected TP-7 and about processes
//! that may compete for its USB interfaces.
use vstd::prelude::*;

use crate::device::{Tp7Device, UsbMode, devices_with_serial, filter_by_serial};
use crate::error::AppError;
use crate::text::{
    char_is_whitespace, chars_of, contains_chars, contains_seq, from_utf8_lossy, is_white_space,
    lines_of, lowercase, parse_unsigned, push_decimal, slice_chars, spec_decimal,
    spec_lines, spec_parse_unsigned, spec_trim, string_of, to_lowercase, trim_chars, utf8_lossy,
};

verus! {

/// The report of `tp7 doctor`.
#[derive(Debug, Clone)]
pub struct DoctorReport {
    pub devices: Vec<Tp7Device>,
    pub checks: Vec<DoctorCheck>,
    pub process_conflicts: Vec<ProcessConflict>,
}

/// The outcome of one check.
#[derive(Debug, Clone, Copy, PartialEq, Eq, Structural)]
pub enum CheckStatus {
    Pass,
    Warn,
    Error,
}

impl CheckStatus {
    /// The label of the outcome, as the reports print it.
    pub fn label(&self) -> (res: &'static str)
        ensures
            res@ == (match self {
                CheckStatus::Pass => "ok"@,
                CheckStatus::Warn => "warn"@,
                CheckStatus::Error => "error"@,
            }),
    {
        match self {
            CheckStatus::Pass => "ok",
            CheckStatus::Warn => "warn",
            CheckStatus::Error => "error",
        }
    }
}

/// One check of `tp7 doctor`.
#[derive(Debug, Clone)]
pub struct DoctorCheck {
    pub status: CheckStatus,
    pub name: String,
    pub message: String,
}

/// A running process that may compete for the TP-7.
#[derive(Debug, Clone, PartialEq, Eq)]
pub struct ProcessConflict {
    pub pid: u32,
    pub name: String,
    pub reason: String,
}

/// Whether a check has the given outcome, name and message.
pub open spec fn check_is(c: DoctorCheck, status: CheckStatus, name: Seq<char>, message: Seq<char>) -> bool {
    c.status == status && c.name@ == name && c.message@ == message
}

/// A check.
fn check(status: CheckStatus, name: &str, message: &str) -> (res: DoctorCheck)
    ensures
        check_is(res, status, name@, message@),
{
    DoctorCheck { status, name: String::from_str(name), message: String::from_str(message) }
}

/// The check of the mode of the one connected device.
pub open spec fn spec_mode_check(mode: UsbMode) -> (CheckStatus, Seq<char>) {
    match mode {
        UsbMode::Mtp => (CheckStatus::Pass, "The TP-7 currently exposes an MTP-compatible interface."@),
        UsbMode::AudioMidi => (
            CheckStatus::Warn,
            "The TP-7 is currently in audio/MIDI mode. MTP file commands will need the TP-7 mode-switch path."@,
        ),
        UsbMode::MassStorage => (
            CheckStatus::Warn,
            "The TP-7 appears as mass storage, not MTP. This is unexpected for current TP-7 research."@,
        ),
        UsbMode::Mixed => (
            CheckStatus::Warn,
            "The TP-7 exposes a mixed set of USB interfaces. Verify before claiming interfaces."@,
        ),
        UsbMode::Unknown => (
            CheckStatus::Warn,
            "The TP-7 USB mode could not be inferred from visible interfaces."@,
        ),
    }
}

/// The check of the mode of the one connected device, named `visible-mtp-mode`.
pub fn mode_check(device: &Tp7Device) -> (res: DoctorCheck)
    ensures
        check_is(res, spec_mode_check(device.mode).0, "visible-mtp-mode"@, spec_mode_check(device.mode).1),
{
    match device.mode {
        UsbMode::Mtp => check(
            CheckStatus::Pass,
            "visible-mtp-mode",
            "The TP-7 currently exposes an MTP-compatible interface.",
        ),
        UsbMode::AudioMidi => check(
            CheckStatus::Warn,
            "visible-mtp-mode",
            "The TP-7 is currently in audio/MIDI mode. MTP file commands will need the TP-7 mode-switch path.",
        ),
        UsbMode::MassStorage => check(
            CheckStatus::Warn,
            "visible-mtp-mode",
            "The TP-7 appears as mass storage, not MTP. This is unexpected for current TP-7 research.",
        ),
        UsbMode::Mixed => check(
            CheckStatus::Warn,
            "visible-mtp-mode",
            "The TP-7 exposes a mixed set of USB interfaces. Verify before claiming interfaces.",
        ),
        UsbMode::Unknown => check(
            CheckStatus::Warn,
            "visible-mtp-mode",
            "The TP-7 USB mode could not be inferred from visible interfaces.",
        ),
    }
}

/// Whether `checks` are the checks of `tp7 doctor` for these devices and conflicts:
/// detection, then the mode of a single device (or a warning about several), then
/// process conflicts, then the note on implementation dependencies.
pub open spec fn is_doctor_checks(checks: Seq<DoctorCheck>, devices: Seq<Tp7Device>, conflicts: nat) -> bool {
    let detection = if devices.len() == 0 {
        checks[0].status == CheckStatus::Error && checks[0].name@ == "tp7-detected"@
            && checks[0].message@ == "No TP-7 device was found over USB."@
    } else {
        checks[0].status == CheckStatus::Pass && checks[0].name@ == "tp7-detected"@
            && checks[0].message@ == "Found "@ + spec_decimal(devices.len()) + " TP-7 device(s)."@
    };
    let mode_checks: int = if devices.len() == 0 {
        0
    } else {
        1
    };
    let mode = if devices.len() == 1 {
        check_is(
            checks[1],
            spec_mode_check(devices[0].mode).0,
            "visible-mtp-mode"@,
            spec_mode_check(devices[0].mode).1,
        )
    } else if devices.len() > 1 {
        check_is(
            checks[1],
            CheckStatus::Warn,
            "multiple-devices"@,
            "Multiple TP-7 devices are connected. Use --device <serial> once device-specific commands are implemented."@,
        )
    } else {
        true
    };
    let c = checks[1 + mode_checks];
    let process = if conflicts == 0 {
        check_is(
            c,
            CheckStatus::Pass,
            "process-conflicts"@,
            "No known MTP/TE companion app conflicts were detected."@,
        )
    } else {
        check_is(
            c,
            CheckStatus::Warn,
            "process-conflicts"@,
            "Detected "@ + spec_decimal(conflicts)
                + " process(es) that may compete for TP-7 USB/MTP access."@,
        )
    };
    &&& checks.len() == 3 + mode_checks
    &&& detection
    &&& mode
    &&& process
    &&& check_is(
        checks[2 + mode_checks],
        CheckStatus::Pass,
        "implementation-dependency"@,
        "This CLI uses direct USB enumeration; FieldKit/Dia are not implementation dependencies."@,
    )
}

/// The report of `tp7 doctor` for the devices a `--device` serial leaves and the
/// process conflicts found (none when they could not be inspected).
pub fn run_doctor(devices: Vec<Tp7Device>, serial: Option<&str>, process_conflicts: Vec<ProcessConflict>) -> (res: Result<DoctorReport, AppError>)
    ensures
        ({
            let kept = match serial {
                None => devices@,
                Some(s) => devices_with_serial(devices@, s@),
            };
            match serial {
                Some(s) if kept.len() == 0 => res matches Err(AppError::DeviceNotFound { serial: e })
                    && e@ == s@,
                _ => res matches Ok(r) && r.devices@ == kept && r.process_conflicts@ == process_conflicts@
                    && is_doctor_checks(r.checks@, kept, process_conflicts@.len()),
            }
        }),
{
    let devices = filter_by_serial(devices, serial)?;
    let mut checks: Vec<DoctorCheck> = Vec::new();
    if devices.len() == 0 {
        checks.push(check(CheckStatus::Error, "tp7-detected", "No TP-7 device was found over USB."));
    } else {
        let mut message = String::from_str("Found ");
        push_decimal(&mut message, devices.len() as u64);
        message.append(" TP-7 device(s).");
        checks.push(
            DoctorCheck { status: CheckStatus::Pass, name: String::from_str("tp7-detected"), message },
        );
    }
    if devices.len() == 1 {
        checks.push(mode_check(&devices[0]));
    } else if devices.len() > 1 {
        checks.push(
            check(
                CheckStatus::Warn,
                "multiple-devices",
                "Multiple TP-7 devices are connected. Use --device <serial> once device-specific commands are implemented.",
            ),
        );
    }
    if process_conflicts.len() == 0 {
        checks.push(
            check(
                CheckStatus::Pass,
                "process-conflicts",
                "No known MTP/TE companion app conflicts were detected.",
            ),
        );
    } else {
        let mut message = String::from_str("Detected ");
        push_decimal(&mut message, process_conflicts.len() as u64);
        message.append(" process(es) that may compete for TP-7 USB/MTP access.");
        checks.push(
            DoctorCheck {
                status: CheckStatus::Warn,
                name: String::from_str("process-conflicts"),
                message,
            },
        );
    }
    checks.push(
        check(
            CheckStatus::Pass,
            "implementation-dependency",
            "This CLI uses direct USB enumeration; FieldKit/Dia are not implementation dependencies.",
        ),
    );
    Ok(DoctorReport { devices, checks, process_conflicts })
}

// ---------------------------------------------------------------------------
// Process conflicts
// ---------------------------------------------------------------------------

/// The index of the first white-space character of `s`, or -1.
pub open spec fn first_white_space(s: Seq<char>) -> int
    decreases s.len(),
{
    if s.len() == 0 {
        -1
    } else if is_white_space(s[0]) {
        0
    } else {
        let r = first_white_space(s.drop_first());
        if r < 0 {
            -1
        } else {
            r + 1
        }
    }
}

/// `s` split once at its first white-space character (`splitn(2, char::is_whitespace)`).
pub open spec fn split_at_white_space(s: Seq<char>) -> Option<(Seq<char>, Seq<char>)> {
    let i = first_white_space(s);
    if i < 0 {
        None
    } else {
        Some((s.subrange(0, i), s.subrange(i + 1, s.len() as int)))
    }
}

/// A line of `ps -axo pid=,comm=,args=`: the pid, the command and its arguments.
pub open spec fn spec_ps_line(line: Seq<char>) -> Option<(u32, Seq<char>, Seq<char>)> {
    let t = spec_trim(line);
    if t.len() == 0 {
        None
    } else {
        match split_at_white_space(t) {
            None => None,
            Some((pid, rest)) => match spec_parse_unsigned(pid, u32::MAX as int) {
                None => None,
                Some(p) => {
                    let r = spec_trim(rest);
                    match split_at_white_space(r) {
                        Some((command, args)) => Some((p as u32, command, args)),
                        None => Some((p as u32, r, Seq::empty())),
                    }
                },
            },
        }
    }
}

proof fn lemma_first_white_space(s: Seq<char>)
    ensures
        -1 <= first_white_space(s) < s.len(),
        first_white_space(s) >= 0 ==> is_white_space(s[first_white_space(s)]),
    decreases s.len(),
{
    if s.len() > 0 && !is_white_space(s[0]) {
        lemma_first_white_space(s.drop_first());
    }
}

/// Splits characters at their first white space.
fn split_white_space_chars(s: &[char]) -> (res: Option<(Vec<char>, Vec<char>)>)
    ensures
        match res {
            Some((a, b)) => split_at_white_space(s@) == Some((a@, b@)),
            None => split_at_white_space(s@).is_none(),
        },
{
    let n = s.len();
    let mut i: usize = 0;
    assert(s@.subrange(0, n as int) =~= s@);
    while i < n && !char_is_whitespace(s[i])
        invariant
            n == s@.len(),
            i <= n,
            first_white_space(s@) == if first_white_space(s@.subrange(i as int, n as int)) < 0 {
                -1
            } else {
                first_white_space(s@.subrange(i as int, n as int)) + i
            },
        decreases n - i,
    {
        assert(s@.subrange(i as int, n as int).drop_first() =~= s@.subrange(i + 1, n as int));
        i += 1;
    }
    if i == n {
        return None;
    }
    let a = slice_chars(s, 0, i);
    let b = slice_chars(s, i + 1, n);
    Some((a, b))
}

/// The pid, command and arguments of a `ps` line.
pub fn parse_ps_line(line: &str) -> (res: Option<(u32, String, String)>)
    ensures
        match res {
            Some((pid, command, args)) => spec_ps_line(line@) == Some((pid, command@, args@)),
            None => spec_ps_line(line@).is_none(),
        },
{
    let chars = chars_of(line);
    let t = trim_chars(chars.as_slice());
    if t.len() == 0 {
        return None;
    }
    let (pid, rest) = match split_white_space_chars(t.as_slice()) {
        Some(p) => p,
        None => {
            return None;
        },
    };
    let pid = match parse_unsigned(pid.as_slice(), 0xffff_ffffu64) {
        Some(p) => p as u32,
        None => {
            return None;
        },
    };
    let r = trim_chars(rest.as_slice());
    match split_white_space_chars(r.as_slice()) {
        Some((command, args)) => Some((pid, string_of(command.as_slice()), string_of(args.as_slice()))),
        None => Some((pid, string_of(r.as_slice()), String::new())),
    }
}

/// Why a process may compete for the TP-7, judged by `command args` in lower case.
pub open spec fn spec_conflict_reason(haystack: Seq<char>) -> Option<Seq<char>> {
    if contains_seq(haystack, "fieldkit.app"@) || contains_seq(haystack, "/fieldkit"@) {
        Some("FieldKit may own the TP-7 USB device while it is open."@)
    } else if contains_seq(haystack, "android file transfer"@) || contains_seq(
        haystack,
        "android-file-transfer"@,
    ) {
        Some("Android File Transfer-style tools commonly claim MTP devices."@)
    } else if contains_seq(haystack, "openmtp"@) {
        Some("OpenMTP commonly claims MTP devices."@)
    } else if contains_seq(haystack, "ptpcamerad"@) {
        Some("macOS ptpcamerad may claim PTP/MTP-class devices."@)
    } else {
        None
    }
}

/// Whether characters contain the string `lit`.
fn has(h: &[char], lit: &str) -> (res: bool)
    ensures
        res == contains_seq(h@, lit@),
{
    let n = chars_of(lit);
    contains_chars(h, n.as_slice())
}

/// Why a process may compete for the TP-7, if it may.
pub fn conflict_reason(command: &str, args: &str) -> (res: Option<String>)
    ensures
        match res {
            Some(r) => spec_conflict_reason(lowercase(command@ + " "@ + args@)) == Some(r@),
            None => spec_conflict_reason(lowercase(command@ + " "@ + args@)).is_none(),
        },
{
    let mut joined = String::from_str(command);
    joined.append(" ");
    joined.append(args);
    let lower = to_lowercase(joined.as_str());
    let h = chars_of(lower.as_str());
    let h = h.as_slice();
    if has(h, "fieldkit.app") || has(h, "/fieldkit") {
        return Some(String::from_str("FieldKit may own the TP-7 USB device while it is open."));
    }
    if has(h, "android file transfer") || has(h, "android-file-transfer") {
        return Some(
            String::from_str("Android File Transfer-style tools commonly claim MTP devices."),
        );
    }
    if has(h, "openmtp") {
        return Some(String::from_str("OpenMTP commonly claims MTP devices."));
    }
    if has(h, "ptpcamerad") {
        return Some(String::from_str("macOS ptpcamerad may claim PTP/MTP-class devices."));
    }
    None
}

/// The conflicts among the first `n` lines of `ps` output, in order.
pub open spec fn spec_conflicts(lines: Seq<Seq<char>>) -> Seq<(u32, Seq<char>, Seq<char>)>
    decreases lines.len(),
{
    if lines.len() == 0 {
        Seq::empty()
    } else {
        let before = spec_conflicts(lines.drop_last());
        match spec_ps_line(lines.last()) {
            Some((pid, command, args)) => match spec_conflict_reason(
                lowercase(command + " "@ + args),
            ) {
                Some(reason) => before.push((pid, command, reason)),
                None => before,
            },
            None => before,
        }
    }
}

/// The view of a conflict.
pub open spec fn conflict_view(c: ProcessConflict) -> (u32, Seq<char>, Seq<char>) {
    (c.pid, c.name@, c.reason@)
}

/// The processes in `ps` output that may compete for the TP-7, in order.
pub fn find_process_conflicts_in_ps(ps_output: &str) -> (res: Vec<ProcessConflict>)
    ensures
        res@.map_values(|c: ProcessConflict| conflict_view(c)) == spec_conflicts(spec_lines(ps_output@)),
{
    let chars = chars_of(ps_output);
    let lines = lines_of(chars.as_slice());
    let ghost ls = spec_lines(ps_output@);
    let n = lines.len();
    let mut conflicts: Vec<ProcessConflict> = Vec::new();
    for i in 0..n
        invariant
            n == ls.len(),
            n == lines@.len(),
            forall|j: int| 0 <= j < n ==> #[trigger] lines@[j]@ == ls[j],
            conflicts@.map_values(|c: ProcessConflict| conflict_view(c)) == spec_conflicts(ls.take(i as int)),
    {
        assert(ls.take(i + 1).drop_last() =~= ls.take(i as int));
        assert(ls.take(i + 1).last() == ls[i as int]);
        let ghost before = conflicts@;
        let line = string_of(lines[i].as_slice());
        if let Some((pid, command, args)) = parse_ps_line(line.as_str()) {
            if let Some(reason) = conflict_reason(command.as_str(), args.as_str()) {
                conflicts.push(ProcessConflict { pid, name: command, reason });
                assert(conflicts@.map_values(|c: ProcessConflict| conflict_view(c)) =~= before.map_values(
                    |c: ProcessConflict| conflict_view(c),
                ).push(conflict_view(conflicts@.last())));
            }
        }
    }
    assert(ls.take(n as int) =~= ls);
    conflicts
}

/// The process conflicts from the outcome of `ps`: its exit status must be a success
/// (`status` describes it), and its output is read leniently as UTF-8.
pub fn find_process_conflicts(success: bool, status: &str, stdout: &[u8]) -> (res: Result<Vec<ProcessConflict>, AppError>)
    ensures
        !success ==> (res matches Err(AppError::ProcessInspection { message }) && message@
            == "ps exited with "@ + status@),
        success ==> (res matches Ok(v) && v@.map_values(|c: ProcessConflict| conflict_view(c))
            == spec_conflicts(spec_lines(utf8_lossy(stdout@)))),
{
    if !success {
        let mut message = String::from_str("ps exited with ");
        message.append(status);
        return Err(AppError::ProcessInspection { message });
    }
    let text = from_utf8_lossy(stdout);
    Ok(find_process_conflicts_in_ps(text.as_str()))
}

} // verus!
