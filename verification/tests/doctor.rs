use tp7::doctor::{
    CheckStatus, ProcessConflict, conflict_reason, find_process_conflicts,
    find_process_conflicts_in_ps, parse_ps_line, run_doctor,
};
use tp7::error::AppError;

#[test]
fn parses_process_conflicts_from_ps_output() {
    let output = "\
19731 /Applications/Fi /Applications/FieldKit.app/Contents/MacOS/field kit
42 /usr/bin/true true
";

    let conflicts = find_process_conflicts_in_ps(output);

    assert_eq!(conflicts.len(), 1);
    assert_eq!(conflicts[0].pid, 19731);
    assert!(conflicts[0].reason.contains("FieldKit"));
}

#[test]
fn ignores_empty_and_unrelated_processes() {
    let conflicts = find_process_conflicts_in_ps("\n123 /usr/bin/zsh zsh\n");

    assert!(conflicts.is_empty());
}

#[test]
fn splits_ps_lines_into_pid_command_and_arguments() {
    assert_eq!(
        parse_ps_line("  77 /usr/libexec/ptpcamerad ptpcamerad -x  "),
        Some((77, "/usr/libexec/ptpcamerad".to_string(), "ptpcamerad -x".to_string()))
    );
    assert_eq!(parse_ps_line("88 /bin/sh"), Some((88, "/bin/sh".to_string(), String::new())));
    assert_eq!(parse_ps_line("pid /bin/sh"), None);
    assert_eq!(parse_ps_line("   "), None);
    assert_eq!(parse_ps_line("99"), None);
}

#[test]
fn names_each_known_conflict() {
    assert!(conflict_reason("/Applications/OpenMTP.app/x", "").unwrap().contains("OpenMTP"));
    assert!(conflict_reason("ptpcamerad", "").unwrap().contains("ptpcamerad"));
    assert!(
        conflict_reason("/x/Android File Transfer", "agent").unwrap().contains("Android")
    );
    assert_eq!(conflict_reason("/usr/bin/zsh", "zsh"), None);
}

#[test]
fn reports_ps_failures() {
    let error = find_process_conflicts(false, "exit status: 1", b"").unwrap_err();
    assert!(matches!(error, AppError::ProcessInspection { ref message } if message == "ps exited with exit status: 1"));
    let conflicts = find_process_conflicts(true, "", b"5 ptpcamerad ptpcamerad\n").unwrap();
    assert_eq!(conflicts.len(), 1);
    assert_eq!(conflicts[0].pid, 5);
}

#[test]
fn doctor_checks_without_devices() {
    let report = run_doctor(Vec::new(), None, Vec::new()).unwrap();

    assert_eq!(report.checks.len(), 3);
    assert_eq!(report.checks[0].status, CheckStatus::Error);
    assert_eq!(report.checks[0].name, "tp7-detected");
    assert_eq!(report.checks[1].name, "process-conflicts");
    assert_eq!(report.checks[1].status, CheckStatus::Pass);
    assert_eq!(report.checks[2].name, "implementation-dependency");
    assert_eq!(report.checks[0].status.label(), "error");
}

#[test]
fn doctor_warns_about_conflicts() {
    let conflicts = vec![ProcessConflict {
        pid: 1,
        name: "ptpcamerad".to_string(),
        reason: "macOS ptpcamerad may claim PTP/MTP-class devices.".to_string(),
    }];
    let report = run_doctor(Vec::new(), None, conflicts).unwrap();

    assert_eq!(report.checks[1].status, CheckStatus::Warn);
    assert_eq!(
        report.checks[1].message,
        "Detected 1 process(es) that may compete for TP-7 USB/MTP access."
    );
}

#[test]
fn doctor_refuses_an_unknown_serial() {
    let error = run_doctor(Vec::new(), Some("X"), Vec::new()).unwrap_err();
    assert!(matches!(error, AppError::DeviceNotFound { ref serial } if serial == "X"));
}
