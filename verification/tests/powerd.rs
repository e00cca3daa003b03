use cardwire::powerd::{
    detection_failure, nvidia_powerd_enabled, report_finished, run_systemctl, service,
    start_nvidia_powerd, stop_nvidia_powerd, systemctl_args, LogLevel, SystemctlOutcome,
};

fn finished(success: bool, code: Option<i32>, stdout: &[u8], stderr: &[u8]) -> SystemctlOutcome {
    SystemctlOutcome::Finished { success, code, stdout: stdout.to_vec(), stderr: stderr.to_vec() }
}

fn logged(action: &str, outcome: &SystemctlOutcome) -> (LogLevel, String) {
    let line = run_systemctl(action, outcome);
    (line.level, line.text)
}

#[test]
fn service_is_enabled_by_its_output() {
    assert!(nvidia_powerd_enabled(&finished(true, Some(0), b"enabled\n", b"")));
    assert!(nvidia_powerd_enabled(&finished(true, Some(0), b"enabled-runtime\n", b"")));
    assert!(!nvidia_powerd_enabled(&finished(false, Some(1), b"disabled\n", b"")));
    assert!(!nvidia_powerd_enabled(&finished(false, Some(1), b"", b"not found")));
    assert!(!nvidia_powerd_enabled(&finished(true, Some(0), b"enabled\xff", b"")));
    assert!(!nvidia_powerd_enabled(&SystemctlOutcome::TimedOut));
    assert!(!nvidia_powerd_enabled(&SystemctlOutcome::Failed("enabled".to_string())));
}

#[test]
fn runs_are_logged_by_how_they_ended() {
    assert_eq!(
        logged("start", &finished(true, Some(0), b"", b"ignored")),
        (LogLevel::Info, "successfully sent start on nvidia-powerd.service".to_string())
    );
    assert_eq!(
        logged("stop", &finished(false, Some(5), b"", b" Unit not loaded.\n")),
        (
            LogLevel::Warn,
            "error while trying to stop nvidia-powerd: systemctl exited with code 5: Unit not loaded."
                .to_string()
        )
    );
    assert_eq!(
        logged("stop", &finished(false, Some(5), b"", b" \n")),
        (
            LogLevel::Warn,
            "error while trying to stop nvidia-powerd: systemctl exited with code 5".to_string()
        )
    );
    assert_eq!(
        logged("stop", &finished(false, None, b"", b"killed")),
        (
            LogLevel::Warn,
            "error while trying to stop nvidia-powerd: systemctl was terminated: killed".to_string()
        )
    );
    assert_eq!(
        logged("stop", &finished(false, None, b"", b"")),
        (
            LogLevel::Warn,
            "error while trying to stop nvidia-powerd: systemctl was terminated".to_string()
        )
    );
    assert_eq!(
        logged("start", &SystemctlOutcome::Failed("no such file".to_string())),
        (LogLevel::Error, "error while trying to start nvidia-powerd: no such file".to_string())
    );
    assert_eq!(
        logged("start", &SystemctlOutcome::TimedOut),
        (LogLevel::Error, "timed out after 10s while trying to start nvidia-powerd".to_string())
    );
}

#[test]
fn error_output_need_not_be_text() {
    assert_eq!(
        logged("stop", &finished(false, Some(1), b"", b"a\xffb\n")).1,
        "error while trying to stop nvidia-powerd: systemctl exited with code 1: a\u{fffd}b"
    );
}

#[test]
fn details_hold_code_and_error_output() {
    let line = report_finished("start", false, Some(-3), "why");
    assert_eq!(
        line.text,
        "error while trying to start nvidia-powerd: systemctl exited with code -3: why"
    );
}

#[test]
fn failed_detection_is_logged() {
    assert!(detection_failure(&finished(false, None, b"", b"")).is_none());
    let line = detection_failure(&SystemctlOutcome::TimedOut).unwrap();
    assert_eq!(line.text, "timed out after 10s while trying to detect nvidia-powerd");
    let line = detection_failure(&SystemctlOutcome::Failed("no".to_string())).unwrap();
    assert_eq!(line.text, "error while trying to detect nvidia-powerd: no");
    assert_eq!(line.level, LogLevel::Error);
}

#[test]
fn service_is_only_touched_if_enabled() {
    assert_eq!(start_nvidia_powerd(true), ["reset-failed", "start"]);
    assert_eq!(stop_nvidia_powerd(true), ["stop"]);
    assert!(start_nvidia_powerd(false).is_empty());
    assert!(stop_nvidia_powerd(false).is_empty());
    assert_eq!(service(), "nvidia-powerd.service");
    assert_eq!(
        systemctl_args("is-enabled", &vec!["--quiet".to_string()]),
        ["is-enabled", "nvidia-powerd.service", "--quiet"]
    );
}
