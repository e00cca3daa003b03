//! The power daemon of the NVIDIA driver, a systemd service.
use crate::inode::texts;
use crate::text::{
    contains, from_utf8, from_utf8_lossy, has_text, join, lossy_text, signed_decimal, signed_text,
    trim, trimmed,
};
use vstd::prelude::*;
use vstd::string::StringExecFns;
use vstd::utf8::{decode_utf8, valid_utf8};

verus! {

/// Name of the service.
pub fn service() -> (name: &'static str)
    ensures
        name@ == "nvidia-powerd.service"@,
{
    "nvidia-powerd.service"
}

/// How a run of `systemctl` ended.
#[derive(Clone, Debug)]
pub enum SystemctlOutcome {
    /// It ended, on its own or by a signal, in which case it has no code.
    Finished { success: bool, code: Option<i32>, stdout: Vec<u8>, stderr: Vec<u8> },
    /// It could not be run, with the reason.
    Failed(String),
    /// It was still running after ten seconds.
    TimedOut,
}

/// How much a line in the log matters.
#[derive(Copy, Clone, Debug, PartialEq, Eq, Structural)]
pub enum LogLevel {
    Info,
    Warn,
    Error,
}

/// A line for the log.
#[derive(Clone, Debug)]
pub struct LogLine {
    pub level: LogLevel,
    pub text: String,
}

/// What an unsuccessful run tells: its code, if it has one, and what it wrote to its error
/// output, if anything.
pub open spec fn exit_detail(code: Option<i32>, stderr: Seq<char>) -> Seq<char> {
    let how = match code {
        Some(code) => "systemctl exited with code "@ + signed_decimal(code as int),
        None => "systemctl was terminated"@,
    };
    if stderr.len() == 0 {
        how
    } else {
        how + ": "@ + stderr
    }
}

/// What is logged of a run that finished, by the trimmed text of its error output.
pub open spec fn finished_line(
    action: Seq<char>,
    success: bool,
    code: Option<i32>,
    stderr: Seq<char>,
) -> (LogLevel, Seq<char>) {
    if success {
        (LogLevel::Info, "successfully sent "@ + action + " on nvidia-powerd.service"@)
    } else {
        (
            LogLevel::Warn,
            "error while trying to "@ + action + " nvidia-powerd: "@ + exit_detail(code, stderr),
        )
    }
}

/// The arguments that `systemctl` is run with.
pub fn systemctl_args(action: &str, extra_args: &Vec<String>) -> (args: Vec<String>)
    ensures
        texts(args@) == seq![action@, "nvidia-powerd.service"@] + texts(extra_args@),
{
    let mut args: Vec<String> = Vec::new();
    args.push(String::from_str(action));
    args.push(String::from_str(service()));
    let mut i: usize = 0;
    while i < extra_args.len()
        invariant
            i <= extra_args@.len(),
            args@.len() == i + 2,
            args@[0]@ == action@,
            args@[1]@ == "nvidia-powerd.service"@,
            forall|j: int| 0 <= j < i ==> (#[trigger] args@[j + 2])@ == extra_args@[j]@,
        decreases extra_args.len() - i,
    {
        args.push(extra_args[i].clone());
        i = i + 1;
    }
    proof {
        let expected = seq![action@, "nvidia-powerd.service"@] + texts(extra_args@);
        assert forall|j: int| 0 <= j < args@.len() implies texts(args@)[j] == expected[j] by {
            if j >= 2 {
                assert(args@[(j - 2) + 2]@ == extra_args@[j - 2]@);
            }
        }
        assert(texts(args@) =~= expected);
    }
    args
}

fn quoted(before: &str, action: &str, after: &str) -> (text: String)
    ensures
        text@ == before@ + action@ + after@,
{
    let mut text = join(before, action);
    text.append(after);
    text
}

/// The line for a run that finished. `stderr` is the trimmed text of its error output.
pub fn report_finished(action: &str, success: bool, code: Option<i32>, stderr: &str) -> (line:
    LogLine)
    ensures
        (line.level, line.text@) == finished_line(action@, success, code, stderr@),
{
    if success {
        return LogLine {
            level: LogLevel::Info,
            text: quoted("successfully sent ", action, " on nvidia-powerd.service"),
        };
    }
    let mut detail = match code {
        Some(code) => join("systemctl exited with code ", signed_text(code).as_str()),
        None => String::from_str("systemctl was terminated"),
    };
    if stderr.unicode_len() > 0 {
        detail.append(": ");
        detail.append(stderr);
    }
    let mut text = quoted("error while trying to ", action, " nvidia-powerd: ");
    text.append(detail.as_str());
    LogLine { level: LogLevel::Warn, text }
}

/// The line for a run that could not be had.
pub open spec fn is_failure_line(action: Seq<char>, outcome: SystemctlOutcome, line: LogLine) -> bool {
    line.level == LogLevel::Error && line.text@ == match outcome {
        SystemctlOutcome::Failed(err) => "error while trying to "@ + action + " nvidia-powerd: "@
            + err@,
        _ => "timed out after 10s while trying to "@ + action + " nvidia-powerd"@,
    }
}

/// What is logged of a run of `systemctl` with this action on the service.
pub fn run_systemctl(action: &str, outcome: &SystemctlOutcome) -> (line: LogLine)
    ensures
        match *outcome {
            SystemctlOutcome::Finished { success, code, stderr, .. } => (line.level, line.text@)
                == finished_line(action@, success, code, trimmed(lossy_text(stderr@))),
            _ => is_failure_line(action@, *outcome, line),
        },
{
    match outcome {
        SystemctlOutcome::Failed(err) => {
            let mut text = quoted("error while trying to ", action, " nvidia-powerd: ");
            text.append(err.as_str());
            LogLine { level: LogLevel::Error, text }
        },
        SystemctlOutcome::TimedOut => LogLine {
            level: LogLevel::Error,
            text: quoted("timed out after 10s while trying to ", action, " nvidia-powerd"),
        },
        SystemctlOutcome::Finished { success, code, stderr, .. } => {
            let stderr = trim(from_utf8_lossy(stderr.as_slice()).as_str());
            report_finished(action, *success, *code, stderr.as_str())
        },
    }
}

/// Whether the service is enabled, from what `systemctl is-enabled` wrote. Where that could not
/// be had, or is no text, it is not.
pub fn nvidia_powerd_enabled(outcome: &SystemctlOutcome) -> (enabled: bool)
    ensures
        enabled == match *outcome {
            SystemctlOutcome::Finished { stdout, .. } => valid_utf8(stdout@) && has_text(
                decode_utf8(stdout@),
                "enabled"@,
            ),
            _ => false,
        },
{
    match outcome {
        SystemctlOutcome::Finished { stdout, .. } => match from_utf8(stdout.as_slice()) {
            Some(text) => contains(text, "enabled"),
            None => false,
        },
        _ => false,
    }
}

/// What is logged where [`nvidia_powerd_enabled`] had nothing to go by.
pub fn detection_failure(outcome: &SystemctlOutcome) -> (line: Option<LogLine>)
    ensures
        line is None <==> outcome is Finished,
        line matches Some(l) ==> is_failure_line("detect"@, *outcome, l),
{
    match outcome {
        SystemctlOutcome::Finished { .. } => None,
        _ => Some(run_systemctl("detect", outcome)),
    }
}

/// The actions that stop the service.
pub fn stop_nvidia_powerd(enabled: bool) -> (actions: Vec<&'static str>)
    ensures
        !enabled ==> actions@.len() == 0,
        enabled ==> actions@.len() == 1 && actions@[0]@ == "stop"@,
{
    let mut actions: Vec<&'static str> = Vec::new();
    if enabled {
        actions.push("stop");
    }
    actions
}

/// The actions that start the service: its failed state is reset first.
pub fn start_nvidia_powerd(enabled: bool) -> (actions: Vec<&'static str>)
    ensures
        !enabled ==> actions@.len() == 0,
        enabled ==> actions@.len() == 2 && actions@[0]@ == "reset-failed"@ && actions@[1]@
            == "start"@,
{
    let mut actions: Vec<&'static str> = Vec::new();
    if enabled {
        actions.push("reset-failed");
        actions.push("start");
    }
    actions
}

} // verus!
