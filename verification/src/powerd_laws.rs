//! What holds of the runs of `systemctl` on the power daemon.
use crate::inode::texts;
use crate::powerd::{
    detection_failure, nvidia_powerd_enabled, report_finished, run_systemctl, start_nvidia_powerd,
    stop_nvidia_powerd, systemctl_args, LogLevel, LogLine, SystemctlOutcome,
};
use crate::text::{has_text, lossy_text, occurs_at, signed_decimal, trimmed};
use vstd::prelude::*;
use vstd::utf8::{decode_utf8, valid_utf8};

verus! {

/// The middle of three pieces of text stands in the whole.
proof fn lemma_middle(before: Seq<char>, text: Seq<char>, after: Seq<char>)
    ensures
        has_text(before + text + after, text),
{
    let whole = before + text + after;
    let i = before.len() as int;
    assert(whole.subrange(i, i + text.len()) =~= text);
    assert(occurs_at(whole, text, i));
}

/// The action comes first, then the service, then the other arguments as they are.
pub proof fn law_arguments_name_the_service(
    action: &str,
    extra_args: Vec<String>,
    args: Vec<String>,
)
    requires
        call_ensures(systemctl_args, (action, &extra_args), args),
    ensures
        args@.len() == extra_args@.len() + 2,
        args@[0]@ == action@,
        args@[1]@ == "nvidia-powerd.service"@,
        forall|i: int| 0 <= i < extra_args@.len() ==> args@[i + 2]@ == (#[trigger] extra_args@[i])@,
{
    let all = texts(args@);
    assert(all.len() == args@.len());
    assert(texts(extra_args@).len() == extra_args@.len());
    assert(all[0] == args@[0]@);
    assert(all[1] == args@[1]@);
    assert forall|i: int| 0 <= i < extra_args@.len() implies args@[i + 2]@ == (
    #[trigger] extra_args@[i])@ by {
        assert(all[i + 2] == args@[i + 2]@);
        assert(texts(extra_args@)[i] == extra_args@[i]@);
    }
}

/// A run that went well is worth a note, and one that did not a warning. Either line tells the
/// action, and that of an unsuccessful run tells its code, if it has one, and what it wrote to its
/// error output.
pub proof fn law_finished_run_is_told(
    action: &str,
    success: bool,
    code: Option<i32>,
    stderr: &str,
    line: LogLine,
)
    requires
        call_ensures(report_finished, (action, success, code, stderr), line),
    ensures
        success <==> line.level == LogLevel::Info,
        !success <==> line.level == LogLevel::Warn,
        has_text(line.text@, action@),
        !success ==> (code matches Some(c) ==> has_text(line.text@, signed_decimal(c as int))),
        !success ==> has_text(line.text@, stderr@),
{
    if success {
        lemma_middle("successfully sent "@, action@, " on nvidia-powerd.service"@);
    } else {
        let head = "error while trying to "@ + action@ + " nvidia-powerd: "@;
        let tail = if stderr@.len() == 0 {
            Seq::empty()
        } else {
            ": "@ + stderr@
        };
        match code {
            Some(c) => {
                let how = "systemctl exited with code "@;
                let number = signed_decimal(c as int);
                assert(line.text@ =~= (head + how) + number + tail);
                lemma_middle(head + how, number, tail);
                assert(line.text@ =~= "error while trying to "@ + action@ + (" nvidia-powerd: "@
                    + how + number + tail));
                lemma_middle(
                    "error while trying to "@,
                    action@,
                    " nvidia-powerd: "@ + how + number + tail,
                );
                if stderr@.len() > 0 {
                    assert(line.text@ =~= (head + how + number + ": "@) + stderr@ + Seq::empty());
                    lemma_middle(head + how + number + ": "@, stderr@, Seq::empty());
                }
            },
            None => {
                let how = "systemctl was terminated"@;
                assert(line.text@ =~= "error while trying to "@ + action@ + (" nvidia-powerd: "@
                    + how + tail));
                lemma_middle("error while trying to "@, action@, " nvidia-powerd: "@ + how + tail);
                if stderr@.len() > 0 {
                    assert(line.text@ =~= (head + how + ": "@) + stderr@ + Seq::empty());
                    lemma_middle(head + how + ": "@, stderr@, Seq::empty());
                }
            },
        }
        if stderr@.len() == 0 {
            lemma_middle(line.text@, stderr@, Seq::empty());
            assert(line.text@ + stderr@ + Seq::empty() =~= line.text@);
        }
    }
}

/// A run that finished is told by its own code and error output, trimmed. One that could not be
/// had is an error, and where there is a reason it is told.
pub proof fn law_run_is_told_by_its_outcome(action: &str, outcome: SystemctlOutcome, line: LogLine)
    requires
        call_ensures(run_systemctl, (action, &outcome), line),
    ensures
        outcome matches SystemctlOutcome::Finished { success, stderr, .. } ==> {
            &&& success <==> line.level == LogLevel::Info
            &&& !success <==> line.level == LogLevel::Warn
        },
        outcome is Finished <==> line.level != LogLevel::Error,
        !(outcome is Finished) ==> has_text(line.text@, action@),
        outcome matches SystemctlOutcome::Failed(why) ==> has_text(line.text@, why@),
{
    match outcome {
        SystemctlOutcome::Failed(why) => {
            let head = "error while trying to "@;
            let between = " nvidia-powerd: "@;
            assert(line.text@ =~= head + action@ + (between + why@));
            lemma_middle(head, action@, between + why@);
            assert(line.text@ =~= (head + action@ + between) + why@ + Seq::empty());
            lemma_middle(head + action@ + between, why@, Seq::empty());
        },
        SystemctlOutcome::TimedOut => {
            lemma_middle("timed out after 10s while trying to "@, action@, " nvidia-powerd"@);
        },
        SystemctlOutcome::Finished { .. } => {},
    }
}

/// A run tells of an outcome what [`report_finished`] tells of its trimmed error output.
pub proof fn law_finished_run_is_told_trimmed(
    action: &str,
    outcome: SystemctlOutcome,
    line: LogLine,
    stderr: &str,
    told: LogLine,
)
    requires
        outcome is Finished,
        stderr@ == trimmed(lossy_text(outcome->stderr@)),
        call_ensures(run_systemctl, (action, &outcome), line),
        call_ensures(report_finished, (action, outcome->success, outcome->code, stderr), told),
    ensures
        line.level == told.level,
        line.text@ == told.text@,
{
}

/// Whether the service is enabled goes by what was written alone: how the run ended makes no
/// difference. Where nothing could be had, or no text, it is not enabled.
pub proof fn law_enabled_goes_by_the_output(
    outcome: SystemctlOutcome,
    other: SystemctlOutcome,
    enabled: bool,
    same: bool,
)
    requires
        call_ensures(nvidia_powerd_enabled, (&outcome,), enabled),
        call_ensures(nvidia_powerd_enabled, (&other,), same),
    ensures
        outcome is Failed || outcome is TimedOut ==> !enabled,
        outcome matches SystemctlOutcome::Finished { stdout, .. } ==> (!valid_utf8(stdout@)
            ==> !enabled),
        outcome matches SystemctlOutcome::Finished { stdout, .. } ==> (valid_utf8(stdout@) ==> (
        enabled <==> has_text(decode_utf8(stdout@), "enabled"@))),
        outcome is Finished && other is Finished && outcome->stdout@ == other->stdout@ ==> enabled
            == same,
{
}

/// A service that is not enabled is left alone. One that is, is stopped by stopping it, and started
/// by resetting its failed state first and starting it then.
pub proof fn law_disabled_service_is_left_alone(
    enabled: bool,
    stop: Vec<&'static str>,
    start: Vec<&'static str>,
)
    requires
        call_ensures(stop_nvidia_powerd, (enabled,), stop),
        call_ensures(start_nvidia_powerd, (enabled,), start),
    ensures
        !enabled <==> stop@.len() == 0,
        !enabled <==> start@.len() == 0,
        enabled ==> stop@.last()@ == "stop"@ && start@.last()@ == "start"@,
        enabled ==> start@.first()@ == "reset-failed"@ && start@.len() == 2 && stop@.len() == 1,
{
}

/// Something is logged of the detection exactly if it had nothing to go by, and then as an error.
pub proof fn law_failed_detection_is_logged(outcome: SystemctlOutcome, line: Option<LogLine>)
    requires
        call_ensures(detection_failure, (&outcome,), line),
    ensures
        line is Some <==> outcome is Failed || outcome is TimedOut,
        line matches Some(l) ==> l.level == LogLevel::Error,
        line matches Some(l) ==> (outcome matches SystemctlOutcome::Failed(why) ==> has_text(
            l.text@,
            why@,
        )),
{
    if let SystemctlOutcome::Failed(why) = outcome {
        let head = "error while trying to "@ + "detect"@ + " nvidia-powerd: "@;
        assert(line->0.text@ =~= head + why@ + Seq::empty());
        lemma_middle(head, why@, Seq::empty());
    }
}

} // verus!
