//! What the runtime demo measured, and how that is shown.

use vstd::prelude::*;
use vstd::string::*;

use crate::proto::job::JobStatusProto;
use crate::job::status::StatusView;
use crate::text::{
    concat_text, decimal, decimal_text, signed_decimal, signed_decimal_is_injective,
    signed_decimal_text,
};

verus! {

/// How long each step took, in milliseconds.
#[derive(Debug, Clone, Copy, PartialEq, Eq, Structural)]
pub struct RuntimeStepDurations {
    /// Opening the session.
    pub session_open_ms: u64,
    /// Reading the catalog.
    pub index_ms: u64,
    /// Describing a capability.
    pub describe_ms: u64,
    /// Starting the job.
    pub job_start_ms: u64,
    /// Waiting for its end.
    pub job_status_poll_ms: u64,
    /// Replaying its log.
    pub job_attach_ms: u64,
}

/// What the demo measured.
#[derive(Debug, PartialEq, Eq)]
pub struct RuntimeMeasurement {
    /// The whole demo, in milliseconds.
    pub total_ms: u64,
    /// Its steps.
    pub steps: RuntimeStepDurations,
    /// The number of capabilities in the catalog.
    pub catalog_count: usize,
    /// The capability that was described.
    pub described_capability: String,
    /// Its signature.
    pub described_signature: String,
    /// How the job ended.
    pub terminal_job_status: String,
    /// How often the status was read.
    pub status_poll_count: u64,
    /// Whether the log held the marker.
    pub log_replay_success: bool,
    /// The number of log bytes.
    pub attach_bytes: usize,
    /// The marker.
    pub log_marker: String,
    /// The log.
    pub log_text: String,
}

/// The label of a status.
pub open spec fn label_of(status: StatusView) -> Seq<char> {
    match status {
        StatusView::Pending => "pending"@,
        StatusView::Running => "running"@,
        StatusView::Exited { code } => "exited:"@ + signed_decimal(code as int),
        StatusView::Killed => "killed"@,
        StatusView::Failed { reason } => "failed:"@ + reason,
    }
}

/// The label of a status.
pub fn status_label(status: &JobStatusProto) -> (r: String)
    ensures
        r@ == label_of(status@),
{
    match status {
        JobStatusProto::Pending => "pending".to_owned(),
        JobStatusProto::Running => "running".to_owned(),
        JobStatusProto::Exited { code } => concat_text(
            "exited:",
            signed_decimal_text(*code as i64).as_str(),
        ),
        JobStatusProto::Killed => "killed".to_owned(),
        JobStatusProto::Failed { reason } => concat_text("failed:", reason.as_str()),
    }
}

/// Whether a job with a status has ended.
pub open spec fn has_ended(status: StatusView) -> bool {
    status is Exited || status is Killed || status is Failed
}

/// Whether a job with a status has ended.
pub fn is_terminal(status: &JobStatusProto) -> (r: bool)
    ensures
        r == has_ended(status@),
{
    match status {
        JobStatusProto::Exited { .. } => true,
        JobStatusProto::Killed => true,
        JobStatusProto::Failed { .. } => true,
        _ => false,
    }
}

/// Whether a job with a status exited with code 0.
pub open spec fn has_succeeded(status: StatusView) -> bool {
    status matches StatusView::Exited { code } && code == 0
}

/// Whether a job with a status exited with code 0.
pub fn is_success_status(status: &JobStatusProto) -> (r: bool)
    ensures
        r == has_succeeded(status@),
{
    match status {
        JobStatusProto::Exited { code } => *code == 0,
        _ => false,
    }
}

/// Milliseconds as a 64-bit count; the greatest one where they do not fit.
pub fn duration_ms(millis: u128) -> (r: u64)
    ensures
        r == (if millis <= u64::MAX {
            millis as int
        } else {
            u64::MAX as int
        }),
{
    if millis <= u64::MAX as u128 {
        millis as u64
    } else {
        u64::MAX
    }
}

/// One line of the report.
pub open spec fn report_line(name: Seq<char>, value: Seq<char>) -> Seq<char> {
    name + "="@ + value + "\n"@
}

/// A truth value as a word.
pub open spec fn truth_word(b: bool) -> Seq<char> {
    if b {
        "true"@
    } else {
        "false"@
    }
}

/// The report: a heading, then each measurement on a line of its own.
pub open spec fn human_report(m: RuntimeMeasurement) -> Seq<char> {
    "runtime ok\n"@ + report_line("total_ms"@, decimal(m.total_ms as nat)) + report_line(
        "session_open_ms"@,
        decimal(m.steps.session_open_ms as nat),
    ) + report_line("index_ms"@, decimal(m.steps.index_ms as nat)) + report_line(
        "describe_ms"@,
        decimal(m.steps.describe_ms as nat),
    ) + report_line("job_start_ms"@, decimal(m.steps.job_start_ms as nat)) + report_line(
        "job_status_poll_ms"@,
        decimal(m.steps.job_status_poll_ms as nat),
    ) + report_line("job_attach_ms"@, decimal(m.steps.job_attach_ms as nat)) + report_line(
        "catalog_count"@,
        decimal(m.catalog_count as nat),
    ) + report_line("described"@, m.described_capability@) + report_line(
        "signature"@,
        m.described_signature@,
    ) + report_line("job_status"@, m.terminal_job_status@) + report_line(
        "status_poll_count"@,
        decimal(m.status_poll_count as nat),
    ) + report_line("log_replay_success"@, truth_word(m.log_replay_success)) + report_line(
        "attach_bytes"@,
        decimal(m.attach_bytes as nat),
    ) + report_line("log_marker"@, m.log_marker@) + report_line("log"@, m.log_text@)
}

fn push_line(report: &mut String, name: &str, value: &str)
    ensures
        final(report)@ == old(report)@ + report_line(name@, value@),
{
    let ghost before = report@;
    report.append(name);
    report.append("=");
    report.append(value);
    report.append("\n");
    assert(report@ =~= before + report_line(name@, value@));
}

fn push_count(report: &mut String, name: &str, value: u64)
    ensures
        final(report)@ == old(report)@ + report_line(name@, decimal(value as nat)),
{
    let digits = decimal_text(value);
    push_line(report, name, digits.as_str());
}

/// The report for a reader.
pub fn format_human_measurement(m: &RuntimeMeasurement) -> (r: String)
    ensures
        r@ == human_report(*m),
{
    let mut report = "runtime ok\n".to_owned();
    push_count(&mut report, "total_ms", m.total_ms);
    push_count(&mut report, "session_open_ms", m.steps.session_open_ms);
    push_count(&mut report, "index_ms", m.steps.index_ms);
    push_count(&mut report, "describe_ms", m.steps.describe_ms);
    push_count(&mut report, "job_start_ms", m.steps.job_start_ms);
    push_count(&mut report, "job_status_poll_ms", m.steps.job_status_poll_ms);
    push_count(&mut report, "job_attach_ms", m.steps.job_attach_ms);
    push_count(&mut report, "catalog_count", m.catalog_count as u64);
    push_line(&mut report, "described", m.described_capability.as_str());
    push_line(&mut report, "signature", m.described_signature.as_str());
    push_line(&mut report, "job_status", m.terminal_job_status.as_str());
    push_count(&mut report, "status_poll_count", m.status_poll_count);
    push_line(
        &mut report,
        "log_replay_success",
        if m.log_replay_success {
            "true"
        } else {
            "false"
        },
    );
    push_count(&mut report, "attach_bytes", m.attach_bytes as u64);
    push_line(&mut report, "log_marker", m.log_marker.as_str());
    push_line(&mut report, "log", m.log_text.as_str());
    report
}

/// Different statuses have different labels: a label tells an exit by its code
/// and a failure by its reason.
pub proof fn labels_tell_statuses_apart(a: StatusView, b: StatusView)
    requires
        label_of(a) == label_of(b),
    ensures
        a == b,
{
    reveal_strlit("pending");
    reveal_strlit("running");
    reveal_strlit("exited:");
    reveal_strlit("killed");
    reveal_strlit("failed:");
    let (x, y) = (label_of(a), label_of(b));
    assert(x[0] == y[0]);
    assert(a is Pending ==> x[0] == 'p');
    assert(a is Running ==> x[0] == 'r');
    assert(a is Exited ==> x[0] == 'e');
    assert(a is Killed ==> x[0] == 'k');
    assert(a is Failed ==> x[0] == 'f');
    assert(b is Pending ==> y[0] == 'p');
    assert(b is Running ==> y[0] == 'r');
    assert(b is Exited ==> y[0] == 'e');
    assert(b is Killed ==> y[0] == 'k');
    assert(b is Failed ==> y[0] == 'f');
    match (a, b) {
        (StatusView::Exited { code }, StatusView::Exited { code: other }) => {
            assert(x.skip(7) =~= signed_decimal(code as int));
            assert(y.skip(7) =~= signed_decimal(other as int));
            signed_decimal_is_injective(code as int, other as int);
        },
        (StatusView::Failed { reason }, StatusView::Failed { reason: other }) => {
            assert(x.skip(7) =~= reason);
            assert(y.skip(7) =~= other);
        },
        _ => {},
    }
}

/// A job that is neither pending nor running has ended; one that succeeded has
/// ended, with the code 0, and every other end is none.
pub proof fn success_is_an_exit_with_code_zero(status: StatusView)
    ensures
        has_ended(status) <==> status != StatusView::Pending && status != StatusView::Running,
        has_succeeded(status) <==> status == (StatusView::Exited { code: 0 }),
        has_succeeded(status) ==> has_ended(status),
{
}

/// A truth value is written as its own word.
pub proof fn truth_is_told_in_words(b: bool)
    ensures
        truth_word(b) == (seq!['t', 'r', 'u', 'e']) <==> b,
        truth_word(b) == (seq!['f', 'a', 'l', 's', 'e']) <==> !b,
{
    reveal_strlit("true");
    reveal_strlit("false");
    assert("true"@ =~= seq!['t', 'r', 'u', 'e']);
    assert("false"@ =~= seq!['f', 'a', 'l', 's', 'e']);
    assert(seq!['t', 'r', 'u', 'e'].len() != seq!['f', 'a', 'l', 's', 'e'].len());
}

/// A label begins with the name of its status.
pub proof fn labels_name_their_status(status: StatusView)
    ensures
        label_of(status).len() >= 6,
        label_of(status)[0] == 'p' <==> status is Pending,
        label_of(status)[0] == 'r' <==> status is Running,
        label_of(status)[0] == 'e' <==> status is Exited,
        label_of(status)[0] == 'k' <==> status is Killed,
        label_of(status)[0] == 'f' <==> status is Failed,
{
    reveal_strlit("pending");
    reveal_strlit("running");
    reveal_strlit("exited:");
    reveal_strlit("killed");
    reveal_strlit("failed:");
}

} // verus!
