//! Running the command of a capability that a component invokes: what each
//! event does while its output is collected, and what the component gets.

use vstd::prelude::*;
use vstd::string::*;
use vstd::utf8::{encode_utf8, valid_utf8};

use crate::error::{Error, ErrorView};
use crate::octets::{bytes_to_text, utf8_refusal};
use crate::text::concat_text;

verus! {

/// How a process ended.
#[derive(Debug, PartialEq, Eq)]
pub struct ExitReport {
    /// Whether it ended with success.
    pub success: bool,
    /// The status as it is shown.
    pub text: String,
}

/// Where the run of a command stands.
#[derive(Debug)]
pub struct CommandRun {
    /// The output collected so far.
    pub output: Vec<u8>,
    /// The output is at its end.
    pub stdout_done: bool,
    /// The process was killed because the run was cancelled.
    pub killed: bool,
    /// How the process ended, once it has.
    pub exit: Option<ExitReport>,
    /// The most output bytes that the run takes.
    pub byte_cap: usize,
}

/// What the caller waited for and got.
#[derive(Debug)]
pub enum CommandEvent {
    /// The time to look at the cancellation came; it says whether the run is cancelled.
    Poll(bool),
    /// The process was asked whether it has ended.
    Waited(Option<ExitReport>),
    /// Asking the process failed.
    WaitFailed(String),
    /// A read gave bytes.
    Data(Vec<u8>),
    /// A read found the end of the output.
    End,
    /// A read failed.
    ReadFailed(String),
}

/// What the caller has to do next.
#[derive(Debug, Clone, Copy, PartialEq, Eq, Structural)]
pub enum CommandAction {
    /// Go on waiting.
    Continue,
    /// Kill the process and go on waiting.
    Kill,
}

/// The failure of a run with a reason.
pub open spec fn run_failure(reason: Seq<char>) -> ErrorView {
    ErrorView::JobSpawn { reason }
}

/// The failure of a run that was cancelled.
pub open spec fn cancelled_run() -> ErrorView {
    run_failure("capability command cancelled"@)
}

/// Whether the run changed by exactly an event, with what comes of it. On a
/// failure the process is to be killed.
pub open spec fn command_stepped(
    before: CommandRun,
    after: CommandRun,
    event: CommandEvent,
    r: Result<CommandAction, Error>,
) -> bool {
    &&& after.byte_cap == before.byte_cap
    &&& match event {
        CommandEvent::Poll(cancelled) => {
            let kill = cancelled && !before.killed;
            &&& r == Ok::<CommandAction, Error>(
                if kill {
                    CommandAction::Kill
                } else {
                    CommandAction::Continue
                },
            )
            &&& after.killed == (before.killed || cancelled)
            &&& after.output@ == before.output@
            &&& after.stdout_done == before.stdout_done
            &&& after.exit == before.exit
        },
        CommandEvent::Waited(report) => {
            &&& r == Ok::<CommandAction, Error>(CommandAction::Continue)
            &&& after.exit == (if report is Some {
                report
            } else {
                before.exit
            })
            &&& after.killed == before.killed
            &&& after.output@ == before.output@
            &&& after.stdout_done == before.stdout_done
        },
        CommandEvent::WaitFailed(reason) => {
            &&& r matches Err(e) && e@ == run_failure(reason@)
            &&& after == before
        },
        CommandEvent::Data(bytes) => {
            if before.output@.len() + bytes@.len() > before.byte_cap {
                &&& r matches Err(e) && e@ == (ErrorView::LogBufferOverflow {
                    cap: before.byte_cap,
                })
                &&& after == before
            } else {
                &&& r == Ok::<CommandAction, Error>(CommandAction::Continue)
                &&& after.output@ == before.output@ + bytes@
                &&& after.killed == before.killed
                &&& after.stdout_done == before.stdout_done
                &&& after.exit == before.exit
            }
        },
        CommandEvent::End => {
            &&& r == Ok::<CommandAction, Error>(CommandAction::Continue)
            &&& after.stdout_done
            &&& after.killed == before.killed
            &&& after.output@ == before.output@
            &&& after.exit == before.exit
        },
        CommandEvent::ReadFailed(reason) => {
            &&& r matches Err(e) && e@ == run_failure(reason@)
            &&& after == before
        },
    }
}

/// Whether a run has only begun.
pub open spec fn command_begun(run: CommandRun, byte_cap: usize) -> bool {
    &&& run.output@ == Seq::<u8>::empty()
    &&& !run.stdout_done
    &&& !run.killed
    &&& run.exit is None
    &&& run.byte_cap == byte_cap
}

/// Whether ending a run gave this: the output as text, or why it failed.
pub open spec fn command_finished(
    run: CommandRun,
    cancelled: bool,
    r: Result<String, Error>,
) -> bool {
    match r {
        Ok(text) => run_fault(run, cancelled) is None && encode_utf8(text@) == run.output@,
        Err(e) => run_fault(run, cancelled) == Some(e@),
    }
}

/// The bytes that the reads among some events gave, in their order.
pub open spec fn data_read(events: Seq<CommandEvent>) -> Seq<u8>
    decreases events.len(),
{
    if events.len() == 0 {
        Seq::empty()
    } else {
        let earlier = data_read(events.drop_last());
        match events.last() {
            CommandEvent::Data(bytes) => earlier + bytes@,
            _ => earlier,
        }
    }
}

/// How the process ended by what it last reported among some events, where it
/// did.
pub open spec fn last_report(events: Seq<CommandEvent>) -> Option<ExitReport>
    decreases events.len(),
{
    if events.len() == 0 {
        None
    } else {
        match events.last() {
            CommandEvent::Waited(Some(report)) => Some(report),
            _ => last_report(events.drop_last()),
        }
    }
}

/// Whether a run went through these states by these events, with no step failing.
pub open spec fn command_ran(
    runs: Seq<CommandRun>,
    events: Seq<CommandEvent>,
    actions: Seq<CommandAction>,
    byte_cap: usize,
) -> bool {
    &&& runs.len() == events.len() + 1
    &&& actions.len() == events.len()
    &&& command_begun(runs[0], byte_cap)
    &&& forall|i: int|
        0 <= i < events.len() ==> command_stepped(
            runs[i],
            runs[i + 1],
            #[trigger] events[i],
            Ok(actions[i]),
        )
}

/// A run collects exactly what was read, in order and within its cap. It knows
/// the process's last report and whether the end was read, and the process is
/// killed once, where some poll found the run cancelled.
pub proof fn run_collects_what_was_read(
    runs: Seq<CommandRun>,
    events: Seq<CommandEvent>,
    actions: Seq<CommandAction>,
    byte_cap: usize,
)
    requires
        command_ran(runs, events, actions, byte_cap),
    ensures
        runs.last().output@ == data_read(events),
        data_read(events).len() <= byte_cap,
        runs.last().byte_cap == byte_cap,
        runs.last().exit == last_report(events),
        runs.last().stdout_done <==> exists|i: int|
            0 <= i < events.len() && #[trigger] events[i] is End,
        runs.last().killed <==> exists|i: int|
            0 <= i < events.len() && #[trigger] events[i] == CommandEvent::Poll(true),
        runs.last().killed <==> exists|i: int|
            0 <= i < actions.len() && #[trigger] actions[i] == CommandAction::Kill,
        forall|i: int, j: int|
            0 <= i < j < actions.len() && #[trigger] actions[i] == CommandAction::Kill
                ==> #[trigger] actions[j] != CommandAction::Kill,
    decreases events.len(),
{
    if events.len() > 0 {
        let n = events.len() - 1;
        let (before, earlier, acted) = (runs.drop_last(), events.drop_last(), actions.drop_last());
        assert forall|i: int| 0 <= i < earlier.len() implies command_stepped(
            before[i],
            before[i + 1],
            #[trigger] earlier[i],
            Ok(acted[i]),
        ) by {
            assert(earlier[i] == events[i]);
        }
        run_collects_what_was_read(before, earlier, acted, byte_cap);
        assert(command_stepped(runs[n], runs[n + 1], events[n], Ok(actions[n])));
        assert(before.last() == runs[n]);
        assert forall|i: int| 0 <= i < n implies #[trigger] earlier[i] == events[i] by {}
        assert forall|i: int| 0 <= i < n implies #[trigger] acted[i] == actions[i] by {}
        if runs[n].stdout_done {
            let i = choose|i: int| 0 <= i < earlier.len() && #[trigger] earlier[i] is End;
            assert(events[i] is End);
        }
        if runs[n].killed {
            let i = choose|i: int|
                0 <= i < acted.len() && #[trigger] acted[i] == CommandAction::Kill;
            assert(actions[i] == CommandAction::Kill);
            let k = choose|k: int|
                0 <= k < earlier.len() && #[trigger] earlier[k] == CommandEvent::Poll(true);
            assert(events[k] == CommandEvent::Poll(true));
        }
        if exists|i: int| 0 <= i < events.len() && #[trigger] events[i] == CommandEvent::Poll(
            true,
        ) {
            let i = choose|i: int|
                0 <= i < events.len() && #[trigger] events[i] == CommandEvent::Poll(true);
            if i < n {
                assert(earlier[i] == CommandEvent::Poll(true));
            }
        }
        if exists|i: int| 0 <= i < events.len() && #[trigger] events[i] is End {
            let i = choose|i: int| 0 <= i < events.len() && #[trigger] events[i] is End;
            if i < n {
                assert(earlier[i] is End);
            }
        }
        if exists|i: int| 0 <= i < actions.len() && #[trigger] actions[i] == CommandAction::Kill {
            let i = choose|i: int|
                0 <= i < actions.len() && #[trigger] actions[i] == CommandAction::Kill;
            if i < n {
                assert(acted[i] == CommandAction::Kill);
            }
        }
        assert forall|i: int, j: int|
            0 <= i < j < actions.len() && #[trigger] actions[i] == CommandAction::Kill implies
            #[trigger] actions[j] != CommandAction::Kill by {
            assert(acted[i] == CommandAction::Kill);
            if j < n {
                assert(acted[j] == actions[j]);
            }
        }
    }
}

/// Ending a run gives the text of exactly what was read, where it gives one: of a
/// process that reported success and a run that was not cancelled.
pub proof fn finished_run_gives_what_was_read(
    runs: Seq<CommandRun>,
    events: Seq<CommandEvent>,
    actions: Seq<CommandAction>,
    byte_cap: usize,
    cancelled: bool,
    r: Result<String, Error>,
)
    requires
        command_ran(runs, events, actions, byte_cap),
        command_finished(runs.last(), cancelled, r),
    ensures
        r matches Ok(text) ==> encode_utf8(text@) == data_read(events),
        r is Ok <==> {
            &&& last_report(events) matches Some(report) && report.success
            &&& !cancelled
            &&& forall|i: int|
                0 <= i < events.len() ==> #[trigger] events[i] != CommandEvent::Poll(true)
            &&& valid_utf8(data_read(events))
        },
{
    run_collects_what_was_read(runs, events, actions, byte_cap);
}

/// Whether the run is complete: the process has ended and so has its output.
pub open spec fn run_complete(run: CommandRun) -> bool {
    run.exit is Some && run.stdout_done
}

/// Why a complete run failed, where it did.
pub open spec fn run_fault(run: CommandRun, cancelled: bool) -> Option<ErrorView> {
    match run.exit {
        None => Some(run_failure("capability command status was not available"@)),
        Some(report) => if run.killed || cancelled {
            Some(cancelled_run())
        } else if !report.success {
            Some(run_failure("capability command exited with "@ + report.text@))
        } else if !valid_utf8(run.output@) {
            Some(
                run_failure(
                    "capability stdout was not valid UTF-8: "@ + utf8_refusal(run.output@),
                ),
            )
        } else {
            None
        },
    }
}

impl CommandRun {
    /// Begin a run, unless it is already cancelled.
    pub fn begin(cancelled: bool, byte_cap: usize) -> (r: Result<CommandRun, Error>)
        ensures
            match r {
                Ok(run) => {
                    &&& !cancelled
                    &&& command_begun(run, byte_cap)
                },
                Err(e) => cancelled && e@ == cancelled_run(),
            },
    {
        if cancelled {
            return Err(Error::JobSpawn { reason: "capability command cancelled".to_owned() });
        }
        Ok(
            CommandRun {
                output: Vec::new(),
                stdout_done: false,
                killed: false,
                exit: None,
                byte_cap,
            },
        )
    }

    /// Take in one event.
    pub fn step(&mut self, event: CommandEvent) -> (r: Result<CommandAction, Error>)
        ensures
            command_stepped(*old(self), *final(self), event, r),
    {
        match event {
            CommandEvent::Poll(cancelled) => {
                if !self.killed && cancelled {
                    self.killed = true;
                    Ok(CommandAction::Kill)
                } else {
                    Ok(CommandAction::Continue)
                }
            },
            CommandEvent::Waited(report) => {
                if report.is_some() {
                    self.exit = report;
                }
                Ok(CommandAction::Continue)
            },
            CommandEvent::WaitFailed(reason) => Err(Error::JobSpawn { reason }),
            CommandEvent::Data(bytes) => {
                let total: usize = self.output.len().saturating_add(bytes.len());
                if total > self.byte_cap || bytes.len() > usize::MAX - self.output.len() {
                    return Err(Error::LogBufferOverflow { cap: self.byte_cap });
                }
                let mut more = bytes;
                self.output.append(&mut more);
                Ok(CommandAction::Continue)
            },
            CommandEvent::End => {
                self.stdout_done = true;
                Ok(CommandAction::Continue)
            },
            CommandEvent::ReadFailed(reason) => Err(Error::JobSpawn { reason }),
        }
    }

    /// Whether the process has ended and so has its output.
    pub fn is_complete(&self) -> (r: bool)
        ensures
            r == run_complete(*self),
    {
        self.exit.is_some() && self.stdout_done
    }

    /// End the run: the output of a command that succeeded, as text.
    pub fn finish(self, cancelled: bool) -> (r: Result<String, Error>)
        ensures
            command_finished(self, cancelled, r),
    {
        match self.exit {
            None => Err(
                Error::JobSpawn {
                    reason: "capability command status was not available".to_owned(),
                },
            ),
            Some(report) => {
                if self.killed || cancelled {
                    return Err(
                        Error::JobSpawn { reason: "capability command cancelled".to_owned() },
                    );
                }
                if !report.success {
                    return Err(
                        Error::JobSpawn {
                            reason: concat_text(
                                "capability command exited with ",
                                report.text.as_str(),
                            ),
                        },
                    );
                }
                match bytes_to_text(self.output) {
                    Ok(text) => Ok(text),
                    Err(message) => Err(
                        Error::JobSpawn {
                            reason: concat_text(
                                "capability stdout was not valid UTF-8: ",
                                message.as_str(),
                            ),
                        },
                    ),
                }
            },
        }
    }
}

/// Output is taken as long as it fits the cap, to the last byte, and what no
/// longer fits is refused whole; no other event meets the cap.
pub proof fn output_is_taken_up_to_the_cap(
    before: CommandRun,
    after: CommandRun,
    event: CommandEvent,
    r: Result<CommandAction, Error>,
)
    requires
        command_stepped(before, after, event, r),
    ensures
        event matches CommandEvent::Data(bytes) ==> (r is Ok <==> before.output@.len() + bytes@.len()
            <= before.byte_cap),
        r is Err ==> after == before,
        r is Err ==> event is Data || event is WaitFailed || event is ReadFailed,
        event is WaitFailed || event is ReadFailed ==> r is Err,
        r == Ok::<CommandAction, Error>(CommandAction::Kill) <==> event == CommandEvent::Poll(true)
            && !before.killed,
{
}

/// A run is complete once the process reported its end and the end of its output
/// was read, and not before.
pub proof fn run_is_complete_at_both_ends(
    runs: Seq<CommandRun>,
    events: Seq<CommandEvent>,
    actions: Seq<CommandAction>,
    byte_cap: usize,
)
    requires
        command_ran(runs, events, actions, byte_cap),
    ensures
        run_complete(runs.last()) <==> last_report(events) is Some && exists|i: int|
            0 <= i < events.len() && #[trigger] events[i] == CommandEvent::End,
{
    run_collects_what_was_read(runs, events, actions, byte_cap);
}

/// A run that failed says why: without a report, because it was cancelled,
/// because the process failed, or because the output is no text, the first of
/// these that holds.
pub proof fn failed_runs_tell_the_first_cause(run: CommandRun, cancelled: bool)
    ensures
        run_fault(run, cancelled) is None <==> {
            &&& run.exit matches Some(report) && report.success
            &&& !run.killed && !cancelled
            &&& valid_utf8(run.output@)
        },
        run.exit is Some && (run.killed || cancelled) ==> run_fault(run, cancelled) == Some(
            cancelled_run(),
        ),
        run.exit matches Some(report) ==> (!run.killed && !cancelled && !report.success
            ==> (run_fault(run, cancelled) matches Some(ErrorView::JobSpawn { reason })
            && report.text@.is_suffix_of(reason))),
{
    if run.exit is Some {
        let text = run.exit->0.text@;
        let told = "capability command exited with "@ + text;
        assert(told.subrange(told.len() - text.len(), told.len() as int) =~= text);
    }
}

} // verus!
