//! The batch runner: dispatches each command of a batch, strictly in
//! order, to the remote service contract, maps every reply or stream of
//! replies into a report entry, and aborts the whole run on a transport
//! failure.

use vstd::prelude::*;

use crate::batch::Batch;
use crate::command::{
    Command, CommandOutput, CommandOutputView, CommandStatus, CommandStatusView, CommandView,
};
use crate::error::Error;
use crate::report::{BatchReport, ReportEntry};
use crate::text::{dec_i32, push_dec_i32};

verus! {

use vstd::string::StringExecFns;

/// The reply of the remote `Inspect` operation.
#[derive(Debug)]
pub struct InspectReply {
    pub kernel_version: String,
    pub system_uptime: u64,
}

/// The reply of the remote `Execute` operation; a non-zero exit code is
/// normal data, not a failure.
#[derive(Debug)]
pub struct ExecuteReply {
    pub code: i32,
    pub stdout: String,
    pub stderr: String,
}

/// The status carried by one message of the remote `Upgrade` stream.
#[derive(Debug, Clone, Copy, PartialEq, Eq, Structural)]
pub enum UpgradeStatus {
    Running,
    Success,
    Failure,
}

/// One message of the remote `Upgrade` stream: a status and a position
/// between 0 and 100.
#[derive(Debug, Clone, Copy, PartialEq, Eq, Structural)]
pub struct UpgradeReply {
    pub status: UpgradeStatus,
    pub position: i32,
}

/// The remote service contract: the three operations the runner
/// invokes, an interface boundary implemented by a transport outside
/// this library, or by a fake for tests. Any `Err` is a transport
/// failure; nothing can be promised of a remote's replies.
pub trait Artifex {
    /// Inspect the remote machine.
    fn inspect(&mut self) -> Result<InspectReply, Error>;

    /// Run one command line on the remote machine; the command text is
    /// opaque to this library.
    fn execute(&mut self, command: &str) -> Result<ExecuteReply, Error>;

    /// Start an upgrade and consume its whole progress stream: the
    /// messages are returned in delivery order. Failing to establish
    /// the stream is `Err`; an in-stream error merely ends the
    /// sequence, and everything received before it is kept.
    fn upgrade(&mut self) -> Result<Vec<UpgradeReply>, Error>;
}

/// The text humantime renders for a duration of whole seconds; a
/// function of the seconds alone.
pub uninterp spec fn human_duration_of(secs: u64) -> Seq<char>;

/// Relies on humantime's `format_duration`: it renders a duration as
/// human-readable text (such as "2h 37m"), a pure function of its
/// argument.
#[verifier::external_body]
fn format_uptime(secs: u64) -> (r: String)
    ensures
        r@ == human_duration_of(secs),
{
    humantime::format_duration(std::time::Duration::from_secs(secs)).to_string()
}

/// Relies on uuid's `Uuid::new_v4` and its textual form: a fresh random
/// identifier, rendered hyphenated; random, so only the 36-character
/// length of that form is promised.
#[verifier::external_body]
fn uuid_v4_string() -> (r: String)
    ensures
        r@.len() == 36,
{
    uuid::Uuid::new_v4().to_string()
}

/// The two-line summary the runner builds from an `Inspect` reply.
pub open spec fn inspect_summary(kernel_version: Seq<char>, uptime: u64) -> Seq<char> {
    "kernel version: "@ + kernel_version + "\nsystem uptime: "@ + human_duration_of(uptime)
}

/// The two-line summary for an `Inspect` reply, as text.
pub fn inspect_output_text(reply: &InspectReply) -> (r: String)
    ensures
        r@ == inspect_summary(reply.kernel_version@, reply.system_uptime),
{
    let mut out = "kernel version: ".to_owned();
    out.append(reply.kernel_version.as_str());
    out.append("\nsystem uptime: ");
    let d = format_uptime(reply.system_uptime);
    out.append(d.as_str());
    assert(out@ =~= inspect_summary(reply.kernel_version@, reply.system_uptime));
    out
}

/// The name of an upgrade status, as a progress line shows it.
pub open spec fn status_name(st: UpgradeStatus) -> Seq<char> {
    match st {
        UpgradeStatus::Running => "Running"@,
        UpgradeStatus::Success => "Success"@,
        UpgradeStatus::Failure => "Failure"@,
    }
}

/// One line of upgrade progress text.
pub open spec fn upgrade_line(rep: UpgradeReply) -> Seq<char> {
    "Upgrade progress: "@ + status_name(rep.status) + ", "@ + dec_i32(rep.position) + "%\n"@
}

/// The accumulated upgrade text: one line per message, delivery order.
pub open spec fn upgrade_text(reps: Seq<UpgradeReply>) -> Seq<char>
    decreases reps.len(),
{
    if reps.len() == 0 {
        Seq::empty()
    } else {
        upgrade_text(reps.drop_last()) + upgrade_line(reps.last())
    }
}

fn push_upgrade_line(out: &mut String, rep: &UpgradeReply)
    ensures
        final(out)@ == old(out)@ + upgrade_line(*rep),
{
    out.append("Upgrade progress: ");
    match rep.status {
        UpgradeStatus::Running => out.append("Running"),
        UpgradeStatus::Success => out.append("Success"),
        UpgradeStatus::Failure => out.append("Failure"),
    }
    out.append(", ");
    push_dec_i32(out, rep.position);
    out.append("%\n");
    assert(out@ =~= old(out)@ + upgrade_line(*rep));
}

/// The upgrade output text for a delivered sequence of messages; exact
/// for every sequence, whatever the stream produced.
pub fn upgrade_output_text(reps: &Vec<UpgradeReply>) -> (r: String)
    ensures
        r@ == upgrade_text(reps@),
{
    let mut out = String::new();
    let n = reps.len();
    let mut i: usize = 0;
    while i < n
        invariant
            i <= n,
            n == reps@.len(),
            out@ == upgrade_text(reps@.take(i as int)),
        decreases n - i,
    {
        push_upgrade_line(&mut out, &reps[i]);
        proof {
            assert(reps@.take(i + 1 as int).drop_last() =~= reps@.take(i as int));
            assert(reps@.take(i + 1 as int).last() == reps@[i as int]);
        }
        i = i + 1;
    }
    proof {
        assert(reps@.take(n as int) =~= reps@);
    }
    out
}

/// The status recorded for an `Execute` command, given the reply: the
/// remote's standard output as text, a success even when the exit code
/// is non-zero.
pub open spec fn execute_status(reply: ExecuteReply) -> CommandStatusView {
    CommandStatusView::Success(Some(CommandOutputView::String(reply.stdout@)))
}

/// The status recorded for an `Inspect` command, given the reply.
pub open spec fn inspect_status(reply: InspectReply) -> CommandStatusView {
    CommandStatusView::Success(
        Some(
            CommandOutputView::String(inspect_summary(reply.kernel_version@, reply.system_uptime)),
        ),
    )
}

/// The status recorded for an `Upgrade` command, given the delivered
/// stream messages.
pub open spec fn upgrade_status(reps: Seq<UpgradeReply>) -> CommandStatusView {
    CommandStatusView::Success(Some(CommandOutputView::String(upgrade_text(reps))))
}

/// A status the runner may record for a command: the image of some
/// remote reply under the mapping of the command's variant.
pub open spec fn status_matches(c: CommandView, st: CommandStatusView) -> bool {
    match c {
        CommandView::Execute(_) => exists|reply: ExecuteReply| st == #[trigger] execute_status(
            reply,
        ),
        CommandView::Inspect => exists|reply: InspectReply| st == #[trigger] inspect_status(reply),
        CommandView::Upgrade => exists|reps: Seq<UpgradeReply>| st == #[trigger] upgrade_status(
            reps,
        ),
    }
}

/// Runs single commands via a client.
pub(crate) struct CommandRunner<A: Artifex> {
    pub(crate) client: A,
}

impl<A: Artifex> CommandRunner<A> {
    /// Run one command and return its status: the one remote operation
    /// of the command's variant is invoked, its reply is mapped to a
    /// status, and a transport failure is returned as the error.
    pub(crate) fn run(&mut self, command: &Command) -> (r: Result<CommandStatus, Error>)
        ensures
            r matches Ok(st) ==> status_matches(command@, st@),
    {
        match command {
            Command::Execute(cmdline) => {
                match self.client.execute(cmdline.as_str()) {
                    Err(e) => Err(e),
                    Ok(reply) => {
                        let ghost greply = reply;
                        let st = CommandStatus::Success(
                            Some(CommandOutput::String(reply.stdout)),
                        );
                        assert(st@ == execute_status(greply));
                        Ok(st)
                    },
                }
            },
            Command::Inspect => {
                match self.client.inspect() {
                    Err(e) => Err(e),
                    Ok(reply) => {
                        let text = inspect_output_text(&reply);
                        let st = CommandStatus::Success(Some(CommandOutput::String(text)));
                        assert(st@ == inspect_status(reply));
                        Ok(st)
                    },
                }
            },
            Command::Upgrade => {
                match self.client.upgrade() {
                    Err(e) => Err(e),
                    Ok(replies) => {
                        let text = upgrade_output_text(&replies);
                        let st = CommandStatus::Success(Some(CommandOutput::String(text)));
                        assert(st@ == upgrade_status(replies@));
                        Ok(st)
                    },
                }
            },
        }
    }
}

/// Allows running batches of commands via a client.
pub struct BatchRunner<A: Artifex> {
    inner: CommandRunner<A>,
}

impl<A: Artifex> BatchRunner<A> {
    /// Build a `BatchRunner` driving the given client.
    pub fn new(client: A) -> BatchRunner<A> {
        BatchRunner { inner: CommandRunner { client } }
    }

    /// Run a batch of commands, strictly sequentially and in batch
    /// order, with one remote operation in flight at a time. A returned
    /// report is complete: one entry per command of the batch, in
    /// order, each pairing the original command with a status that is
    /// the mapping of some remote reply; its title is `Report - `
    /// followed by a fresh 36-character identifier. A transport failure
    /// aborts the run with its error and no partial report is returned;
    /// an empty batch makes no remote call and always succeeds.
    pub fn run(&mut self, batch: &Batch) -> (r: Result<BatchReport, Error>)
        ensures
            r matches Ok(report) ==> {
                &&& report.entries@.len() == batch.commands@.len()
                &&& forall|i: int|
                    0 <= i < report.entries@.len() ==> {
                        &&& (#[trigger] report.entries@[i]).command@ == batch.commands@[i]@
                        &&& status_matches(batch.commands@[i]@, report.entries@[i].status@)
                    }
                &&& report.title@.len() == 45
                &&& report.title@.subrange(0, 9) == "Report - "@
                &&& crate::report::utc_timestamp_shape(report.date@)
            },
            batch.commands@.len() == 0 ==> r is Ok,
    {
        let title = new_report_title();
        let mut report = BatchReport::new(title.as_str());
        let n = batch.commands.len();
        let mut i: usize = 0;
        while i < n
            invariant
                i <= n,
                n == batch.commands@.len(),
                report.entries@.len() == i,
                report.title@.len() == 45,
                report.title@.subrange(0, 9) == "Report - "@,
                crate::report::utc_timestamp_shape(report.date@),
                forall|k: int|
                    0 <= k < i ==> {
                        &&& (#[trigger] report.entries@[k]).command@ == batch.commands@[k]@
                        &&& status_matches(batch.commands@[k]@, report.entries@[k].status@)
                    },
            decreases n - i,
        {
            let command = &batch.commands[i];
            match self.inner.run(command) {
                Err(e) => {
                    return Err(e);
                },
                Ok(status) => {
                    report.push(ReportEntry { command: command.clone(), status });
                },
            }
            i = i + 1;
        }
        Ok(report)
    }
}

/// A fresh report title: a fixed prefix and a new unique identifier, so
/// that re-running an identical batch never collides with a previous
/// report's identity.
fn new_report_title() -> (r: String)
    ensures
        r@.len() == 45,
        r@.subrange(0, 9) == "Report - "@,
{
    let mut t = "Report - ".to_owned();
    let u = uuid_v4_string();
    t.append(u.as_str());
    proof {
        reveal_strlit("Report - ");
        assert(t@.subrange(0, 9) =~= "Report - "@);
    }
    t
}

} // verus!
