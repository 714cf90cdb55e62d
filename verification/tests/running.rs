use artifex::batch::Batch;
use artifex::command::{Command, CommandOutput, CommandStatus};
use artifex::runner::{
    Artifex, BatchRunner, ExecuteReply, InspectReply, UpgradeReply, UpgradeStatus,
};
use artifex::Error;

/// A fake remote service: canned replies, with an optional transport
/// failure injected at the n-th call.
struct ScriptedApi {
    calls: usize,
    fail_at_call: Option<usize>,
}

impl ScriptedApi {
    fn new(fail_at_call: Option<usize>) -> ScriptedApi {
        ScriptedApi {
            calls: 0,
            fail_at_call,
        }
    }

    fn check(&mut self) -> Result<(), Error> {
        self.calls += 1;
        match self.fail_at_call {
            Some(n) if n == self.calls => Err(Error::Rpc("connection lost".to_string())),
            _ => Ok(()),
        }
    }
}

impl Artifex for ScriptedApi {
    fn inspect(&mut self) -> Result<InspectReply, Error> {
        self.check()?;
        Ok(InspectReply {
            kernel_version: "6.1.0-test".to_string(),
            system_uptime: 9420,
        })
    }

    fn execute(&mut self, command: &str) -> Result<ExecuteReply, Error> {
        self.check()?;
        Ok(ExecuteReply {
            code: 0,
            stdout: format!("ran: {}", command),
            stderr: String::new(),
        })
    }

    fn upgrade(&mut self) -> Result<Vec<UpgradeReply>, Error> {
        self.check()?;
        Ok(vec![
            UpgradeReply {
                status: UpgradeStatus::Running,
                position: 17,
            },
            UpgradeReply {
                status: UpgradeStatus::Running,
                position: 100,
            },
            UpgradeReply {
                status: UpgradeStatus::Success,
                position: 100,
            },
        ])
    }
}

#[test]
fn run_batch_collects_all_entries() {
    let batch = Batch::from_str("INSPECT; EXECUTE: date -u; UPGRADE").unwrap();
    let mut runner = BatchRunner::new(ScriptedApi::new(None));
    let report = runner.run(&batch).unwrap();
    assert_eq!(report.entries().len(), 3);
    assert_eq!(report.entries()[0].command, Command::Inspect);
    assert_eq!(
        report.entries()[1].command,
        Command::Execute("date -u".to_string())
    );
    assert_eq!(report.entries()[2].command, Command::Upgrade);
    assert!(report.title().starts_with("Report - "));
    assert_eq!(report.title().chars().count(), 45);
}

#[test]
fn run_inspect_builds_two_line_summary() {
    let batch = Batch::from_str("INSPECT").unwrap();
    let mut runner = BatchRunner::new(ScriptedApi::new(None));
    let report = runner.run(&batch).unwrap();
    assert_eq!(
        report.entries()[0].status,
        CommandStatus::Success(Some(CommandOutput::String(
            "kernel version: 6.1.0-test\nsystem uptime: 2h 37m".to_string()
        )))
    );
}

#[test]
fn run_execute_keeps_stdout() {
    let batch = Batch::from_str("EXECUTE: date -u").unwrap();
    let mut runner = BatchRunner::new(ScriptedApi::new(None));
    let report = runner.run(&batch).unwrap();
    assert_eq!(
        report.entries()[0].status,
        CommandStatus::Success(Some(CommandOutput::String("ran: date -u".to_string())))
    );
}

#[test]
fn run_upgrade_accumulates_progress_lines() {
    let batch = Batch::from_str("UPGRADE").unwrap();
    let mut runner = BatchRunner::new(ScriptedApi::new(None));
    let report = runner.run(&batch).unwrap();
    assert_eq!(
        report.entries()[0].status,
        CommandStatus::Success(Some(CommandOutput::String(
            "Upgrade progress: Running, 17%\n\
             Upgrade progress: Running, 100%\n\
             Upgrade progress: Success, 100%\n"
                .to_string()
        )))
    );
}

/// A fake that refuses every operation: for batches that must finish
/// without dispatching anything.
struct NoCalls;

impl Artifex for NoCalls {
    fn inspect(&mut self) -> Result<InspectReply, Error> {
        panic!("no call expected");
    }

    fn execute(&mut self, _command: &str) -> Result<ExecuteReply, Error> {
        panic!("no call expected");
    }

    fn upgrade(&mut self) -> Result<Vec<UpgradeReply>, Error> {
        panic!("no call expected");
    }
}

#[test]
fn run_empty_batch_succeeds_without_calls() {
    let batch = Batch { commands: vec![] };
    let mut runner = BatchRunner::new(NoCalls);
    let report = runner.run(&batch).unwrap();
    assert!(report.entries().is_empty());
    assert!(report.title().starts_with("Report - "));
}

#[test]
fn run_stops_at_transport_failure() {
    let batch = Batch::from_str("INSPECT; EXECUTE: date -u; UPGRADE").unwrap();
    let mut runner = BatchRunner::new(ScriptedApi::new(Some(2)));
    let res = runner.run(&batch);
    assert!(matches!(res, Err(Error::Rpc(_))));
}

/// A fake whose upgrade stream is fixed in advance and whose unary
/// operations are never called.
struct UpgradeOnlyApi {
    replies: Vec<UpgradeReply>,
}

impl Artifex for UpgradeOnlyApi {
    fn inspect(&mut self) -> Result<InspectReply, Error> {
        Err(Error::Rpc("not scripted".to_string()))
    }

    fn execute(&mut self, _command: &str) -> Result<ExecuteReply, Error> {
        Err(Error::Rpc("not scripted".to_string()))
    }

    fn upgrade(&mut self) -> Result<Vec<UpgradeReply>, Error> {
        Ok(self.replies.clone())
    }
}

#[test]
fn run_empty_upgrade_stream_gives_empty_output() {
    let batch = Batch::from_str("UPGRADE").unwrap();
    let mut runner = BatchRunner::new(UpgradeOnlyApi { replies: vec![] });
    let report = runner.run(&batch).unwrap();
    assert_eq!(
        report.entries()[0].status,
        CommandStatus::Success(Some(CommandOutput::String(String::new())))
    );
}

#[test]
fn run_negative_position_is_rendered_signed() {
    let batch = Batch::from_str("UPGRADE").unwrap();
    let mut runner = BatchRunner::new(UpgradeOnlyApi {
        replies: vec![UpgradeReply {
            status: UpgradeStatus::Failure,
            position: -1,
        }],
    });
    let report = runner.run(&batch).unwrap();
    assert_eq!(
        report.entries()[0].status,
        CommandStatus::Success(Some(CommandOutput::String(
            "Upgrade progress: Failure, -1%\n".to_string()
        )))
    );
}
