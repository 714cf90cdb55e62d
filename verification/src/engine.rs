//! The engine behind the service side of the remote contract: the part
//! of it that reads and decides locally.

use vstd::prelude::*;

use crate::machine::{get_machine_info, MachineInfo};

verus! {

/// Errors raised by the engine.
#[derive(Debug)]
pub enum Error {
    Io(String),
    Unknown,
    Utf8,
}

/// The mathematical value of an engine `Error`.
pub enum ErrorView {
    Io(Seq<char>),
    Unknown,
    Utf8,
}

impl View for Error {
    type V = ErrorView;

    open spec fn view(&self) -> ErrorView {
        match self {
            Error::Io(s) => ErrorView::Io(s@),
            Error::Unknown => ErrorView::Unknown,
            Error::Utf8 => ErrorView::Utf8,
        }
    }
}

/// The output of one executed program.
pub struct ProgramOutput {
    pub code: i32,
    pub stdout: String,
    pub stderr: String,
}

/// The engine: answers inspections of the machine it runs on.
pub struct Engine;

impl Engine {
    /// Inspect the running machine.
    pub fn inspect(&self) -> (r: Result<MachineInfo, Error>)
        ensures
            r matches Err(e) ==> e@ matches ErrorView::Io(_),
    {
        get_machine_info()
    }
}

impl Default for Engine {
    fn default() -> (r: Engine)
        ensures
            r == (Engine {  }),
    {
        Engine {  }
    }
}

} // verus!
