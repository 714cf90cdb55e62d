//! Batch command protocol: a small language of remote-management commands,
//! a runner that drives them against a remote service, and a report model
//! with YAML-like and XML-like renderings.

pub mod batch;
pub mod command;
pub mod engine;
pub mod error;
pub mod machine;
pub mod progression;
pub mod report;
pub mod runner;
pub mod text;

pub use batch::Batch;
pub use error::Error;
pub use report::{BatchReport, MarkupKind, MarkupReportRenderer};
pub use runner::BatchRunner;
