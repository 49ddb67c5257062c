//! Bridge between a host application and the external CSV-to-database
//! importer.
//!
//! The library holds the decisions of one invocation: which command-line
//! tokens a request becomes, and what the captured output of the finished
//! process means. Starting the process is left to the caller.

pub mod decode;
pub mod error;
pub mod invocation;
pub mod number;
pub mod output;
pub mod record_count;
pub mod request;
pub mod state;
pub mod text;

pub use crate::error::InvocationError;
pub use crate::invocation::{conclude, RunOutcome};
pub use crate::output::{interpret_output, interpret_text, CsvToDbResult, ProcessOutput};
pub use crate::record_count::extract_record_count;
pub use crate::request::InvocationRequest;
pub use crate::state::CsvToDbState;
