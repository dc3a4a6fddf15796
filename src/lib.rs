//! A background processing worker driven by a command/response protocol.
//!
//! A caller holds a [`DProc`] handle and submits [`DProcCommand`]s; the
//! worker side ([`Worker`]) takes them one at a time, keeps the last samples
//! it was sent, and answers a processing request with progress reports and a
//! terminal [`DProcResponse::Data`]. Samples are carried as the bit patterns
//! of IEEE-754 doubles: the protocol moves them and never computes with them.
pub mod channel;
pub mod dproc;
pub mod protocol;
pub mod worker;
pub mod guarantees;

pub use channel::Incoming;
pub use dproc::{DProc, Polled, Worker};
pub use protocol::{CommandView, DProcCommand, DProcResponse, GeneralError, ResponseView, Sample};
pub use worker::{CHUNK, WorkerState, progress_percent};
