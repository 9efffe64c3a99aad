//! A pool of persistent worker processes.
//!
//! A worker is a long-lived child process that runs a task file in a script
//! interpreter and is driven through many tasks over its standard input and
//! output, so that the interpreter's start-up cost is paid once. This crate
//! holds the protocol spoken with a worker, the state machine of a worker,
//! and the scheduler that hands tasks to a bounded set of workers.
//!
//! Nothing here touches a process. A [`Worker`] hands out [`Action`]s; its
//! caller performs them on the child process and reports each outcome as an
//! [`Event`].

pub mod batch;
pub mod frame;
pub mod payload;
pub mod pool;
pub mod script;
pub mod worker;

pub use batch::{collect_results, encode_all, TaskFailure};
pub use frame::{chunk_payload, classify_line, LineKind, Sentinel, CHUNK_SIZE};
pub use payload::{make_payloads, AsPayload, EmptyPayload, Payload, PayloadList, Scalar};
pub use pool::{Dispatch, WorkerPoolInner};
pub use worker::{Action, Event, Pending, Phase, Worker, WorkerError};
