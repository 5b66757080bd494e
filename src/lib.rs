//! A fixed-size thread pool whose coordinator and workers talk only over channels.
//!
//! The pool's decisions are kept apart from its threads: [`Supervisor`] is the
//! coordinator's state machine (which worker gets a job, what happens when a job
//! panics, when shutdown is complete) and [`WorkerCore`] is a worker's. Both are
//! driven by whoever owns the threads and channels, and both are verified.
pub mod laws;
pub mod message;
pub mod supervisor;
pub mod worker;

pub use laws::Event;
pub use message::{Message, PanicSwitch, PoolError, Status};
pub use supervisor::{Command, Phase, Slot, Supervisor, SupervisorModel, Verdict};
pub use worker::{WorkerCore, WorkerModel, WorkerPhase};
