//! The messages that flow between the pool's handle, its coordinator and its workers.
use vstd::prelude::*;

verus! {

/// What the pool does when a job panics while it runs on a worker.
#[derive(Clone, Copy, Debug, PartialEq, Eq, Structural)]
pub enum PanicSwitch {
    /// Finish the jobs that are running, then abort the whole process.
    Kill,
    /// Join the worker whose job panicked and spawn a fresh one in its slot.
    Respawn,
}

/// An order to the coordinator, or an instruction to one worker.
pub enum Message<J> {
    /// Run this job.
    NewJob(J),
    /// Finish what is running and shut down.
    Terminate,
}

impl<J> Message<J> {
    /// A short tag naming the kind of message, for diagnostics.
    pub fn label(&self) -> (r: &'static str)
        ensures
            self is NewJob ==> r@ == "[NewJob]"@,
            self is Terminate ==> r@ == "[Terminate]"@,
    {
        match self {
            Message::NewJob(_) => "[NewJob]",
            Message::Terminate => "[Terminate]",
        }
    }
}

/// A report of a worker, identified by its staff number, to the coordinator.
#[derive(Clone, Copy, Debug, PartialEq, Eq, Structural)]
pub enum Status {
    /// The worker is ready for a job.
    Idle(usize),
    /// The worker's job panicked; the worker has stopped.
    Panic(usize),
}

impl Status {
    /// The staff number of the worker that sent this report.
    pub open spec fn worker(self) -> usize {
        match self {
            Status::Idle(id) => id,
            Status::Panic(id) => id,
        }
    }

    /// The staff number of the worker that sent this report.
    pub fn id(&self) -> (r: usize)
        ensures
            r == self.worker(),
    {
        match self {
            Status::Idle(id) => *id,
            Status::Panic(id) => *id,
        }
    }

    /// A short tag naming the kind of report, for diagnostics.
    pub fn label(&self) -> (r: &'static str)
        ensures
            self is Idle ==> r@ == "[idle]"@,
            self is Panic ==> r@ == "[panic]"@,
    {
        match self {
            Status::Idle(_) => "[idle]",
            Status::Panic(_) => "[panic]",
        }
    }
}

/// Why a pool cannot be set up.
#[derive(Clone, Copy, Debug, PartialEq, Eq, Structural)]
pub enum PoolError {
    /// A pool was asked for with no workers.
    NoWorkers,
}

impl PoolError {
    /// The error's description.
    pub fn message(&self) -> (r: &'static str)
        ensures
            r@ == "Setting up a pool with no workers is not allowed."@,
    {
        match self {
            PoolError::NoWorkers => "Setting up a pool with no workers is not allowed.",
        }
    }
}

} // verus!
