//! A worker's side of the readiness handshake.
//!
//! A worker announces itself once, then alternates between taking an
//! instruction and reporting how the job went, until it is told to stop or
//! its job panics. [`WorkerCore`] holds that lifecycle; the thread that owns it
//! receives the instructions, runs the jobs and sends the reports it returns.
use vstd::prelude::*;

use crate::message::{Message, Status};

verus! {

/// Where a worker stands in its lifecycle.
#[derive(Clone, Copy, Debug, PartialEq, Eq, Structural)]
pub enum WorkerPhase {
    /// Created, and has not reported for duty yet.
    Starting,
    /// Has reported idle and waits for an instruction.
    Idle,
    /// Runs a job.
    Running,
    /// Was told to stop; sends nothing more.
    Terminated,
    /// Its job panicked; sends nothing more.
    Panicked,
}

/// The abstract state of a worker: its staff number, its phase, and every
/// report it has produced so far, oldest first.
pub struct WorkerModel {
    pub id: usize,
    pub phase: WorkerPhase,
    pub reports: Seq<Status>,
}

impl WorkerModel {
    /// What holds in every state a worker reaches: it reports only under its
    /// own staff number; it has reported iff it has started; every report but
    /// the last is `Idle`; and the last one matches its phase (`Idle` while it
    /// waits or runs, `Panic` once its job panicked).
    pub open spec fn well_formed(self) -> bool {
        &&& (self.phase == WorkerPhase::Starting <==> self.reports.len() == 0)
        &&& forall|i: int| 0 <= i < self.reports.len() ==> #[trigger] self.reports[i].worker() == self.id
        &&& forall|i: int| 0 <= i < self.reports.len() - 1 ==> #[trigger] self.reports[i] is Idle
        &&& (self.phase == WorkerPhase::Idle || self.phase == WorkerPhase::Running)
            ==> self.reports.last() is Idle
        &&& self.phase == WorkerPhase::Panicked <==> (self.reports.len() > 0 && self.reports.last() is Panic)
    }
}

/// The state after a worker reports for duty.
pub open spec fn started(w: WorkerModel) -> WorkerModel {
    WorkerModel { phase: WorkerPhase::Idle, reports: w.reports.push(Status::Idle(w.id)), ..w }
}

/// The state after an idle worker takes an instruction: a job sets it
/// running, a stop ends it. Neither produces a report.
pub open spec fn instructed(w: WorkerModel, takes_job: bool) -> WorkerModel {
    WorkerModel {
        phase: if takes_job { WorkerPhase::Running } else { WorkerPhase::Terminated },
        ..w
    }
}

/// The state after a running job returns (`completed`) or panics.
pub open spec fn job_done(w: WorkerModel, completed: bool) -> WorkerModel {
    if completed {
        WorkerModel { phase: WorkerPhase::Idle, reports: w.reports.push(Status::Idle(w.id)), ..w }
    } else {
        WorkerModel {
            phase: WorkerPhase::Panicked,
            reports: w.reports.push(Status::Panic(w.id)),
            ..w
        }
    }
}

/// The decisions of one worker.
pub struct WorkerCore {
    id: usize,
    phase: WorkerPhase,
    reports: Ghost<Seq<Status>>,
}

impl View for WorkerCore {
    type V = WorkerModel;

    closed spec fn view(&self) -> WorkerModel {
        WorkerModel { id: self.id, phase: self.phase, reports: self.reports@ }
    }
}

impl WorkerCore {
    /// A worker with staff number `id` that has not reported yet.
    pub fn new(id: usize) -> (r: WorkerCore)
        ensures
            r@ == (WorkerModel { id, phase: WorkerPhase::Starting, reports: Seq::empty() }),
            r@.well_formed(),
    {
        WorkerCore { id, phase: WorkerPhase::Starting, reports: Ghost(Seq::empty()) }
    }

    /// The worker's staff number.
    pub fn id(&self) -> (r: usize)
        ensures
            r == self@.id,
    {
        self.id
    }

    /// The worker's phase.
    pub fn phase(&self) -> (r: WorkerPhase)
        ensures
            r == self@.phase,
    {
        self.phase
    }

    /// Whether the worker has stopped for good, so that its thread can end.
    pub fn is_finished(&self) -> (r: bool)
        ensures
            r == (self@.phase == WorkerPhase::Terminated || self@.phase == WorkerPhase::Panicked),
    {
        match self.phase {
            WorkerPhase::Terminated | WorkerPhase::Panicked => true,
            _ => false,
        }
    }

    /// Reports for duty: the one report a worker sends before it takes any
    /// instruction, which is `Idle` with its own staff number.
    pub fn start(&mut self) -> (r: Status)
        requires
            old(self)@.well_formed(),
            old(self)@.phase == WorkerPhase::Starting,
        ensures
            final(self)@.well_formed(),
            r == Status::Idle(old(self)@.id),
            final(self)@ == started(old(self)@),
            final(self)@.reports == seq![r],
    {
        self.phase = WorkerPhase::Idle;
        let r = Status::Idle(self.id);
        self.reports = Ghost(self.reports@.push(r));
        r
    }

    /// Takes an instruction: hands back the job to run, or `None` when the
    /// worker is told to stop. No report comes of it.
    pub fn on_instruction<J>(&mut self, m: Message<J>) -> (r: Option<J>)
        requires
            old(self)@.well_formed(),
            old(self)@.phase == WorkerPhase::Idle,
        ensures
            final(self)@.well_formed(),
            final(self)@ == instructed(old(self)@, m is NewJob),
            m matches Message::NewJob(job) ==> r == Some(job),
            m is Terminate ==> r is None,
            final(self)@.reports == old(self)@.reports,
    {
        match m {
            Message::NewJob(job) => {
                self.phase = WorkerPhase::Running;
                Some(job)
            },
            Message::Terminate => {
                self.phase = WorkerPhase::Terminated;
                None
            },
        }
    }

    /// Reports how the running job went: `Idle` when it returned, after which
    /// the worker waits for the next instruction; `Panic` when it unwound,
    /// after which the worker has stopped and sends nothing more.
    pub fn on_outcome(&mut self, completed: bool) -> (r: Status)
        requires
            old(self)@.well_formed(),
            old(self)@.phase == WorkerPhase::Running,
        ensures
            final(self)@.well_formed(),
            final(self)@ == job_done(old(self)@, completed),
            completed ==> r == Status::Idle(old(self)@.id),
            !completed ==> r == Status::Panic(old(self)@.id),
            final(self)@.reports == old(self)@.reports.push(r),
    {
        let r = if completed {
            self.phase = WorkerPhase::Idle;
            Status::Idle(self.id)
        } else {
            self.phase = WorkerPhase::Panicked;
            Status::Panic(self.id)
        };
        self.reports = Ghost(self.reports@.push(r));
        r
    }
}

} // verus!
