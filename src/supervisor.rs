//! The coordinator's decisions.
//!
//! The coordinator owns the workers. It reads one order at a time; for a job
//! it waits for the next worker that reports idle and hands the job to that
//! worker. A worker whose job panicked is joined, and then either replaced
//! (`Respawn`) or lost, which starts the shutdown (`Kill`). On shutdown it
//! waits for a report of every remaining worker, stops and joins each, and at
//! the end tells whether the process must abort.
//!
//! [`Supervisor`] makes these decisions; the thread that owns it receives the
//! orders and reports and carries out the [`Command`]s it returns.
use vstd::prelude::*;

use crate::message::{Message, PanicSwitch, PoolError, Status};

verus! {

/// A worker slot: its worker runs, or its worker's thread has been joined.
#[derive(Clone, Copy, Debug, PartialEq, Eq, Structural)]
pub enum Slot {
    Live,
    Joined,
}

/// Where the coordinator stands.
#[derive(Clone, Copy, Debug, PartialEq, Eq, Structural)]
pub enum Phase {
    /// Waits for the next order.
    Dispatching,
    /// Holds a job and waits for a worker to report idle.
    AwaitingIdle,
    /// Shuts down: waits for the reports of the workers still live.
    Draining,
    /// Every worker has been joined.
    Finished,
}

/// What the coordinator's thread must do after a report.
pub enum Command<J> {
    /// Send this job to the worker with this staff number.
    Assign(usize, J),
    /// Tell this worker to stop, then join its thread.
    Dismiss(usize),
    /// Join this worker's thread; its job panicked and it is not replaced.
    Retire(usize),
    /// Join this worker's thread and spawn a fresh worker with the same staff number.
    Replace(usize),
}

/// How the coordinator ends once every worker has been joined.
#[derive(Clone, Copy, Debug, PartialEq, Eq, Structural)]
pub enum Verdict {
    /// Return normally.
    Exit,
    /// Abort the process: this many jobs panicked under [`PanicSwitch::Kill`].
    Abort(usize),
}

/// The number of live slots.
pub open spec fn live_count(slots: Seq<Slot>) -> nat
    decreases slots.len(),
{
    if slots.len() == 0 {
        0
    } else {
        live_count(slots.drop_last()) + if slots.last() is Live {
            1nat
        } else {
            0nat
        }
    }
}

/// The job held, as a sequence of at most one.
pub open spec fn held<J>(pending: Option<J>) -> Seq<J> {
    match pending {
        Some(job) => seq![job],
        None => Seq::empty(),
    }
}

/// The abstract state of the coordinator.
///
/// Besides what it decides on, it records every job it has accepted, in the
/// order of the orders; the jobs it has handed to workers, in the order they
/// were handed out; and the jobs it has dropped unrun.
pub struct SupervisorModel<J> {
    pub mode: PanicSwitch,
    pub slots: Seq<Slot>,
    pub live: nat,
    pub panicked: nat,
    pub phase: Phase,
    pub pending: Option<J>,
    pub accepted: Seq<J>,
    pub assigned: Seq<J>,
    pub discarded: Seq<J>,
}

/// A fresh coordinator with `size` live workers.
pub open spec fn initial<J>(size: usize, mode: PanicSwitch) -> SupervisorModel<J> {
    SupervisorModel {
        mode,
        slots: Seq::new(size as nat, |i: int| Slot::Live),
        live: size as nat,
        panicked: 0,
        phase: Phase::Dispatching,
        pending: None,
        accepted: Seq::empty(),
        assigned: Seq::empty(),
        discarded: Seq::empty(),
    }
}

impl<J> SupervisorModel<J> {
    /// What holds in every state the coordinator reaches.
    pub open spec fn well_formed(self) -> bool {
        &&& 1 <= self.slots.len() <= usize::MAX
        &&& self.live == live_count(self.slots)
        &&& self.panicked + self.live <= self.slots.len()
        &&& self.mode == PanicSwitch::Respawn ==> self.panicked == 0 && self.discarded.len() == 0
        &&& self.discarded.len() > 0 ==> self.panicked > 0 && (self.phase == Phase::Draining
            || self.phase == Phase::Finished)
        &&& self.accepted == self.assigned + self.discarded + held(self.pending)
        &&& (self.phase == Phase::Dispatching || self.phase == Phase::AwaitingIdle) ==> self.live
            == self.slots.len()
        &&& (self.phase == Phase::AwaitingIdle <==> self.pending is Some)
        &&& self.phase == Phase::Draining ==> self.live > 0
        &&& self.phase == Phase::Finished ==> self.live == 0
        &&& self.panicked > 0 ==> (self.phase == Phase::Draining || self.phase == Phase::Finished)
    }

    /// Whether the coordinator reads an order next.
    pub open spec fn takes_order(self) -> bool {
        self.phase == Phase::Dispatching
    }

    /// Whether the coordinator reads a report next.
    pub open spec fn takes_status(self) -> bool {
        self.phase == Phase::AwaitingIdle || self.phase == Phase::Draining
    }

    /// Whether `s` is a report the coordinator can take now: it reads reports,
    /// and `s` comes from a worker whose slot is live.
    pub open spec fn accepts(self, s: Status) -> bool {
        &&& self.takes_status()
        &&& s.worker() < self.slots.len()
        &&& self.slots[s.worker() as int] is Live
    }

    /// How the coordinator ends from this state.
    pub open spec fn verdict(self) -> Verdict {
        if self.panicked > 0 {
            Verdict::Abort(self.panicked as usize)
        } else {
            Verdict::Exit
        }
    }
}

/// The state after an order is read.
pub open spec fn after_order<J>(m: SupervisorModel<J>, o: Message<J>) -> SupervisorModel<J> {
    match o {
        Message::NewJob(job) => SupervisorModel {
            phase: Phase::AwaitingIdle,
            pending: Some(job),
            accepted: m.accepted.push(job),
            ..m
        },
        Message::Terminate => SupervisorModel { phase: Phase::Draining, ..m },
    }
}

/// The state after worker `id` is joined for good, counting a panicked job
/// when `count_panic` holds.
pub open spec fn retired<J>(m: SupervisorModel<J>, id: usize, count_panic: bool) -> SupervisorModel<
    J,
> {
    SupervisorModel {
        slots: m.slots.update(id as int, Slot::Joined),
        live: (m.live - 1) as nat,
        panicked: if count_panic {
            m.panicked + 1
        } else {
            m.panicked
        },
        phase: if m.live == 1 {
            Phase::Finished
        } else {
            Phase::Draining
        },
        ..m
    }
}

/// The state after a report is read.
pub open spec fn after_status<J>(m: SupervisorModel<J>, s: Status) -> SupervisorModel<J> {
    match s {
        Status::Idle(id) => if m.phase == Phase::AwaitingIdle {
            SupervisorModel {
                phase: Phase::Dispatching,
                pending: None,
                assigned: m.assigned.push(m.pending->0),
                ..m
            }
        } else {
            retired(m, id, false)
        },
        Status::Panic(id) => if m.phase == Phase::AwaitingIdle {
            match m.mode {
                PanicSwitch::Respawn => m,
                PanicSwitch::Kill => SupervisorModel {
                    pending: None,
                    discarded: m.discarded.push(m.pending->0),
                    ..retired(m, id, true)
                },
            }
        } else {
            retired(m, id, m.mode == PanicSwitch::Kill)
        },
    }
}

/// What the coordinator's thread must do after a report.
pub open spec fn command_for<J>(m: SupervisorModel<J>, s: Status) -> Command<J> {
    match s {
        Status::Idle(id) => if m.phase == Phase::AwaitingIdle {
            Command::Assign(id, m.pending->0)
        } else {
            Command::Dismiss(id)
        },
        Status::Panic(id) => if m.phase == Phase::AwaitingIdle && m.mode == PanicSwitch::Respawn {
            Command::Replace(id)
        } else {
            Command::Retire(id)
        },
    }
}

/// Setting one slot changes the live count by what the slot gains or loses.
pub proof fn lemma_live_count_update(slots: Seq<Slot>, i: int, v: Slot)
    requires
        0 <= i < slots.len(),
    ensures
        live_count(slots.update(i, v)) + (if slots[i] is Live {
            1int
        } else {
            0int
        }) == live_count(slots) + (if v is Live {
            1int
        } else {
            0int
        }),
    decreases slots.len(),
{
    let u = slots.update(i, v);
    if i == slots.len() - 1 {
        assert(u.drop_last() =~= slots.drop_last());
    } else {
        assert(u.drop_last() =~= slots.drop_last().update(i, v));
        lemma_live_count_update(slots.drop_last(), i, v);
    }
}

/// Slots that are all live count in full.
pub proof fn lemma_live_count_all_live(n: nat)
    ensures
        live_count(Seq::new(n, |i: int| Slot::Live)) == n,
    decreases n,
{
    if n > 0 {
        assert(Seq::new(n, |i: int| Slot::Live).drop_last() =~= Seq::new(
            (n - 1) as nat,
            |i: int| Slot::Live,
        ));
        lemma_live_count_all_live((n - 1) as nat);
    }
}

/// With no live slot, every slot has been joined.
pub proof fn lemma_live_count_zero(slots: Seq<Slot>)
    requires
        live_count(slots) == 0,
    ensures
        forall|i: int| 0 <= i < slots.len() ==> #[trigger] slots[i] == Slot::Joined,
    decreases slots.len(),
{
    if slots.len() > 0 {
        lemma_live_count_zero(slots.drop_last());
        assert forall|i: int| 0 <= i < slots.len() implies #[trigger] slots[i] == Slot::Joined by {
            if i < slots.len() - 1 {
                assert(slots.drop_last()[i] == slots[i]);
            }
        }
    }
}

/// The fresh coordinator is well formed.
pub proof fn lemma_initial_well_formed<J>(size: usize, mode: PanicSwitch)
    requires
        size >= 1,
    ensures
        initial::<J>(size, mode).well_formed(),
{
    lemma_live_count_all_live(size as nat);
    let m = initial::<J>(size, mode);
    assert(m.accepted =~= m.assigned + m.discarded + held(m.pending));
}

/// Reading an order keeps the coordinator well formed.
pub proof fn lemma_after_order_well_formed<J>(m: SupervisorModel<J>, o: Message<J>)
    requires
        m.well_formed(),
        m.takes_order(),
    ensures
        after_order(m, o).well_formed(),
{
    let n = after_order(m, o);
    assert(n.accepted =~= n.assigned + n.discarded + held(n.pending));
}

/// Reading an acceptable report keeps the coordinator well formed.
pub proof fn lemma_after_status_well_formed<J>(m: SupervisorModel<J>, s: Status)
    requires
        m.well_formed(),
        m.accepts(s),
    ensures
        after_status(m, s).well_formed(),
{
    let id = s.worker();
    lemma_live_count_update(m.slots, id as int, Slot::Joined);
    let n = after_status(m, s);
    assert(n.accepted =~= n.assigned + n.discarded + held(n.pending));
}

/// The coordinator: which worker gets each job, what a panicked job costs,
/// and when shutdown is done.
pub struct Supervisor<J> {
    mode: PanicSwitch,
    slots: Vec<Slot>,
    live: usize,
    panicked: usize,
    phase: Phase,
    pending: Option<J>,
    accepted: Ghost<Seq<J>>,
    assigned: Ghost<Seq<J>>,
    discarded: Ghost<Seq<J>>,
}

impl<J> View for Supervisor<J> {
    type V = SupervisorModel<J>;

    closed spec fn view(&self) -> SupervisorModel<J> {
        SupervisorModel {
            mode: self.mode,
            slots: self.slots@,
            live: self.live as nat,
            panicked: self.panicked as nat,
            phase: self.phase,
            pending: self.pending,
            accepted: self.accepted@,
            assigned: self.assigned@,
            discarded: self.discarded@,
        }
    }
}

impl<J> Supervisor<J> {
    /// A coordinator for `size` workers, with staff numbers `0..size`, under
    /// `mode`. Fails when `size` is 0.
    pub fn new(size: usize, mode: PanicSwitch) -> (r: Result<Supervisor<J>, PoolError>)
        ensures
            size == 0 <==> r is Err,
            r matches Err(e) ==> e == PoolError::NoWorkers,
            r matches Ok(s) ==> s@ == initial::<J>(size, mode) && s@.well_formed(),
    {
        if size == 0 {
            return Err(PoolError::NoWorkers);
        }
        let mut slots: Vec<Slot> = Vec::with_capacity(size);
        let mut i: usize = 0;
        while i < size
            invariant
                i <= size,
                slots@ =~= Seq::new(i as nat, |k: int| Slot::Live),
            decreases size - i,
        {
            slots.push(Slot::Live);
            i = i + 1;
        }
        let s = Supervisor {
            mode,
            slots,
            live: size,
            panicked: 0,
            phase: Phase::Dispatching,
            pending: None,
            accepted: Ghost(Seq::empty()),
            assigned: Ghost(Seq::empty()),
            discarded: Ghost(Seq::empty()),
        };
        proof {
            lemma_initial_well_formed::<J>(size, mode);
            assert(s@ == initial::<J>(size, mode));
        }
        Ok(s)
    }

    /// Whether the next message to read is an order.
    pub fn takes_order(&self) -> (r: bool)
        ensures
            r == self@.takes_order(),
    {
        self.phase == Phase::Dispatching
    }

    /// Whether the next message to read is a worker's report.
    pub fn takes_status(&self) -> (r: bool)
        ensures
            r == self@.takes_status(),
    {
        self.phase == Phase::AwaitingIdle || self.phase == Phase::Draining
    }

    /// Whether every worker has been joined, so that the coordinator can end.
    pub fn is_finished(&self) -> (r: bool)
        ensures
            r == (self@.phase == Phase::Finished),
    {
        self.phase == Phase::Finished
    }

    /// Whether `s` is a report that can be read now, from a worker still live.
    pub fn accepts(&self, s: Status) -> (r: bool)
        ensures
            r == self@.accepts(s),
    {
        let id = s.id();
        self.takes_status() && id < self.slots.len() && self.slots[id] == Slot::Live
    }

    /// How the coordinator ends: it aborts the process when jobs panicked
    /// under `Kill`, and returns normally otherwise.
    pub fn verdict(&self) -> (r: Verdict)
        ensures
            r == self@.verdict(),
    {
        if self.panicked > 0 {
            Verdict::Abort(self.panicked)
        } else {
            Verdict::Exit
        }
    }

    /// Joins worker `id` for good.
    fn retire(&mut self, id: usize, count_panic: bool)
        requires
            old(self)@.live == live_count(old(self)@.slots),
            old(self)@.panicked + old(self)@.live <= old(self)@.slots.len() <= usize::MAX,
            id < old(self)@.slots.len(),
            old(self)@.slots[id as int] is Live,
        ensures
            final(self)@ == retired(old(self)@, id, count_panic),
    {
        proof {
            lemma_live_count_update(self.slots@, id as int, Slot::Joined);
        }
        self.slots.set(id, Slot::Joined);
        self.live = self.live - 1;
        if count_panic {
            self.panicked = self.panicked + 1;
        }
        self.phase = if self.live == 0 {
            Phase::Finished
        } else {
            Phase::Draining
        };
    }

    /// Reads an order: a job is held until a worker reports idle; a stop
    /// starts the shutdown.
    pub fn on_order(&mut self, o: Message<J>)
        requires
            old(self)@.well_formed(),
            old(self)@.takes_order(),
        ensures
            final(self)@ == after_order(old(self)@, o),
            final(self)@.well_formed(),
    {
        proof {
            lemma_after_order_well_formed(self@, o);
        }
        match o {
            Message::NewJob(job) => {
                self.accepted = Ghost(self.accepted@.push(job));
                self.pending = Some(job);
                self.phase = Phase::AwaitingIdle;
            },
            Message::Terminate => {
                self.phase = Phase::Draining;
            },
        }
    }

    /// Reads a report of a live worker and says what to do about it.
    ///
    /// While a job is held, an idle worker gets it. A panicked worker is
    /// replaced under `Respawn`, and the job waits on; under `Kill` it is
    /// joined, the job is dropped, and the shutdown starts. While shutting
    /// down, an idle worker is stopped and joined, a panicked one joined, and
    /// a panic under `Kill` is counted.
    pub fn on_status(&mut self, s: Status) -> (r: Command<J>)
        requires
            old(self)@.well_formed(),
            old(self)@.accepts(s),
        ensures
            final(self)@ == after_status(old(self)@, s),
            r == command_for(old(self)@, s),
            final(self)@.well_formed(),
    {
        proof {
            lemma_after_status_well_formed(self@, s);
        }
        let id = s.id();
        match s {
            Status::Idle(_) => match self.pending.take() {
                Some(job) => {
                    self.assigned = Ghost(self.assigned@.push(job));
                    self.phase = Phase::Dispatching;
                    Command::Assign(id, job)
                },
                None => {
                    self.retire(id, false);
                    Command::Dismiss(id)
                },
            },
            Status::Panic(_) => match self.mode {
                PanicSwitch::Respawn => {
                    if self.pending.is_some() {
                        Command::Replace(id)
                    } else {
                        self.retire(id, false);
                        Command::Retire(id)
                    }
                },
                PanicSwitch::Kill => {
                    if let Some(job) = self.pending.take() {
                        self.discarded = Ghost(self.discarded@.push(job));
                    }
                    self.retire(id, true);
                    Command::Retire(id)
                },
            },
        }
    }
}

} // verus!
