//! What holds of whole runs of the coordinator.
//!
//! A run is the sequence of messages the coordinator reads, orders and
//! reports, each one read when the coordinator is ready for it.
use vstd::prelude::*;

use crate::message::{Message, PanicSwitch, Status};
use crate::supervisor::{
    after_order, after_status, held, initial, lemma_after_order_well_formed,
    lemma_after_status_well_formed, lemma_live_count_zero, Phase, Slot, SupervisorModel, Verdict,
};

verus! {

/// A message the coordinator reads.
pub enum Event<J> {
    /// An order from the pool's handle.
    Order(Message<J>),
    /// A report from a worker.
    Report(Status),
}

/// Whether the coordinator can read `e` now.
pub open spec fn enabled<J>(m: SupervisorModel<J>, e: Event<J>) -> bool {
    match e {
        Event::Order(_) => m.takes_order(),
        Event::Report(s) => m.accepts(s),
    }
}

/// The state after the coordinator reads `e`.
pub open spec fn step<J>(m: SupervisorModel<J>, e: Event<J>) -> SupervisorModel<J> {
    match e {
        Event::Order(o) => after_order(m, o),
        Event::Report(s) => after_status(m, s),
    }
}

/// Whether the coordinator can read `es` in turn, starting from `m`.
pub open spec fn admissible<J>(m: SupervisorModel<J>, es: Seq<Event<J>>) -> bool
    decreases es.len(),
{
    es.len() == 0 || (enabled(m, es[0]) && admissible(step(m, es[0]), es.drop_first()))
}

/// The state after the coordinator reads `es` in turn, starting from `m`.
pub open spec fn run<J>(m: SupervisorModel<J>, es: Seq<Event<J>>) -> SupervisorModel<J>
    decreases es.len(),
{
    if es.len() == 0 {
        m
    } else {
        run(step(m, es[0]), es.drop_first())
    }
}

/// The jobs that the orders among `es` carry, in order.
pub open spec fn jobs_in<J>(es: Seq<Event<J>>) -> Seq<J>
    decreases es.len(),
{
    if es.len() == 0 {
        Seq::empty()
    } else {
        match es[0] {
            Event::Order(Message::NewJob(job)) => seq![job] + jobs_in(es.drop_first()),
            _ => jobs_in(es.drop_first()),
        }
    }
}

/// Whether `e` reports a panicked job.
pub open spec fn reports_panic<J>(e: Event<J>) -> bool {
    e matches Event::Report(s) && s is Panic
}

/// Whether some message of `es` reports a panicked job.
pub open spec fn any_panic<J>(es: Seq<Event<J>>) -> bool {
    exists|i: int| 0 <= i < es.len() && #[trigger] reports_panic(es[i])
}

/// Every slot has been joined.
pub open spec fn all_joined(slots: Seq<Slot>) -> bool {
    forall|i: int| 0 <= i < slots.len() ==> #[trigger] slots[i] == Slot::Joined
}

/// What a run keeps and changes: it stays well formed, accepts exactly the
/// jobs of its orders, never lowers the panic count, raises it on every
/// panic under `Kill`, leaves it and the dropped jobs alone without a panic,
/// and once shutting down reads no more orders.
pub proof fn lemma_run<J>(m: SupervisorModel<J>, es: Seq<Event<J>>)
    requires
        m.well_formed(),
        admissible(m, es),
    ensures
        run(m, es).well_formed(),
        run(m, es).mode == m.mode,
        run(m, es).slots.len() == m.slots.len(),
        run(m, es).accepted == m.accepted + jobs_in(es),
        run(m, es).panicked >= m.panicked,
        m.mode == PanicSwitch::Kill && any_panic(es) ==> run(m, es).panicked > m.panicked,
        !any_panic(es) ==> run(m, es).panicked == m.panicked && run(m, es).discarded
            == m.discarded,
        (m.phase == Phase::Draining || m.phase == Phase::Finished) ==> (run(m, es).phase
            == Phase::Draining || run(m, es).phase == Phase::Finished) && jobs_in(es).len() == 0,
    decreases es.len(),
{
    if es.len() == 0 {
        assert(m.accepted + jobs_in(es) =~= m.accepted);
    } else {
        let e = es[0];
        let rest = es.drop_first();
        match e {
            Event::Order(o) => lemma_after_order_well_formed(m, o),
            Event::Report(s) => lemma_after_status_well_formed(m, s),
        }
        lemma_run(step(m, e), rest);
        match e {
            Event::Order(Message::NewJob(job)) => {
                assert(m.accepted + jobs_in(es) =~= m.accepted.push(job) + jobs_in(rest));
            },
            _ => {
                assert(m.accepted + jobs_in(es) =~= m.accepted + jobs_in(rest));
            },
        }
        if any_panic(es) && !reports_panic(e) {
            let i = choose|i: int| 0 <= i < es.len() && #[trigger] reports_panic(es[i]);
            assert(reports_panic(rest[i - 1]));
        }
        if !any_panic(es) {
            assert forall|i: int| 0 <= i < rest.len() implies !#[trigger] reports_panic(rest[i]) by {
                assert(rest[i] == es[i + 1]);
            }
            assert(!reports_panic(es[0]));
        }
    }
}

/// Shutdown joins every worker: from the moment the coordinator starts to
/// shut down, as many reports as it has live workers bring it to the end,
/// with every slot joined.
pub proof fn law_shutdown_joins_every_worker<J>(m: SupervisorModel<J>, es: Seq<Event<J>>)
    requires
        m.well_formed(),
        m.phase == Phase::Draining,
        admissible(m, es),
        es.len() == m.live,
    ensures
        run(m, es).phase == Phase::Finished,
        all_joined(run(m, es).slots),
    decreases es.len(),
{
    let n = step(m, es[0]);
    assert(es[0] is Report);
    let s = es[0]->Report_0;
    lemma_after_status_well_formed(m, s);
    assert(n.live == m.live - 1);
    if m.live == 1 {
        assert(run(n, es.drop_first()) == n);
        lemma_live_count_zero(n.slots);
    } else {
        law_shutdown_joins_every_worker(n, es.drop_first());
    }
}

/// A pool that is stopped before it gets any job shuts down cleanly: once
/// each worker has sent its first report, which is `Idle` since it was given
/// no job, every worker has been joined, no job was handed out, and the
/// coordinator returns normally.
pub proof fn law_idle_pool_shuts_down_cleanly<J>(
    size: usize,
    mode: PanicSwitch,
    reports: Seq<Event<J>>,
)
    requires
        size >= 1,
        reports.len() == size,
        forall|i: int| 0 <= i < reports.len() ==> #[trigger] reports[i] matches Event::Report(
            Status::Idle(_),
        ),
        admissible(initial::<J>(size, mode), seq![Event::Order(Message::Terminate)] + reports),
    ensures
        ({
            let end = run(initial::<J>(size, mode), seq![Event::Order(Message::Terminate)] + reports);
            &&& end.phase == Phase::Finished
            &&& all_joined(end.slots)
            &&& end.assigned.len() == 0
            &&& end.verdict() == Verdict::Exit
        }),
{
    let m = initial::<J>(size, mode);
    let es = seq![Event::Order(Message::Terminate)] + reports;
    crate::supervisor::lemma_initial_well_formed::<J>(size, mode);
    assert(es.drop_first() =~= reports);
    let d = step(m, es[0]);
    lemma_after_order_well_formed(m, Message::Terminate);
    law_shutdown_joins_every_worker(d, reports);
    lemma_run(d, reports);
    assert forall|i: int| 0 <= i < reports.len() implies !#[trigger] reports_panic(reports[i]) by {
        assert(reports[i] matches Event::Report(Status::Idle(_)));
    }
    assert(d.accepted == d.assigned + d.discarded + held(d.pending));
    assert(d.accepted.len() == 0);
}

/// The jobs of two runs one after the other are the jobs of each, in turn.
pub proof fn lemma_jobs_in_append<J>(x: Seq<Event<J>>, y: Seq<Event<J>>)
    ensures
        jobs_in(x + y) == jobs_in(x) + jobs_in(y),
    decreases x.len(),
{
    if x.len() == 0 {
        assert(x + y =~= y);
        assert(jobs_in(x) + jobs_in(y) =~= jobs_in(y));
    } else {
        assert((x + y).drop_first() =~= x.drop_first() + y);
        lemma_jobs_in_append(x.drop_first(), y);
        match x[0] {
            Event::Order(Message::NewJob(job)) => {
                assert(seq![job] + (jobs_in(x.drop_first()) + jobs_in(y)) =~= (seq![job]
                    + jobs_in(x.drop_first())) + jobs_in(y));
            },
            _ => {},
        }
    }
}

/// At the end of a run from a fresh coordinator, with no job dropped, the
/// workers were handed exactly the jobs that were ordered, each once, in the
/// order of the orders.
proof fn lemma_finished_hands_out_all<J>(size: usize, mode: PanicSwitch, es: Seq<Event<J>>)
    requires
        size >= 1,
        admissible(initial::<J>(size, mode), es),
        run(initial::<J>(size, mode), es).phase == Phase::Finished,
        run(initial::<J>(size, mode), es).discarded.len() == 0,
    ensures
        run(initial::<J>(size, mode), es).assigned == jobs_in(es),
{
    let m = initial::<J>(size, mode);
    crate::supervisor::lemma_initial_well_formed::<J>(size, mode);
    lemma_run(m, es);
    let end = run(m, es);
    assert(m.accepted + jobs_in(es) =~= jobs_in(es));
    assert(end.assigned + end.discarded + held(end.pending) =~= end.assigned);
}

/// Without a panicked job, every job ordered runs: once the coordinator is
/// done, the workers were handed exactly the jobs that were ordered, each
/// once and in the order of the orders, and the coordinator returns normally.
pub proof fn law_every_job_handed_out<J>(size: usize, mode: PanicSwitch, es: Seq<Event<J>>)
    requires
        size >= 1,
        admissible(initial::<J>(size, mode), es),
        run(initial::<J>(size, mode), es).phase == Phase::Finished,
        !any_panic(es),
    ensures
        run(initial::<J>(size, mode), es).assigned == jobs_in(es),
        run(initial::<J>(size, mode), es).verdict() == Verdict::Exit,
{
    crate::supervisor::lemma_initial_well_formed::<J>(size, mode);
    lemma_run(initial::<J>(size, mode), es);
    lemma_finished_hands_out_all(size, mode, es);
}

/// Under `Respawn` the pool heals itself: however many jobs panic, once the
/// coordinator is done every job ordered was handed to a worker, each once
/// and in order, and the coordinator returns normally.
pub proof fn law_respawn_hands_out_every_job<J>(size: usize, es: Seq<Event<J>>)
    requires
        size >= 1,
        admissible(initial::<J>(size, PanicSwitch::Respawn), es),
        run(initial::<J>(size, PanicSwitch::Respawn), es).phase == Phase::Finished,
    ensures
        run(initial::<J>(size, PanicSwitch::Respawn), es).assigned == jobs_in(es),
        run(initial::<J>(size, PanicSwitch::Respawn), es).verdict() == Verdict::Exit,
{
    crate::supervisor::lemma_initial_well_formed::<J>(size, PanicSwitch::Respawn);
    lemma_run(initial::<J>(size, PanicSwitch::Respawn), es);
    lemma_finished_hands_out_all(size, PanicSwitch::Respawn, es);
}

/// Under `Kill` one panicked job dooms the process: from the report of the
/// panic on, the coordinator reads no more orders, and it ends by aborting.
pub proof fn law_kill_panic_aborts<J>(size: usize, es: Seq<Event<J>>)
    requires
        size >= 1,
        admissible(initial::<J>(size, PanicSwitch::Kill), es),
        any_panic(es),
    ensures
        !run(initial::<J>(size, PanicSwitch::Kill), es).takes_order(),
        run(initial::<J>(size, PanicSwitch::Kill), es).verdict() is Abort,
{
    crate::supervisor::lemma_initial_well_formed::<J>(size, PanicSwitch::Kill);
    lemma_run(initial::<J>(size, PanicSwitch::Kill), es);
}

/// Two jobs ordered one after the other both run, the first handed out
/// before the second, before a shutdown without panics is done.
pub proof fn law_serial_jobs_run_in_order<J>(
    size: usize,
    mode: PanicSwitch,
    es: Seq<Event<J>>,
    a: int,
    b: int,
    first: J,
    second: J,
)
    requires
        size >= 1,
        0 <= a < b < es.len(),
        es[a] == Event::Order(Message::NewJob(first)),
        es[b] == Event::Order(Message::NewJob(second)),
        admissible(initial::<J>(size, mode), es),
        run(initial::<J>(size, mode), es).phase == Phase::Finished,
        !any_panic(es),
    ensures
        exists|p: int, q: int|
            0 <= p < q < run(initial::<J>(size, mode), es).assigned.len() && run(
                initial::<J>(size, mode),
                es,
            ).assigned[p] == first && run(initial::<J>(size, mode), es).assigned[q] == second,
{
    law_every_job_handed_out(size, mode, es);
    let x = es.take(a);
    let y = es.subrange(a, b);
    let z = es.skip(b);
    assert(es =~= x + y + z);
    lemma_jobs_in_append(x + y, z);
    lemma_jobs_in_append(x, y);
    assert(y.drop_first() =~= es.subrange(a + 1, b));
    assert(jobs_in(y) == seq![first] + jobs_in(es.subrange(a + 1, b)));
    assert(z[0] == es[b]);
    assert(jobs_in(z) == seq![second] + jobs_in(z.drop_first()));
    let all = jobs_in(es);
    let p = jobs_in(x).len() as int;
    let q = p + jobs_in(y).len();
    assert(all == jobs_in(x) + jobs_in(y) + jobs_in(z));
    assert(all[p] == first);
    assert(all[q] == second);
}

} // verus!
