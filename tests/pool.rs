use poolio::{Command, Message, PanicSwitch, PoolError, Status, Supervisor, Verdict, WorkerCore};
use poolio::WorkerPhase;
use std::collections::VecDeque;

#[derive(Clone, Copy, Debug, PartialEq, Eq)]
enum Job {
    Increment,
    Unwind,
}

/// Runs a pool's decisions with workers that run their jobs at once, on the
/// calling thread; reports reach the coordinator in the order they were sent.
struct Pool {
    sup: Supervisor<Job>,
    workers: Vec<WorkerCore>,
    reports: VecDeque<Status>,
    counter: usize,
    handed_out: Vec<(usize, Job)>,
    spawned: usize,
    joined: usize,
}

impl Pool {
    fn new(size: usize, mode: PanicSwitch) -> Pool {
        let sup = Supervisor::new(size, mode).unwrap();
        let mut pool = Pool {
            sup,
            workers: Vec::new(),
            reports: VecDeque::new(),
            counter: 0,
            handed_out: Vec::new(),
            spawned: 0,
            joined: 0,
        };
        for id in 0..size {
            pool.workers.push(WorkerCore::new(id));
            pool.spawn(id);
        }
        pool
    }

    fn spawn(&mut self, id: usize) {
        self.workers[id] = WorkerCore::new(id);
        let s = self.workers[id].start();
        self.reports.push_back(s);
        self.spawned += 1;
    }

    fn join(&mut self, id: usize) {
        assert!(self.workers[id].is_finished());
        self.joined += 1;
    }

    fn react(&mut self) {
        while self.sup.takes_status() {
            let s = self.reports.pop_front().expect("a worker should have reported");
            assert!(self.sup.accepts(s));
            match self.sup.on_status(s) {
                Command::Assign(id, job) => {
                    self.handed_out.push((id, job));
                    let job = self.workers[id].on_instruction(Message::NewJob(job)).unwrap();
                    let completed = match job {
                        Job::Increment => {
                            self.counter += 1;
                            true
                        }
                        Job::Unwind => false,
                    };
                    let r = self.workers[id].on_outcome(completed);
                    self.reports.push_back(r);
                }
                Command::Dismiss(id) => {
                    assert!(self.workers[id].on_instruction::<Job>(Message::Terminate).is_none());
                    self.join(id);
                }
                Command::Retire(id) => self.join(id),
                Command::Replace(id) => {
                    self.join(id);
                    self.spawn(id);
                }
            }
        }
    }

    fn execute(&mut self, job: Job) {
        if self.sup.takes_order() {
            self.sup.on_order(Message::NewJob(job));
            self.react();
        }
    }

    fn shut_down(&mut self) -> Verdict {
        if self.sup.takes_order() {
            self.sup.on_order(Message::Terminate);
        }
        self.react();
        assert!(self.sup.is_finished());
        self.sup.verdict()
    }
}

#[test]
fn test_threadpool_new_ok() {
    let pool = Supervisor::<Job>::new(2, PanicSwitch::Respawn);
    assert!(matches!(pool, Ok(_)));
}

#[test]
fn test_threadpool_new_err() {
    let pool = Supervisor::<Job>::new(0, PanicSwitch::Respawn);
    assert!(matches!(pool, Err(_)));
}

#[test]
fn zero_workers_is_a_domain_error() {
    let pool = Supervisor::<Job>::new(0, PanicSwitch::Kill);
    assert!(matches!(pool, Err(PoolError::NoWorkers)));
    let e = PoolError::NoWorkers;
    assert_eq!(e.message(), "Setting up a pool with no workers is not allowed.");
}

#[test]
fn test_basic() {
    let mut pool = Pool::new(2, PanicSwitch::Kill);
    for _ in 0..2 {
        pool.execute(Job::Increment);
    }
    assert_eq!(pool.shut_down(), Verdict::Exit);
    assert_eq!(pool.counter, 2);
}

#[test]
fn test_threadpool_execute() {
    const N: usize = 5;
    const SIZE: usize = 2;
    let mut pool = Pool::new(SIZE, PanicSwitch::Respawn);
    for _ in 0..N {
        for _ in 0..SIZE {
            pool.execute(Job::Increment);
        }
        pool.execute(Job::Unwind);
    }
    assert_eq!(pool.shut_down(), Verdict::Exit);
    assert_eq!(pool.counter, N * SIZE);
    assert_eq!(pool.joined, pool.spawned);
}

#[test]
fn construct_and_destroy_joins_every_worker() {
    for size in 1..6 {
        for mode in [PanicSwitch::Kill, PanicSwitch::Respawn] {
            let mut pool = Pool::new(size, mode);
            assert_eq!(pool.shut_down(), Verdict::Exit);
            assert_eq!(pool.joined, size);
            assert_eq!(pool.counter, 0);
        }
    }
}

#[test]
fn every_job_runs_once_without_panics() {
    for size in 1..5 {
        for mode in [PanicSwitch::Kill, PanicSwitch::Respawn] {
            let mut pool = Pool::new(size, mode);
            for _ in 0..37 {
                pool.execute(Job::Increment);
            }
            assert_eq!(pool.shut_down(), Verdict::Exit);
            assert_eq!(pool.counter, 37);
            assert_eq!(pool.handed_out.len(), 37);
            assert_eq!(pool.joined, size);
        }
    }
}

#[test]
fn respawn_heals_after_interleaved_panics() {
    for size in 1..5 {
        let mut pool = Pool::new(size, PanicSwitch::Respawn);
        let mut increments = 0;
        for k in 0..30 {
            if k % 3 == 1 {
                pool.execute(Job::Unwind);
            } else {
                pool.execute(Job::Increment);
                increments += 1;
            }
        }
        assert_eq!(pool.shut_down(), Verdict::Exit);
        assert_eq!(pool.counter, increments);
        assert_eq!(pool.handed_out.len(), 30);
    }
}

#[test]
fn kill_panic_leads_to_abort() {
    let mut pool = Pool::new(4, PanicSwitch::Kill);
    pool.execute(Job::Unwind);
    for _ in 0..6 {
        pool.execute(Job::Increment);
    }
    assert!(!pool.sup.takes_order());
    assert_eq!(pool.shut_down(), Verdict::Abort(1));
    assert_eq!(pool.joined, 4);
}

#[test]
fn kill_panic_drops_the_job_in_hand() {
    // One worker: its panic report arrives while the second job waits for it.
    let mut pool = Pool::new(1, PanicSwitch::Kill);
    pool.execute(Job::Unwind);
    pool.execute(Job::Increment);
    assert!(pool.sup.is_finished());
    assert_eq!(pool.counter, 0);
    assert_eq!(pool.handed_out, vec![(0, Job::Unwind)]);
    assert_eq!(pool.shut_down(), Verdict::Abort(1));
}

#[test]
fn many_producers_count_every_job() {
    let mut pool = Pool::new(4, PanicSwitch::Respawn);
    for _ in 0..1000 {
        for _producer in 0..8 {
            pool.execute(Job::Increment);
        }
    }
    assert_eq!(pool.shut_down(), Verdict::Exit);
    assert_eq!(pool.counter, 8000);
}

#[test]
fn serial_jobs_are_handed_out_in_order() {
    let mut sup = Supervisor::<u32>::new(2, PanicSwitch::Kill).unwrap();
    sup.on_order(Message::NewJob(7));
    assert!(matches!(sup.on_status(Status::Idle(1)), Command::Assign(1, 7)));
    sup.on_order(Message::NewJob(8));
    assert!(matches!(sup.on_status(Status::Idle(0)), Command::Assign(0, 8)));
    sup.on_order(Message::Terminate);
    assert!(matches!(sup.on_status(Status::Idle(0)), Command::Dismiss(0)));
    assert!(!sup.is_finished());
    assert!(matches!(sup.on_status(Status::Idle(1)), Command::Dismiss(1)));
    assert!(sup.is_finished());
    assert_eq!(sup.verdict(), Verdict::Exit);
}

#[test]
fn respawn_keeps_the_job_in_hand() {
    let mut sup = Supervisor::<u32>::new(1, PanicSwitch::Respawn).unwrap();
    sup.on_order(Message::NewJob(1));
    assert!(matches!(sup.on_status(Status::Panic(0)), Command::Replace(0)));
    assert!(sup.takes_status());
    assert!(matches!(sup.on_status(Status::Idle(0)), Command::Assign(0, 1)));
    assert!(sup.takes_order());
}

#[test]
fn reports_of_joined_workers_are_refused() {
    let mut sup = Supervisor::<u32>::new(2, PanicSwitch::Kill).unwrap();
    assert!(!sup.accepts(Status::Idle(0)));
    sup.on_order(Message::Terminate);
    assert!(sup.accepts(Status::Idle(1)));
    assert!(!sup.accepts(Status::Idle(2)));
    assert!(matches!(sup.on_status(Status::Panic(1)), Command::Retire(1)));
    assert!(!sup.accepts(Status::Idle(1)));
    assert!(matches!(sup.on_status(Status::Idle(0)), Command::Dismiss(0)));
    assert_eq!(sup.verdict(), Verdict::Abort(1));
}

#[test]
fn labels_name_each_message() {
    assert_eq!(Message::NewJob(3u8).label(), "[NewJob]");
    assert_eq!(Message::<u8>::Terminate.label(), "[Terminate]");
    assert_eq!(Status::Idle(4).label(), "[idle]");
    assert_eq!(Status::Panic(4).label(), "[panic]");
    assert_eq!(Status::Panic(4).id(), 4);
}

#[test]
fn test_worker_thread_newjob() {
    const ID: usize = 0;
    let mut worker = WorkerCore::new(ID);
    assert!(matches!(worker.start(), Status::Idle(ID)));

    let mut flag = false;
    let job = worker.on_instruction(Message::NewJob(|f: &mut bool| *f = true)).unwrap();
    job(&mut flag);
    assert!(matches!(worker.on_outcome(true), Status::Idle(ID)));
    assert!(flag);

    assert!(worker.on_instruction(Message::NewJob(())).is_some());
    assert!(matches!(worker.on_outcome(false), Status::Panic(ID)));
    assert!(worker.is_finished());
    assert_eq!(worker.phase(), WorkerPhase::Panicked);
}

#[test]
fn test_worker_thread_terminate() {
    const ID: usize = 0;
    let mut worker = WorkerCore::new(ID);
    assert!(matches!(worker.start(), Status::Idle(ID)));
    assert!(worker.on_instruction::<()>(Message::Terminate).is_none());
    assert!(worker.is_finished());
    assert_eq!(worker.phase(), WorkerPhase::Terminated);
    assert_eq!(worker.id(), ID);
}
