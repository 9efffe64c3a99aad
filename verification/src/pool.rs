//! The scheduler: a bounded set of workers and the tasks that run on them.
//!
//! The pool hands every task to the first worker that is free, makes a new
//! worker while there is room, and otherwise reports that it is saturated, so
//! that the caller can wait and ask again.

use crate::frame::texts;
use crate::payload::{payload_text, AsPayload, Payload};
use crate::script::{handshake_script, task_script};
use crate::worker::{
    lemma_handshake_script_fits, lemma_launch_wf, lemma_step_starts_no_task, lemma_step_wf,
    lemma_task_script_fits, Action, ActionView, Event, EventView, Worker, WorkerError, WorkerView,
};
use vstd::prelude::*;
use vstd::string::*;

verus! {

/// The words of a command line, as `shell_words::split` cuts it, or `None`
/// where it fails, which it does on a quote that is not closed.
pub uninterp spec fn shell_split(command: Seq<char>) -> Option<Seq<Seq<char>>>;

/// `shell_words::ParseError`, the error of `shell_words::split`.
#[verifier::external_type_specification]
#[verifier::external_body]
pub struct ExParseError(shell_words::ParseError);

/// `shell_words::split`, which cuts a command line into words as a shell
/// would and fails where a quote is not closed. What it returns depends on
/// `command` alone and is not spelled out here; it goes by the name
/// `shell_split`, which is `None` exactly where the call fails.
#[verifier::external_body]
fn split_words(command: &str) -> (words: Result<Vec<String>, shell_words::ParseError>)
    ensures
        match words {
            Ok(w) => shell_split(command@) == Some(texts(w@)),
            Err(_) => shell_split(command@) is None,
        },
{
    shell_words::split(command)
}

/// The pool's state: its workers, its capacity, the number of tasks under
/// way, and how workers are started.
#[derive(Clone, Debug)]
pub struct WorkerPoolInner {
    /// The command that starts a worker's child, word by word.
    pub binary_args: Vec<String>,
    /// The workers, in the order in which they were made.
    pub workers: Vec<Worker>,
    /// The largest number of workers that the pool may hold.
    pub max_workers: usize,
    /// The number of tasks under way.
    pub busy_counter: usize,
    /// Whether new workers trace their traffic.
    pub debug: bool,
}

/// The mathematical model of a [`WorkerPoolInner`].
#[verifier::ext_equal]
pub struct PoolView {
    pub binary_args: Seq<Seq<char>>,
    pub workers: Seq<WorkerView>,
    pub max_workers: usize,
    pub busy_counter: int,
    pub debug: bool,
}

/// The models of a sequence of workers.
pub open spec fn worker_views(workers: Seq<Worker>) -> Seq<WorkerView> {
    workers.map_values(|w: Worker| w@)
}

impl View for WorkerPoolInner {
    type V = PoolView;

    open spec fn view(&self) -> PoolView {
        PoolView {
            binary_args: texts(self.binary_args@),
            workers: worker_views(self.workers@),
            max_workers: self.max_workers,
            busy_counter: self.busy_counter as int,
            debug: self.debug,
        }
    }
}

/// The number of workers among `workers` that run a task.
pub open spec fn running(workers: Seq<WorkerView>) -> int
    decreases workers.len(),
{
    if workers.len() == 0 {
        0
    } else {
        running(workers.drop_last()) + if workers.last().task {
            1int
        } else {
            0int
        }
    }
}

/// Whether `i` is the position of the first worker among `workers` that
/// can be handed a task: that worker is free, and none before it is.
pub open spec fn is_first_available(workers: Seq<WorkerView>, i: int) -> bool {
    &&& 0 <= i < workers.len()
    &&& workers[i].available()
    &&& forall|j: int| 0 <= j < i ==> !(#[trigger] workers[j]).available()
}

/// The position of the first worker among `workers` that can be handed a
/// task, if there is one.
pub open spec fn first_available(workers: Seq<WorkerView>) -> Option<int> {
    if exists|i: int| is_first_available(workers, i) {
        Some(choose|i: int| is_first_available(workers, i))
    } else {
        None
    }
}

/// The worker that the pool makes for a task when none is free: it is
/// taken from the start.
pub open spec fn taken(id: usize, debug: bool) -> WorkerView {
    WorkerView { idle: false, ..WorkerView::fresh(id, debug) }
}

impl PoolView {
    /// The invariant of a pool: it holds no more workers than its capacity,
    /// the workers are well-formed and numbered from 1 in order, and the
    /// counter is the number of workers that run a task.
    pub open spec fn wf(self) -> bool {
        &&& self.workers.len() <= self.max_workers
        &&& forall|i: int|
            0 <= i < self.workers.len() ==> (#[trigger] self.workers[i]).wf() && self.workers[i].id
                == i + 1
        &&& self.busy_counter == running(self.workers)
    }

    /// A pool that has just been set up.
    pub open spec fn fresh(max_workers: usize) -> PoolView {
        PoolView {
            binary_args: seq!["node"@],
            workers: Seq::empty(),
            max_workers,
            busy_counter: 0,
            debug: false,
        }
    }

    /// The pool after a worker has been taken for a task, and the number of
    /// that worker: the first one that is free, else a new one if there is
    /// room. `None` says that the pool is saturated; it is then unchanged.
    pub open spec fn acquire(self) -> (PoolView, Option<usize>) {
        match first_available(self.workers) {
            Some(i) => (
                PoolView {
                    workers: self.workers.update(
                        i,
                        WorkerView { idle: false, ..self.workers[i] },
                    ),
                    ..self
                },
                Some(self.workers[i].id),
            ),
            None => if self.workers.len() < self.max_workers {
                let id = (self.workers.len() + 1) as usize;
                (PoolView { workers: self.workers.push(taken(id, self.debug)), ..self }, Some(id))
            } else {
                (self, None)
            },
        }
    }

    /// The pool after the worker `id` has gone from `before` to `after`: the
    /// counter follows the worker's `task` flag.
    pub open spec fn with_worker(self, id: usize, after: WorkerView) -> PoolView {
        let before = self.workers[id - 1];
        PoolView {
            workers: self.workers.update(id - 1, after),
            busy_counter: self.busy_counter - (if before.task {
                1int
            } else {
                0int
            }) + (if after.task {
                1int
            } else {
                0int
            }),
            ..self
        }
    }

    /// The pool after a task has been handed to a worker, with the number
    /// of that worker and its first action. `None` says that the pool is
    /// saturated; it is then unchanged.
    pub open spec fn run_worker(self, file_path: Seq<char>, cmd: Seq<char>, text: Option<Seq<char>>)
        -> (PoolView, Option<(usize, ActionView)>) {
        let (pool, got) = self.acquire();
        match got {
            Some(id) => {
                let (worker, action) = pool.workers[id - 1].dispatch(
                    self.binary_args,
                    file_path,
                    cmd,
                    text,
                );
                (pool.with_worker(id, worker), Some((id, action)))
            },
            None => (self, None),
        }
    }

    /// The pool after `event` has been reported for the worker `id`, and the
    /// action that this worker hands out next. A number that the pool does
    /// not hold is turned down.
    pub open spec fn communicate(self, id: usize, event: EventView) -> (PoolView, ActionView) {
        if 1 <= id <= self.workers.len() {
            let (worker, action) = self.workers[id - 1].step(event);
            (self.with_worker(id, worker), action)
        } else {
            (self, ActionView::Fail(WorkerError::UnknownWorker))
        }
    }

    /// The number of workers that a warm-up of `nbr_workers` makes: as many
    /// as asked for, as far as there is room.
    pub open spec fn warmup_count(self, nbr_workers: usize) -> int {
        if nbr_workers <= self.max_workers - self.workers.len() {
            nbr_workers as int
        } else {
            self.max_workers - self.workers.len()
        }
    }

    /// The `k`-th worker that a warm-up makes, as it starts its child, and
    /// its first action.
    pub open spec fn warmed(self, k: int, file_path: Seq<char>) -> (WorkerView, ActionView) {
        WorkerView::fresh((self.workers.len() + k + 1) as usize, self.debug).warm_up(
            self.binary_args,
            file_path,
        )
    }

    /// The pool after a warm-up of `nbr_workers`, and for each worker made
    /// its number and its first action.
    pub open spec fn warmup(self, nbr_workers: usize, file_path: Seq<char>) -> (
        PoolView,
        Seq<(usize, ActionView)>,
    ) {
        let n = self.warmup_count(nbr_workers);
        (
            PoolView {
                workers: self.workers + Seq::new(n as nat, |k: int| self.warmed(k, file_path).0),
                ..self
            },
            Seq::new(
                n as nat,
                |k: int| ((self.workers.len() + k + 1) as usize, self.warmed(k, file_path).1),
            ),
        )
    }
}

/// No more workers run a task than there are workers.
pub proof fn lemma_running_bounds(workers: Seq<WorkerView>)
    ensures
        0 <= running(workers) <= workers.len(),
    decreases workers.len(),
{
    if workers.len() > 0 {
        lemma_running_bounds(workers.drop_last());
    }
}

/// Replacing one worker changes the number of running tasks by the change
/// of that worker's `task` flag.
pub proof fn lemma_running_update(workers: Seq<WorkerView>, i: int, after: WorkerView)
    requires
        0 <= i < workers.len(),
    ensures
        running(workers.update(i, after)) == running(workers) - (if workers[i].task {
            1int
        } else {
            0int
        }) + (if after.task {
            1int
        } else {
            0int
        }),
    decreases workers.len(),
{
    let updated = workers.update(i, after);
    if i == workers.len() - 1 {
        assert(updated.drop_last() =~= workers.drop_last());
    } else {
        lemma_running_update(workers.drop_last(), i, after);
        assert(updated.drop_last() =~= workers.drop_last().update(i, after));
    }
}

/// Adding a worker adds its `task` flag to the number of running tasks.
pub proof fn lemma_running_push(workers: Seq<WorkerView>, worker: WorkerView)
    ensures
        running(workers.push(worker)) == running(workers) + (if worker.task {
            1int
        } else {
            0int
        }),
{
    assert(workers.push(worker).drop_last() =~= workers);
}

/// `first_available` finds none only if no worker is free.
pub proof fn lemma_first_available(workers: Seq<WorkerView>)
    ensures
        match first_available(workers) {
            Some(i) => is_first_available(workers, i),
            None => forall|j: int| 0 <= j < workers.len() ==> !(#[trigger] workers[j]).available(),
        },
{
    if first_available(workers) is None {
        lemma_none_available(workers, workers.len() as int);
    }
}

/// Where no worker is the first free one, none of the first `n` is free.
proof fn lemma_none_available(workers: Seq<WorkerView>, n: int)
    requires
        forall|i: int| !is_first_available(workers, i),
        0 <= n <= workers.len(),
    ensures
        forall|j: int| 0 <= j < n ==> !(#[trigger] workers[j]).available(),
    decreases n,
{
    if n > 0 {
        lemma_none_available(workers, n - 1);
        assert(!is_first_available(workers, n - 1));
    }
}

/// In a well-formed pool neither the number of tasks under way nor the
/// number of workers exceeds the capacity.
pub proof fn lemma_pool_bounded(pool: PoolView)
    requires
        pool.wf(),
    ensures
        0 <= pool.busy_counter <= pool.max_workers,
        pool.workers.len() <= pool.max_workers,
        pool.busy_counter <= pool.workers.len(),
{
    lemma_running_bounds(pool.workers);
}

/// There is at most one first free worker.
pub proof fn lemma_first_available_is(workers: Seq<WorkerView>, i: int)
    requires
        is_first_available(workers, i),
    ensures
        first_available(workers) == Some(i),
{
    let k = choose|k: int| is_first_available(workers, k);
    if k < i {
        assert(!workers[k].available());
    } else if i < k {
        assert(!workers[i].available());
    }
}

/// Where no worker is free, `first_available` finds none.
pub proof fn lemma_first_available_none(workers: Seq<WorkerView>)
    requires
        forall|j: int| 0 <= j < workers.len() ==> !(#[trigger] workers[j]).available(),
    ensures
        first_available(workers) is None,
{
}

/// Replacing a worker by a well-formed one of the same number leaves a
/// well-formed pool well-formed.
pub proof fn lemma_with_worker_wf(pool: PoolView, id: usize, after: WorkerView)
    requires
        pool.wf(),
        1 <= id <= pool.workers.len(),
        after.wf(),
        after.id == id,
    ensures
        pool.with_worker(id, after).wf(),
{
    lemma_running_update(pool.workers, id - 1, after);
}

/// Taking a worker leaves a well-formed pool well-formed, and the worker
/// taken is one of the pool's, not idle and without an operation.
pub proof fn lemma_acquire_wf(pool: PoolView)
    requires
        pool.wf(),
    ensures
        pool.acquire().0.wf(),
        pool.acquire().0.busy_counter == pool.busy_counter,
        pool.acquire().0.binary_args == pool.binary_args,
        pool.acquire().1 matches Some(id) ==> {
            &&& 1 <= id <= pool.acquire().0.workers.len()
            &&& !pool.acquire().0.workers[id - 1].idle
            &&& !pool.acquire().0.workers[id - 1].task
            &&& pool.acquire().0.workers[id - 1].pending is Nothing
            &&& !(pool.acquire().0.workers[id - 1].phase is Dead)
        },
        pool.acquire().1 is None ==> pool.acquire().0 == pool,
{
    lemma_first_available(pool.workers);
    match first_available(pool.workers) {
        Some(i) => {
            let after = WorkerView { idle: false, ..pool.workers[i] };
            lemma_running_update(pool.workers, i, after);
        },
        None => {
            if pool.workers.len() < pool.max_workers {
                let id = (pool.workers.len() + 1) as usize;
                lemma_running_push(pool.workers, taken(id, pool.debug));
            }
        },
    }
}

/// Handing out a task leaves a well-formed pool well-formed.
pub proof fn lemma_run_worker_wf(
    pool: PoolView,
    file_path: Seq<char>,
    cmd: Seq<char>,
    text: Option<Seq<char>>,
)
    requires
        pool.wf(),
    ensures
        pool.run_worker(file_path, cmd, text).0.wf(),
{
    lemma_acquire_wf(pool);
    let (taken_pool, got) = pool.acquire();
    match got {
        Some(id) => {
            let before = taken_pool.workers[id - 1];
            lemma_task_script_fits(before.ready, cmd, text);
            lemma_launch_wf(
                before,
                Some((pool.binary_args, file_path)),
                task_script(before.ready, cmd, text),
                true,
            );
            let after = before.dispatch(pool.binary_args, file_path, cmd, text).0;
            lemma_with_worker_wf(taken_pool, id, after);
        },
        None => {},
    }
}

/// A task that is handed out goes to one worker of the pool, which from
/// then on runs the script of that task and is counted; the other workers
/// are left as they were. No task is handed out only if no worker is free
/// and there is no room for another.
pub proof fn lemma_run_worker_task(
    pool: PoolView,
    file_path: Seq<char>,
    cmd: Seq<char>,
    text: Option<Seq<char>>,
)
    requires
        pool.wf(),
        pool.binary_args.len() > 0,
    ensures
        match pool.run_worker(file_path, cmd, text) {
            (after, Some((id, _))) => {
                &&& 1 <= id <= after.workers.len()
                &&& after.workers[id - 1].task
                &&& !after.workers[id - 1].idle
                &&& after.workers[id - 1].script == task_script(
                    after.workers[id - 1].ready,
                    cmd,
                    text,
                )
                &&& after.busy_counter == pool.busy_counter + 1
                &&& forall|j: int|
                    0 <= j < pool.workers.len() && j != id - 1 ==> #[trigger] after.workers[j]
                        == pool.workers[j]
            },
            (after, None) => {
                &&& after == pool
                &&& pool.workers.len() >= pool.max_workers
                &&& forall|j: int|
                    0 <= j < pool.workers.len() ==> !(#[trigger] pool.workers[j]).available()
            },
        },
{
    lemma_acquire_wf(pool);
    lemma_first_available(pool.workers);
    let (taken_pool, got) = pool.acquire();
    if let Some(id) = got {
        let before = taken_pool.workers[id - 1];
        lemma_task_script_fits(before.ready, cmd, text);
    }
}

/// Reporting an event leaves a well-formed pool well-formed.
pub proof fn lemma_communicate_wf(pool: PoolView, id: usize, event: EventView)
    requires
        pool.wf(),
    ensures
        pool.communicate(id, event).0.wf(),
{
    if 1 <= id <= pool.workers.len() {
        let before = pool.workers[id - 1];
        lemma_step_wf(before, event);
        lemma_with_worker_wf(pool, id, before.step(event).0);
    }
}

/// A warm-up leaves a well-formed pool well-formed, and does not change the
/// number of tasks under way.
pub proof fn lemma_warmup_wf(pool: PoolView, nbr_workers: usize, file_path: Seq<char>)
    requires
        pool.wf(),
    ensures
        pool.warmup(nbr_workers, file_path).0.wf(),
        pool.warmup(nbr_workers, file_path).0.workers.len() == pool.workers.len()
            + pool.warmup_count(nbr_workers),
{
    let n = pool.warmup_count(nbr_workers);
    let added = Seq::new(n as nat, |k: int| pool.warmed(k, file_path).0);
    assert forall|k: int| 0 <= k < n implies (#[trigger] added[k]).wf() && added[k].id
        == pool.workers.len() + k + 1 && !added[k].task by {
        let fresh = WorkerView::fresh((pool.workers.len() + k + 1) as usize, pool.debug);
        lemma_handshake_script_fits(false);
        lemma_launch_wf(
            fresh,
            Some((pool.binary_args, file_path)),
            handshake_script(false),
            false,
        );
    }
    lemma_running_append_idle(pool.workers, added);
}

/// Workers that run no task add nothing to the number of running tasks.
pub proof fn lemma_running_append_idle(workers: Seq<WorkerView>, added: Seq<WorkerView>)
    requires
        forall|k: int| 0 <= k < added.len() ==> !(#[trigger] added[k]).task,
    ensures
        running(workers + added) == running(workers),
    decreases added.len(),
{
    if added.len() == 0 {
        assert(workers + added =~= workers);
    } else {
        lemma_running_append_idle(workers, added.drop_last());
        assert((workers + added).drop_last() =~= workers + added.drop_last());
    }
}

/// A task that the pool has handed out: the worker that runs it, and the
/// first action of that worker.
#[derive(Clone, Debug, PartialEq, Eq)]
pub struct Dispatch {
    pub worker_id: usize,
    pub action: Action,
}

impl View for Dispatch {
    type V = (usize, ActionView);

    open spec fn view(&self) -> (usize, ActionView) {
        (self.worker_id, self.action@)
    }
}

/// The model of a task that the pool may have handed out.
pub open spec fn dispatch_view(dispatch: Option<Dispatch>) -> Option<(usize, ActionView)> {
    match dispatch {
        Some(d) => Some(d@),
        None => None,
    }
}

/// The models of a sequence of tasks handed out.
pub open spec fn dispatch_views(dispatches: Seq<Dispatch>) -> Seq<(usize, ActionView)> {
    dispatches.map_values(|d: Dispatch| d@)
}

impl WorkerPoolInner {
    /// A pool of at most `max_workers` workers, none of them made yet. The
    /// workers' children are started with `node`.
    pub fn setup(max_workers: usize) -> (pool: WorkerPoolInner)
        ensures
            pool@ == PoolView::fresh(max_workers),
            pool@.wf(),
    {
        let mut binary_args: Vec<String> = Vec::new();
        binary_args.push(String::from_str("node"));
        let pool = WorkerPoolInner {
            binary_args,
            workers: Vec::new(),
            max_workers,
            busy_counter: 0,
            debug: false,
        };
        assert(pool@ =~= PoolView::fresh(max_workers));
        pool
    }

    /// Whether the pool's fields fit together, as every operation needs them
    /// to. A pool that is only ever changed by its operations stays
    /// well-formed; this test is for a caller that has written to its fields.
    pub fn is_wf(&self) -> (b: bool)
        ensures
            b == self@.wf(),
    {
        if self.workers.len() > self.max_workers {
            return false;
        }
        let mut tasks: usize = 0;
        let mut i: usize = 0;
        while i < self.workers.len()
            invariant
                i <= self.workers.len(),
                tasks == running(self@.workers.take(i as int)),
                tasks <= i,
                forall|j: int|
                    0 <= j < i ==> (#[trigger] self@.workers[j]).wf() && self@.workers[j].id == j
                        + 1,
            decreases self.workers.len() - i,
        {
            if !self.workers[i].is_wf() || self.workers[i].id != i + 1 {
                assert(!(self@.workers[i as int].wf() && self@.workers[i as int].id == i + 1));
                return false;
            }
            proof {
                assert(self@.workers.take(i + 1).drop_last() =~= self@.workers.take(i as int));
                assert(self@.workers.take(i + 1).last() == self@.workers[i as int]);
            }
            if self.workers[i].task {
                tasks = tasks + 1;
            }
            i = i + 1;
        }
        assert(self@.workers.take(i as int) =~= self@.workers);
        self.busy_counter == tasks
    }

    /// Sets the words of the command that starts a worker's child.
    pub fn set_binary_args(&mut self, binary_args: Vec<String>)
        ensures
            final(self)@ == (PoolView { binary_args: texts(binary_args@), ..old(self)@ }),
    {
        self.binary_args = binary_args;
    }

    /// Sets the command that starts a worker's child. It is cut into words
    /// as a shell would cut it, so its quotes must all be closed;
    /// `try_set_binary` is for a command of which that is not known.
    pub fn set_binary(&mut self, binary: &str)
        requires
            shell_split(binary@) is Some,
        ensures
            final(self)@ == (PoolView { binary_args: shell_split(binary@)->0, ..old(self)@ }),
    {
        self.set_binary_args(split_words(binary).unwrap());
    }

    /// Sets the command that starts a worker's child, if its quotes are all
    /// closed; says whether it did.
    pub fn try_set_binary(&mut self, binary: &str) -> (done: bool)
        ensures
            done == shell_split(binary@) is Some,
            done ==> final(self)@ == (PoolView {
                binary_args: shell_split(binary@)->0,
                ..old(self)@
            }),
            !done ==> final(self)@ == old(self)@,
    {
        match split_words(binary) {
            Ok(_) => {
                self.set_binary(binary);
                true
            },
            Err(_) => false,
        }
    }

    /// Sets whether workers made from now on trace their traffic.
    pub fn with_debug(&mut self, debug: bool)
        ensures
            final(self)@ == (PoolView { debug, ..old(self)@ }),
    {
        self.debug = debug;
    }

    /// Takes a worker for a task: the first one that is free, in the order
    /// in which the workers were made, else a new one if there is room.
    /// Returns the worker's number, or `None` if the pool is saturated.
    pub fn get_available_worker(&mut self) -> (got: Option<usize>)
        requires
            old(self)@.wf(),
        ensures
            final(self)@.wf(),
            final(self)@ == old(self)@.acquire().0,
            got == old(self)@.acquire().1,
    {
        proof {
            lemma_acquire_wf(self@);
        }
        let mut i: usize = 0;
        while i < self.workers.len()
            invariant
                i <= self.workers.len(),
                *self == *old(self),
                old(self)@.acquire().0.wf(),
                forall|j: int| 0 <= j < i ==> !(#[trigger] self@.workers[j]).available(),
            decreases self.workers.len() - i,
        {
            if self.workers[i].is_available() {
                proof {
                    lemma_first_available_is(self@.workers, i as int);
                }
                let id = self.workers[i].id;
                self.workers[i].idle = false;
                assert(self@ =~= old(self)@.acquire().0);
                return Some(id);
            }
            i = i + 1;
        }
        proof {
            lemma_first_available_none(self@.workers);
        }
        if self.workers.len() < self.max_workers {
            let id = self.workers.len() + 1;
            let mut worker = Worker::new(id, self.debug);
            worker.idle = false;
            self.workers.push(worker);
            assert(self@ =~= old(self)@.acquire().0);
            Some(id)
        } else {
            None
        }
    }

    /// Hands the task `cmd` of the file `file_path`, with the input
    /// `payload`, to a worker: takes a worker as `get_available_worker`
    /// does, counts the task, and starts it. Returns the worker's number and
    /// its first action, or `None` if the pool is saturated.
    pub fn run_worker<P: AsPayload>(&mut self, file_path: String, cmd: String, payload: P) -> (got:
        Option<Dispatch>)
        requires
            old(self)@.wf(),
        ensures
            final(self)@.wf(),
            final(self)@ == old(self)@.run_worker(
                file_path@,
                cmd@,
                payload_text(payload.envelope()),
            ).0,
            dispatch_view(got) == old(self)@.run_worker(
                file_path@,
                cmd@,
                payload_text(payload.envelope()),
            ).1,
    {
        let ghost text = payload_text(payload.envelope());
        proof {
            lemma_run_worker_wf(self@, file_path@, cmd@, text);
            lemma_acquire_wf(self@);
        }
        match self.get_available_worker() {
            Some(id) => {
                let ghost taken_pool = self@;
                let envelope = payload.to_payload();
                let action = self.workers[id - 1].dispatch(
                    &self.binary_args,
                    file_path.as_str(),
                    cmd.as_str(),
                    &envelope,
                );
                proof {
                    lemma_running_bounds(old(self)@.run_worker(file_path@, cmd@, text).0.workers);
                }
                if self.workers[id - 1].task {
                    self.busy_counter = self.busy_counter + 1;
                }
                assert(self@ =~= taken_pool.with_worker(id, self@.workers[id - 1]));
                Some(Dispatch { worker_id: id, action })
            },
            None => None,
        }
    }

    /// Reports the outcome of the action that the worker `id` handed out
    /// last, and returns its next action. When the worker's task ends, in
    /// `Action::Done` or `Action::Fail`, it is no longer counted.
    pub fn communicate(&mut self, id: usize, event: Event) -> (action: Action)
        requires
            old(self)@.wf(),
        ensures
            final(self)@.wf(),
            final(self)@ == old(self)@.communicate(id, event@).0,
            action@ == old(self)@.communicate(id, event@).1,
    {
        proof {
            lemma_communicate_wf(self@, id, event@);
            lemma_running_bounds(self@.workers);
            lemma_running_bounds(self@.communicate(id, event@).0.workers);
        }
        if 1 <= id && id <= self.workers.len() {
            let was_task = self.workers[id - 1].task;
            let action = self.workers[id - 1].communicate(event);
            proof {
                lemma_step_starts_no_task(old(self)@.workers[id - 1], event@);
            }
            if was_task && !self.workers[id - 1].task {
                self.busy_counter = self.busy_counter - 1;
            }
            assert(self@ =~= old(self)@.communicate(id, event@).0);
            action
        } else {
            Action::Fail(WorkerError::UnknownWorker)
        }
    }

    /// Makes up to `nbr_workers` new workers, as far as there is room, and
    /// starts each one's child, so that they are ready before the first
    /// task. Returns, for each worker made, its number and its first action.
    pub fn warmup(&mut self, nbr_workers: usize, file_path: &str) -> (started: Vec<Dispatch>)
        requires
            old(self)@.wf(),
        ensures
            final(self)@.wf(),
            final(self)@ == old(self)@.warmup(nbr_workers, file_path@).0,
            dispatch_views(started@) == old(self)@.warmup(nbr_workers, file_path@).1,
    {
        proof {
            lemma_warmup_wf(self@, nbr_workers, file_path@);
        }
        let room = self.max_workers - self.workers.len();
        let n = if nbr_workers <= room {
            nbr_workers
        } else {
            room
        };
        let first = self.workers.len();
        let ghost goal = old(self)@.warmup(nbr_workers, file_path@);
        let mut started: Vec<Dispatch> = Vec::new();
        let mut k: usize = 0;
        while k < n
            invariant
                k <= n,
                n == old(self)@.warmup_count(nbr_workers),
                first == old(self)@.workers.len(),
                first + n <= self.max_workers,
                goal == old(self)@.warmup(nbr_workers, file_path@),
                self@ == (PoolView {
                    workers: old(self)@.workers + goal.0.workers.subrange(
                        first as int,
                        first + k,
                    ),
                    ..old(self)@
                }),
                dispatch_views(started@) == goal.1.take(k as int),
            decreases n - k,
        {
            let id = first + k + 1;
            let mut worker = Worker::new(id, self.debug);
            let action = worker.warm_up(&self.binary_args, file_path);
            let ghost workers_before = self@.workers;
            let ghost started_before = dispatch_views(started@);
            self.workers.push(worker);
            started.push(Dispatch { worker_id: id, action });
            proof {
                assert(worker@ == old(self)@.warmed(k as int, file_path@).0);
                assert(goal.0.workers[first + k] == worker@);
                assert(self@.workers =~= workers_before.push(worker@));
                assert(self@.workers =~= old(self)@.workers + goal.0.workers.subrange(
                    first as int,
                    first + k + 1,
                ));
                assert(dispatch_views(started@) =~= started_before.push((id, action@)));
                assert(dispatch_views(started@) =~= goal.1.take(k + 1));
            }
            k = k + 1;
        }
        proof {
            assert(goal.1.take(n as int) =~= goal.1);
            assert(self@.workers =~= goal.0.workers);
            assert(self@ =~= goal.0);
        }
        started
    }
}

} // verus!
