//! One worker: the state machine that drives a single child process.
//!
//! The worker decides, and its caller acts. Every operation hands out an
//! [`Action`]; the caller performs it on the child process and reports what
//! happened as an [`Event`] to [`Worker::communicate`], which hands out the
//! next action, until the operation ends in [`Action::Done`] or
//! [`Action::Fail`].

use crate::frame::{
    classify, classify_line, gathered, is_tight, lemma_classify_sentinel,
    lemma_gathered_result_lines, line_end, result_line, texts, LineKind, LineKindView, Sentinel,
};
use crate::payload::{option_text, payload_text, Payload};
use crate::frame::chunks_of;
use crate::script::{
    build_handshake_script, build_task_script, chunk_exchange, command_exchange, exchange_views,
    handshake, handshake_script, payload_end, payload_script, task_script, Exchange, ExchangeView,
};
use vstd::prelude::*;
use vstd::string::*;

verus! {

/// Why an operation on a worker failed.
#[derive(Clone, Copy, Debug, PartialEq, Eq, Structural)]
pub enum WorkerError {
    /// The child process could not be started.
    Spawn,
    /// The child's standard input or output could not be taken.
    StreamCapture,
    /// The child was gone before the exchange began.
    NotRunning,
    /// The child went away while its answer was awaited.
    Exited,
    /// The child's exit status could not be read.
    Status,
    /// The line could not be written to the child.
    Write,
    /// The child's output could not be read.
    Read,
    /// Another operation is in progress on the worker.
    Busy,
    /// The event answers no action that the worker has handed out.
    Unexpected,
    /// The pool has no worker of that number.
    UnknownWorker,
}

/// Where a worker stands in its life.
#[derive(Clone, Copy, Debug, PartialEq, Eq, Structural)]
pub enum Phase {
    /// No child process has been started yet.
    Unspawned,
    /// The child has been started and has not yet printed `READY`.
    Spawned,
    /// The child has printed `READY` and runs no task.
    Ready,
    /// A task is under way: its payload is being sent.
    BusyPayload,
    /// A task is under way: its command has been or is being sent.
    BusyExec,
    /// The child is gone or has failed; the worker is of no more use.
    Dead,
}

/// The action that a worker has handed out and awaits the outcome of.
#[derive(Clone, Copy, Debug, PartialEq, Eq, Structural)]
pub enum Pending {
    /// No operation is in progress.
    Nothing,
    /// The child is being started.
    Spawn,
    /// The child's status is being checked before a line is sent.
    CheckBeforeSend,
    /// A line is being written.
    Write,
    /// The child's status is being checked before a line is read.
    CheckBeforeRead,
    /// A line is being read.
    Read,
}

impl WorkerError {
    /// What the error says, in words.
    pub open spec fn text(self) -> Seq<char> {
        match self {
            WorkerError::Spawn => "execute process"@,
            WorkerError::StreamCapture => "take process streams"@,
            WorkerError::NotRunning => "process no longer running"@,
            WorkerError::Exited => "process exited"@,
            WorkerError::Status => "reading process status"@,
            WorkerError::Write => "writing to process stdin"@,
            WorkerError::Read => "reading from process stdout"@,
            WorkerError::Busy => "worker is busy"@,
            WorkerError::Unexpected => "unexpected event"@,
            WorkerError::UnknownWorker => "no such worker"@,
        }
    }

    /// What the error says, in words.
    pub fn message(&self) -> (text: String)
        ensures
            text@ == self.text(),
    {
        let text = match self {
            WorkerError::Spawn => "execute process",
            WorkerError::StreamCapture => "take process streams",
            WorkerError::NotRunning => "process no longer running",
            WorkerError::Exited => "process exited",
            WorkerError::Status => "reading process status",
            WorkerError::Write => "writing to process stdin",
            WorkerError::Read => "reading from process stdout",
            WorkerError::Busy => "worker is busy",
            WorkerError::Unexpected => "unexpected event",
            WorkerError::UnknownWorker => "no such worker",
        };
        String::from_str(text)
    }
}

/// What the caller is asked to do next.
#[derive(Clone, Debug, PartialEq, Eq)]
pub enum Action {
    /// Start `program` with `args`, with its standard input and output piped.
    Spawn { program: String, args: Vec<String> },
    /// Check, without blocking, whether the child is still running.
    CheckAlive,
    /// Write the line, which holds its line end, to the child.
    Write(String),
    /// Read one line, line end included, from the child.
    ReadLine,
    /// The operation is over; a task that produced a result hands it out.
    Done(Option<String>),
    /// The operation has failed.
    Fail(WorkerError),
}

/// The mathematical model of an [`Action`].
pub enum ActionView {
    Spawn { program: Seq<char>, args: Seq<Seq<char>> },
    CheckAlive,
    Write(Seq<char>),
    ReadLine,
    Done(Option<Seq<char>>),
    Fail(WorkerError),
}

impl View for Action {
    type V = ActionView;

    open spec fn view(&self) -> ActionView {
        match self {
            Action::Spawn { program, args } => ActionView::Spawn {
                program: program@,
                args: texts(args@),
            },
            Action::CheckAlive => ActionView::CheckAlive,
            Action::Write(line) => ActionView::Write(line@),
            Action::ReadLine => ActionView::ReadLine,
            Action::Done(result) => ActionView::Done(
                match result {
                    Some(text) => Some(text@),
                    None => None,
                },
            ),
            Action::Fail(error) => ActionView::Fail(*error),
        }
    }
}

/// What happened when the caller performed an action.
#[derive(Clone, Debug, PartialEq, Eq)]
pub enum Event {
    /// The child was started and its streams were taken.
    Spawned,
    /// The child could not be started.
    SpawnFailed,
    /// The child was started, but a stream could not be taken.
    CaptureFailed,
    /// The child is still running.
    Alive,
    /// The child has exited.
    Exited,
    /// The child's status could not be read.
    StatusFailed,
    /// The line was written.
    Written,
    /// The line could not be written.
    WriteFailed,
    /// A line was read; at the end of the stream it is empty.
    Line(String),
    /// No line could be read.
    ReadFailed,
}

/// The mathematical model of an [`Event`].
pub enum EventView {
    Spawned,
    SpawnFailed,
    CaptureFailed,
    Alive,
    Exited,
    StatusFailed,
    Written,
    WriteFailed,
    Line(Seq<char>),
    ReadFailed,
}

impl View for Event {
    type V = EventView;

    open spec fn view(&self) -> EventView {
        match self {
            Event::Spawned => EventView::Spawned,
            Event::SpawnFailed => EventView::SpawnFailed,
            Event::CaptureFailed => EventView::CaptureFailed,
            Event::Alive => EventView::Alive,
            Event::Exited => EventView::Exited,
            Event::StatusFailed => EventView::StatusFailed,
            Event::Written => EventView::Written,
            Event::WriteFailed => EventView::WriteFailed,
            Event::Line(line) => EventView::Line(line@),
            Event::ReadFailed => EventView::ReadFailed,
        }
    }
}

/// One persistent child process, as the pool sees it.
#[derive(Clone, Debug)]
pub struct Worker {
    /// The worker's number within its pool, from 1.
    pub id: usize,
    /// Whether the worker is free to take a task.
    pub idle: bool,
    /// Whether the child has printed `READY`.
    pub ready: bool,
    /// Whether the worker's traffic is to be traced.
    pub debug: bool,
    /// Where the worker stands in its life.
    pub phase: Phase,
    /// The action whose outcome is awaited.
    pub pending: Pending,
    /// The exchanges of the operation in progress.
    pub script: Vec<Exchange>,
    /// The position in `script` of the exchange under way.
    pub cursor: usize,
    /// The result text reassembled so far in the exchange under way.
    pub buffer: String,
    /// Whether the operation in progress is a task.
    pub task: bool,
}

/// The mathematical model of a [`Worker`].
#[verifier::ext_equal]
pub struct WorkerView {
    pub id: usize,
    pub idle: bool,
    pub ready: bool,
    pub debug: bool,
    pub phase: Phase,
    pub pending: Pending,
    pub script: Seq<ExchangeView>,
    pub cursor: int,
    pub buffer: Seq<char>,
    pub task: bool,
}

impl View for Worker {
    type V = WorkerView;

    open spec fn view(&self) -> WorkerView {
        WorkerView {
            id: self.id,
            idle: self.idle,
            ready: self.ready,
            debug: self.debug,
            phase: self.phase,
            pending: self.pending,
            script: exchange_views(self.script@),
            cursor: self.cursor as int,
            buffer: self.buffer@,
            task: self.task,
        }
    }
}

/// The phase that a worker is in while the exchange `exchange` is under way.
pub open spec fn phase_of(exchange: ExchangeView) -> Phase {
    match exchange.wait {
        Some(Sentinel::Ready) => Phase::Spawned,
        Some(Sentinel::TaskOk) => Phase::BusyExec,
        _ => Phase::BusyPayload,
    }
}

/// The command that starts a worker's child: the first word of
/// `binary_args` is the program, the other words and then `file_path` are
/// its arguments.
pub open spec fn spawn_action(binary_args: Seq<Seq<char>>, file_path: Seq<char>) -> ActionView {
    ActionView::Spawn { program: binary_args[0], args: binary_args.skip(1).push(file_path) }
}

impl WorkerView {
    /// A worker that has just been made.
    pub open spec fn fresh(id: usize, debug: bool) -> WorkerView {
        WorkerView {
            id,
            idle: true,
            ready: false,
            debug,
            phase: Phase::Unspawned,
            pending: Pending::Nothing,
            script: Seq::empty(),
            cursor: 0,
            buffer: Seq::empty(),
            task: false,
        }
    }

    /// The exchange under way.
    pub open spec fn current(self) -> ExchangeView {
        self.script[self.cursor]
    }

    /// Whether an exchange is under way.
    pub open spec fn in_exchange(self) -> bool {
        self.pending is CheckBeforeSend || self.pending is Write || self.pending is CheckBeforeRead
            || self.pending is Read
    }

    /// The invariant of a worker. The cursor is within the script, in which
    /// the handshake comes first or not at all. With no operation in
    /// progress there is no script, no result text and no task. While the
    /// child is started the worker is at the start of a script that is
    /// empty or begins with the handshake. During an exchange the phase is
    /// that of the exchange, and the exchange is the handshake exactly if
    /// the worker is not ready. A worker without a child, or with a child
    /// that has not printed `READY`, is not ready; a worker that is ready
    /// for a task or busy with one is. A task keeps its worker from being
    /// idle and ends with its command. A dead worker is idle and runs
    /// nothing.
    pub open spec fn wf(self) -> bool {
        &&& 0 <= self.cursor <= self.script.len()
        &&& forall|i: int|
            0 < i < self.script.len() ==> (#[trigger] self.script[i]).wait != Some(Sentinel::Ready)
        &&& self.pending is Nothing ==> {
            &&& self.script.len() == 0
            &&& self.buffer.len() == 0
            &&& !self.task
            &&& (self.phase is Unspawned || self.phase is Spawned || self.phase is Ready
                || self.phase is Dead)
        }
        &&& self.pending is Spawn ==> {
            &&& self.phase is Unspawned
            &&& self.cursor == 0
            &&& (self.script.len() > 0 ==> self.script[0].wait == Some(Sentinel::Ready))
        }
        &&& self.in_exchange() ==> {
            &&& self.cursor < self.script.len()
            &&& self.phase == phase_of(self.current())
            &&& (self.current().wait == Some(Sentinel::Ready)) == !self.ready
        }
        &&& self.pending is Write ==> self.current().send is Some
        &&& (self.pending is CheckBeforeRead || self.pending is Read) ==> self.current().wait
            is Some
        &&& (self.phase is Unspawned || self.phase is Spawned) ==> !self.ready
        &&& (self.phase is Ready || self.phase is BusyPayload || self.phase is BusyExec)
            ==> self.ready
        &&& self.task ==> {
            &&& !self.idle
            &&& self.script.len() > 0
            &&& self.script.last().wait == Some(Sentinel::TaskOk)
        }
        &&& self.phase is Dead ==> self.idle && self.pending is Nothing
    }

    /// Whether the worker can be handed a task: it is idle, runs no
    /// operation and is not dead.
    pub open spec fn available(self) -> bool {
        self.idle && self.pending is Nothing && !(self.phase is Dead)
    }

    /// The worker after its operation has failed with `error`: it is dead,
    /// and idle again.
    pub open spec fn die(self, error: WorkerError) -> (WorkerView, ActionView) {
        (
            WorkerView {
                idle: true,
                phase: Phase::Dead,
                pending: Pending::Nothing,
                script: Seq::empty(),
                cursor: 0,
                buffer: Seq::empty(),
                task: false,
                ..self
            },
            ActionView::Fail(error),
        )
    }

    /// The worker after its operation has ended well. A task hands out
    /// `result` and leaves the worker idle.
    pub open spec fn finish(self, result: Option<Seq<char>>) -> (WorkerView, ActionView) {
        (
            WorkerView {
                idle: self.idle || self.task,
                phase: if self.ready {
                    Phase::Ready
                } else {
                    Phase::Spawned
                },
                pending: Pending::Nothing,
                script: Seq::empty(),
                cursor: 0,
                buffer: Seq::empty(),
                task: false,
                ..self
            },
            ActionView::Done(
                if self.task {
                    result
                } else {
                    None
                },
            ),
        )
    }

    /// The worker as it turns to the exchange at its cursor, or ends the
    /// operation with `result` if there is none left.
    pub open spec fn begin(self, result: Option<Seq<char>>) -> (WorkerView, ActionView) {
        if self.cursor < self.script.len() {
            (
                WorkerView {
                    phase: phase_of(self.current()),
                    pending: Pending::CheckBeforeSend,
                    buffer: Seq::empty(),
                    ..self
                },
                ActionView::CheckAlive,
            )
        } else {
            self.finish(result)
        }
    }

    /// The worker after the exchange under way has ended with `result`.
    pub open spec fn next_exchange(self, result: Option<Seq<char>>) -> (WorkerView, ActionView) {
        WorkerView {
            ready: self.ready || self.current().wait == Some(Sentinel::Ready),
            cursor: self.cursor + 1,
            ..self
        }.begin(result)
    }

    /// The worker after the line of the exchange under way has been sent, or
    /// when there was none to send.
    pub open spec fn after_send(self) -> (WorkerView, ActionView) {
        if self.current().wait is Some {
            (WorkerView { pending: Pending::CheckBeforeRead, ..self }, ActionView::CheckAlive)
        } else {
            self.next_exchange(None)
        }
    }

    /// The worker after it has read `line` while waiting for a sentinel.
    pub open spec fn on_line(self, line: Seq<char>) -> (WorkerView, ActionView) {
        match classify(line, self.current().wait->0) {
            LineKindView::Sentinel => self.next_exchange(
                if self.buffer.len() == 0 {
                    None
                } else {
                    Some(self.buffer)
                },
            ),
            LineKindView::ResultChunk(text) => (
                WorkerView {
                    pending: Pending::CheckBeforeRead,
                    buffer: self.buffer + text,
                    ..self
                },
                ActionView::CheckAlive,
            ),
            _ => (WorkerView { pending: Pending::CheckBeforeRead, ..self }, ActionView::CheckAlive),
        }
    }

    /// The worker after `event`, and the action that it hands out next.
    ///
    /// An event that does not answer the pending action fails the operation;
    /// with no operation in progress it is turned down and changes nothing.
    pub open spec fn step(self, event: EventView) -> (WorkerView, ActionView) {
        match self.pending {
            Pending::Nothing => (self, ActionView::Fail(WorkerError::Unexpected)),
            Pending::Spawn => match event {
                EventView::Spawned => WorkerView { phase: Phase::Spawned, ..self }.begin(None),
                EventView::SpawnFailed => self.die(WorkerError::Spawn),
                EventView::CaptureFailed => self.die(WorkerError::StreamCapture),
                _ => self.die(WorkerError::Unexpected),
            },
            Pending::CheckBeforeSend => match event {
                EventView::Alive => match self.current().send {
                    Some(line) => (
                        WorkerView { pending: Pending::Write, ..self },
                        ActionView::Write(line),
                    ),
                    None => self.after_send(),
                },
                EventView::Exited => self.die(WorkerError::NotRunning),
                EventView::StatusFailed => self.die(WorkerError::Status),
                _ => self.die(WorkerError::Unexpected),
            },
            Pending::Write => match event {
                EventView::Written => self.after_send(),
                EventView::WriteFailed => self.die(WorkerError::Write),
                _ => self.die(WorkerError::Unexpected),
            },
            Pending::CheckBeforeRead => match event {
                EventView::Alive => (
                    WorkerView { pending: Pending::Read, ..self },
                    ActionView::ReadLine,
                ),
                EventView::Exited => self.die(WorkerError::Exited),
                EventView::StatusFailed => self.die(WorkerError::Status),
                _ => self.die(WorkerError::Unexpected),
            },
            Pending::Read => match event {
                EventView::Line(line) => self.on_line(line),
                EventView::ReadFailed => self.die(WorkerError::Read),
                _ => self.die(WorkerError::Unexpected),
            },
        }
    }

    /// The worker as it starts an operation made of `script`, and the first
    /// action of that operation.
    ///
    /// A worker that runs an operation turns the new one down and is left as
    /// it was. A dead worker fails. A worker without a child starts one from
    /// `command` first, and fails if it is given none, or one without a
    /// program.
    pub open spec fn launch(
        self,
        command: Option<(Seq<Seq<char>>, Seq<char>)>,
        script: Seq<ExchangeView>,
        task: bool,
    ) -> (WorkerView, ActionView) {
        if !(self.pending is Nothing) {
            (self, ActionView::Fail(WorkerError::Busy))
        } else if self.phase is Dead {
            (self, ActionView::Fail(WorkerError::NotRunning))
        } else if self.phase is Unspawned {
            match command {
                Some((binary_args, file_path)) => if binary_args.len() == 0 {
                    self.die(WorkerError::Spawn)
                } else {
                    (
                        WorkerView {
                            idle: self.idle && !task,
                            pending: Pending::Spawn,
                            script,
                            cursor: 0,
                            task,
                            ..self
                        },
                        spawn_action(binary_args, file_path),
                    )
                },
                None => (
                    WorkerView { idle: self.idle || task, ..self },
                    ActionView::Fail(WorkerError::NotRunning),
                ),
            }
        } else {
            WorkerView { idle: self.idle && !task, script, cursor: 0, task, ..self }.begin(None)
        }
    }

    /// What `init` does: it starts the child unless there is one.
    pub open spec fn init(self, binary_args: Seq<Seq<char>>, file_path: Seq<char>) -> (
        WorkerView,
        ActionView,
    ) {
        self.launch(Some((binary_args, file_path)), Seq::empty(), false)
    }

    /// What `wait_for_ready` does: the handshake, unless it has taken place.
    pub open spec fn wait_for_ready(self) -> (WorkerView, ActionView) {
        self.launch(None, handshake_script(self.ready), false)
    }

    /// What `perform_task` does: one task on a worker that has a child.
    pub open spec fn perform_task(self, cmd: Seq<char>, text: Option<Seq<char>>) -> (
        WorkerView,
        ActionView,
    ) {
        self.launch(None, task_script(self.ready, cmd, text), true)
    }

    /// What `warm_up` does: `init`, then `wait_for_ready`.
    pub open spec fn warm_up(self, binary_args: Seq<Seq<char>>, file_path: Seq<char>) -> (
        WorkerView,
        ActionView,
    ) {
        self.launch(Some((binary_args, file_path)), handshake_script(self.ready), false)
    }

    /// What `dispatch` does: `init`, then `perform_task`.
    pub open spec fn dispatch(
        self,
        binary_args: Seq<Seq<char>>,
        file_path: Seq<char>,
        cmd: Seq<char>,
        text: Option<Seq<char>>,
    ) -> (WorkerView, ActionView) {
        self.launch(Some((binary_args, file_path)), task_script(self.ready, cmd, text), true)
    }
}

/// The model of the command that starts a child.
pub open spec fn command_view(command: Option<(&Vec<String>, &str)>) -> Option<
    (Seq<Seq<char>>, Seq<char>),
> {
    match command {
        Some((binary_args, file_path)) => Some((texts(binary_args@), file_path@)),
        None => None,
    }
}

/// Whether `script` can be run by a worker whose `ready` flag is `ready`:
/// the handshake comes first or not at all, and is there exactly if the
/// worker is not ready; and a task ends with its command.
pub open spec fn script_fits(script: Seq<ExchangeView>, ready: bool, task: bool) -> bool {
    &&& forall|i: int| 0 < i < script.len() ==> (#[trigger] script[i]).wait != Some(Sentinel::Ready)
    &&& script.len() > 0 ==> (script[0].wait == Some(Sentinel::Ready)) == !ready
    &&& task ==> script.len() > 0 && script.last().wait == Some(Sentinel::TaskOk)
}

/// The handshake script fits the worker that it is made for.
pub proof fn lemma_handshake_script_fits(ready: bool)
    ensures
        script_fits(handshake_script(ready), ready, false),
{
}

/// A task script fits the worker that it is made for.
pub proof fn lemma_task_script_fits(ready: bool, cmd: Seq<char>, text: Option<Seq<char>>)
    ensures
        script_fits(task_script(ready, cmd, text), ready, true),
{
    let script = task_script(ready, cmd, text);
    let head = handshake_script(ready);
    assert(script.last() == command_exchange(cmd));
    assert forall|i: int| 0 < i < script.len() implies (#[trigger] script[i]).wait != Some(
        Sentinel::Ready,
    ) by {
        if i < head.len() {
        } else {
            match text {
                Some(t) => {
                    let body = payload_script(t);
                    if i - head.len() < body.len() {
                        assert(script[i] == body[i - head.len()]);
                    } else {
                        assert(script[i] == command_exchange(cmd));
                    }
                },
                None => {
                    assert(script[i] == command_exchange(cmd));
                },
            }
        }
    }
    if ready {
        match text {
            Some(t) => {
                let body = payload_script(t);
                assert(script[0] == body[0]);
            },
            None => {
                assert(script[0] == command_exchange(cmd));
            },
        }
    } else {
        assert(script[0] == handshake());
    }
}

/// Every event leaves a well-formed worker well-formed.
pub proof fn lemma_step_wf(w: WorkerView, event: EventView)
    requires
        w.wf(),
    ensures
        w.step(event).0.wf(),
{
}

/// Starting an operation whose script fits leaves a well-formed worker
/// well-formed.
pub proof fn lemma_launch_wf(
    w: WorkerView,
    command: Option<(Seq<Seq<char>>, Seq<char>)>,
    script: Seq<ExchangeView>,
    task: bool,
)
    requires
        w.wf(),
        script_fits(script, w.ready, task),
    ensures
        w.launch(command, script, task).0.wf(),
{
}

impl WorkerView {
    /// The worker after it has found its child alive and has read `line`
    /// from it.
    pub open spec fn read_line(self, line: Seq<char>) -> WorkerView {
        self.step(EventView::Alive).0.step(EventView::Line(line)).0
    }

    /// The worker after it has read `lines` from its child, one by one.
    pub open spec fn read_lines(self, lines: Seq<Seq<char>>) -> WorkerView
        decreases lines.len(),
    {
        if lines.len() == 0 {
            self
        } else {
            self.read_lines(lines.drop_last()).read_line(lines.last())
        }
    }
}

/// A new worker is idle, has no child and is not ready.
pub proof fn lemma_fresh_worker(id: usize, debug: bool)
    ensures
        WorkerView::fresh(id, debug).wf(),
        WorkerView::fresh(id, debug).idle,
        !WorkerView::fresh(id, debug).ready,
        WorkerView::fresh(id, debug).phase is Unspawned,
{
}

/// A worker that is ready stays ready, whatever happens; and a worker
/// becomes ready only when it reads the `READY` line of its handshake.
pub proof fn lemma_ready_is_permanent(w: WorkerView, event: EventView)
    requires
        w.wf(),
    ensures
        w.ready ==> w.step(event).0.ready,
        !w.ready && w.step(event).0.ready ==> {
            &&& w.pending is Read
            &&& w.current().wait == Some(Sentinel::Ready)
            &&& event matches EventView::Line(line)
            &&& line == Sentinel::Ready.text() + line_end()
        },
{
}

/// Starting an operation does not change whether a worker is ready, nor
/// its number.
pub proof fn lemma_launch_keeps_ready(
    w: WorkerView,
    command: Option<(Seq<Seq<char>>, Seq<char>)>,
    script: Seq<ExchangeView>,
    task: bool,
)
    ensures
        w.launch(command, script, task).0.ready == w.ready,
        w.launch(command, script, task).0.id == w.id,
{
}

/// A worker that is not ready has not got beyond its handshake: it has no
/// child yet, or waits for `READY`, or is dead.
pub proof fn lemma_not_ready_before_handshake(w: WorkerView)
    requires
        w.wf(),
        !w.ready,
    ensures
        w.phase is Unspawned || w.phase is Spawned || w.phase is Dead,
{
}

/// A worker whose child is found gone is dead from then on, and its
/// operation has failed.
pub proof fn lemma_exit_kills(w: WorkerView)
    requires
        w.wf(),
        w.pending is CheckBeforeSend || w.pending is CheckBeforeRead,
    ensures
        w.step(EventView::Exited).0.phase is Dead,
        w.step(EventView::Exited).1 == ActionView::Fail(
            if w.pending is CheckBeforeSend {
                WorkerError::NotRunning
            } else {
                WorkerError::Exited
            },
        ),
{
}

/// A dead worker stays dead: no event and no new operation changes it, and
/// every operation on it fails.
pub proof fn lemma_dead_is_final(
    w: WorkerView,
    event: EventView,
    command: Option<(Seq<Seq<char>>, Seq<char>)>,
    script: Seq<ExchangeView>,
    task: bool,
)
    requires
        w.wf(),
        w.phase is Dead,
    ensures
        w.step(event).0 == w,
        w.launch(command, script, task) == (w, ActionView::Fail(WorkerError::NotRunning)),
{
}

/// A task on a worker that is ready begins with the payload phase exactly
/// if there is a payload, and with the command else; nothing is sent to a
/// worker that is not ready before its `READY` has been read.
pub proof fn lemma_task_start(w: WorkerView, cmd: Seq<char>, text: Option<Seq<char>>)
    requires
        w.wf(),
        w.pending is Nothing,
        w.phase is Spawned || w.phase is Ready,
    ensures
        w.perform_task(cmd, text).1 == ActionView::CheckAlive,
        !w.perform_task(cmd, text).0.idle,
        w.perform_task(cmd, text).0.phase == (if !w.ready {
            Phase::Spawned
        } else if text is Some {
            Phase::BusyPayload
        } else {
            Phase::BusyExec
        }),
{
    lemma_task_script_fits(w.ready, cmd, text);
    let script = task_script(w.ready, cmd, text);
    if w.ready {
        match text {
            Some(t) => {
                let body = payload_script(t);
                assert(script[0] == body[0]);
                if chunks_of(t).len() == 0 {
                    assert(body[0] == payload_end());
                } else {
                    assert(body[0] == chunk_exchange(chunks_of(t)[0]));
                }
            },
            None => {
                assert(script[0] == command_exchange(cmd));
            },
        }
    } else {
        assert(script[0] == handshake());
    }
}

/// The lines of an operation are written in the order of its script: a
/// line that the worker asks to be written is the line of the exchange
/// under way, and while the operation goes on the script stays as it is and
/// the cursor stays or moves on by one.
pub proof fn lemma_writes_follow_script(w: WorkerView, event: EventView)
    requires
        w.wf(),
    ensures
        w.step(event).1 matches ActionView::Write(line) ==> {
            &&& w.pending is CheckBeforeSend
            &&& w.current().send == Some(line)
            &&& w.step(event).0.cursor == w.cursor
        },
        !(w.step(event).0.pending is Nothing) ==> {
            &&& w.step(event).0.script == w.script
            &&& w.cursor <= w.step(event).0.cursor <= w.cursor + 1
        },
{
}

/// An event starts no task: a worker that runs a task after an event ran
/// it before.
pub proof fn lemma_step_starts_no_task(w: WorkerView, event: EventView)
    ensures
        w.step(event).0.task ==> w.task,
{
}

/// No line is read, and none is written, unless the child has just been
/// found alive.
pub proof fn lemma_checked_before_use(w: WorkerView, event: EventView)
    requires
        w.wf(),
    ensures
        w.step(event).1 is ReadLine ==> w.pending is CheckBeforeRead && event is Alive,
        w.step(event).1 is Write ==> w.pending is CheckBeforeSend && event is Alive,
{
}

/// A task ends in `Action::Done` exactly when the worker reads the `OK`
/// line that answers its command; the worker is then idle and ready for
/// the next task. A task that fails leaves the worker idle and dead. Until
/// either happens, the worker is not idle.
pub proof fn lemma_task_end(w: WorkerView, event: EventView)
    requires
        w.wf(),
        w.task,
    ensures
        match w.step(event).1 {
            ActionView::Done(result) => {
                &&& w.pending is Read
                &&& w.cursor == w.script.len() - 1
                &&& event == EventView::Line(Sentinel::TaskOk.text() + line_end())
                &&& result == (if w.buffer.len() == 0 {
                    None
                } else {
                    Some(w.buffer)
                })
                &&& w.step(event).0.idle
                &&& w.step(event).0.phase is Ready
                &&& !w.step(event).0.task
            },
            ActionView::Fail(_) => {
                &&& w.step(event).0.idle
                &&& w.step(event).0.phase is Dead
                &&& !w.step(event).0.task
            },
            _ => !w.step(event).0.idle && w.step(event).0.task,
        },
        !w.idle,
{
}

/// Lines that do not end the wait leave a reading worker as it is, but for
/// the result text taken from them.
pub proof fn lemma_read_lines(w: WorkerView, lines: Seq<Seq<char>>)
    requires
        w.wf(),
        w.pending is CheckBeforeRead,
        forall|i: int|
            0 <= i < lines.len() ==> !(classify(#[trigger] lines[i], w.current().wait->0)
                is Sentinel),
    ensures
        w.read_lines(lines) == (WorkerView {
            buffer: w.buffer + gathered(lines, w.current().wait->0),
            ..w
        }),
    decreases lines.len(),
{
    let wait = w.current().wait->0;
    if lines.len() == 0 {
        assert(w.buffer + gathered(lines, wait) =~= w.buffer);
        assert(w.read_lines(lines) =~= (WorkerView {
            buffer: w.buffer + gathered(lines, wait),
            ..w
        }));
    } else {
        let front = lines.drop_last();
        lemma_read_lines(w, front);
        let mid = w.read_lines(front);
        assert(mid.current() == w.current());
        assert(!(classify(lines.last(), wait) is Sentinel));
        assert(w.read_lines(lines) =~= (WorkerView {
            buffer: w.buffer + gathered(lines, wait),
            ..w
        }));
    }
}

/// A result text that the child sends piece by piece, one `RESULT_CHUNK:`
/// line each, and ends with `OK` is handed out whole by the task, if no
/// piece begins or ends with whitespace; an empty text is handed out as no
/// result. The worker is idle and ready afterwards.
pub proof fn lemma_result_round_trip(w: WorkerView, pieces: Seq<Seq<char>>)
    requires
        w.wf(),
        w.task,
        w.pending is CheckBeforeRead,
        w.cursor == w.script.len() - 1,
        w.buffer.len() == 0,
        forall|i: int| 0 <= i < pieces.len() ==> is_tight(#[trigger] pieces[i]),
    ensures
        ({
            let lines = pieces.map_values(|piece: Seq<char>| result_line(piece));
            let end = w.read_lines(lines).step(EventView::Alive).0.step(
                EventView::Line(Sentinel::TaskOk.text() + line_end()),
            );
            &&& end.1 == ActionView::Done(
                if pieces.flatten().len() == 0 {
                    None
                } else {
                    Some(pieces.flatten())
                },
            )
            &&& end.0.idle
            &&& end.0.phase is Ready
        }),
{
    let lines = pieces.map_values(|piece: Seq<char>| result_line(piece));
    lemma_gathered_result_lines(pieces, Sentinel::TaskOk);
    lemma_read_lines(w, lines);
    lemma_classify_sentinel(Sentinel::TaskOk);
    assert(w.buffer + pieces.flatten() =~= pieces.flatten());
}

impl Worker {
    /// A worker without a child process: idle, and not ready.
    pub fn new(id: usize, debug: bool) -> (worker: Worker)
        ensures
            worker@ == WorkerView::fresh(id, debug),
            worker@.wf(),
    {
        let worker = Worker {
            id,
            idle: true,
            ready: false,
            debug,
            phase: Phase::Unspawned,
            pending: Pending::Nothing,
            script: Vec::new(),
            cursor: 0,
            buffer: String::new(),
            task: false,
        };
        assert(worker@ =~= WorkerView::fresh(id, debug));
        worker
    }

    /// Fails the operation in progress: see [`WorkerView::die`].
    fn die(&mut self, error: WorkerError) -> (action: Action)
        ensures
            final(self)@ == old(self)@.die(error).0,
            action@ == old(self)@.die(error).1,
    {
        self.idle = true;
        self.phase = Phase::Dead;
        self.pending = Pending::Nothing;
        self.script = Vec::new();
        self.cursor = 0;
        self.buffer = String::new();
        self.task = false;
        assert(self@ =~= old(self)@.die(error).0);
        Action::Fail(error)
    }

    /// Ends the operation in progress: see [`WorkerView::finish`].
    fn finish(&mut self, result: Option<String>) -> (action: Action)
        ensures
            final(self)@ == old(self)@.finish(option_text(result)).0,
            action@ == old(self)@.finish(option_text(result)).1,
    {
        let task = self.task;
        self.idle = self.idle || task;
        self.phase = if self.ready {
            Phase::Ready
        } else {
            Phase::Spawned
        };
        self.pending = Pending::Nothing;
        self.script = Vec::new();
        self.cursor = 0;
        self.buffer = String::new();
        self.task = false;
        assert(self@ =~= old(self)@.finish(option_text(result)).0);
        if task {
            Action::Done(result)
        } else {
            Action::Done(None)
        }
    }

    /// Turns to the exchange at the cursor: see [`WorkerView::begin`].
    fn begin(&mut self, result: Option<String>) -> (action: Action)
        ensures
            final(self)@ == old(self)@.begin(option_text(result)).0,
            action@ == old(self)@.begin(option_text(result)).1,
    {
        if self.cursor < self.script.len() {
            self.phase = match self.script[self.cursor].wait {
                Some(Sentinel::Ready) => Phase::Spawned,
                Some(Sentinel::TaskOk) => Phase::BusyExec,
                _ => Phase::BusyPayload,
            };
            self.pending = Pending::CheckBeforeSend;
            self.buffer = String::new();
            assert(self@ =~= old(self)@.begin(option_text(result)).0);
            Action::CheckAlive
        } else {
            self.finish(result)
        }
    }

    /// Ends the exchange under way: see [`WorkerView::next_exchange`].
    fn next_exchange(&mut self, result: Option<String>) -> (action: Action)
        requires
            old(self).cursor < old(self).script.len(),
        ensures
            final(self)@ == old(self)@.next_exchange(option_text(result)).0,
            action@ == old(self)@.next_exchange(option_text(result)).1,
    {
        let handshake = match self.script[self.cursor].wait {
            Some(Sentinel::Ready) => true,
            _ => false,
        };
        self.ready = self.ready || handshake;
        self.cursor = self.cursor + 1;
        self.begin(result)
    }

    /// Goes on once the line is out: see [`WorkerView::after_send`].
    fn after_send(&mut self) -> (action: Action)
        requires
            old(self).cursor < old(self).script.len(),
        ensures
            final(self)@ == old(self)@.after_send().0,
            action@ == old(self)@.after_send().1,
    {
        if self.script[self.cursor].wait.is_some() {
            self.pending = Pending::CheckBeforeRead;
            assert(self@ =~= old(self)@.after_send().0);
            Action::CheckAlive
        } else {
            self.next_exchange(None)
        }
    }

    /// Takes a line that was read: see [`WorkerView::on_line`].
    fn on_line(&mut self, line: &str) -> (action: Action)
        requires
            old(self).cursor < old(self).script.len(),
            old(self).script[old(self).cursor as int].wait is Some,
        ensures
            final(self)@ == old(self)@.on_line(line@).0,
            action@ == old(self)@.on_line(line@).1,
    {
        let wait = self.script[self.cursor].wait.unwrap();
        match classify_line(line, wait) {
            LineKind::Sentinel => {
                let result = if self.buffer.as_str().is_empty() {
                    None
                } else {
                    Some(self.buffer.clone())
                };
                self.next_exchange(result)
            },
            LineKind::ResultChunk(text) => {
                self.pending = Pending::CheckBeforeRead;
                self.buffer.append(text.as_str());
                assert(self@ =~= old(self)@.on_line(line@).0);
                Action::CheckAlive
            },
            _ => {
                self.pending = Pending::CheckBeforeRead;
                assert(self@ =~= old(self)@.on_line(line@).0);
                Action::CheckAlive
            },
        }
    }

    /// Whether the worker's fields fit together, as every operation needs
    /// them to. A worker that is only ever changed by its operations stays
    /// well-formed; this test is for a caller that has written to its fields.
    pub fn is_wf(&self) -> (b: bool)
        ensures
            b == self@.wf(),
    {
        let len = self.script.len();
        if self.cursor > len {
            return false;
        }
        let mut i: usize = 1;
        while i < len
            invariant
                1 <= i,
                len == self.script.len(),
                forall|j: int|
                    0 < j < i && j < len ==> (#[trigger] self@.script[j]).wait != Some(
                        Sentinel::Ready,
                    ),
            decreases len - i,
        {
            if self.script[i].wait == Some(Sentinel::Ready) {
                assert(self@.script[i as int].wait == Some(Sentinel::Ready));
                return false;
            }
            i = i + 1;
        }
        let in_exchange = self.pending == Pending::CheckBeforeSend || self.pending
            == Pending::Write || self.pending == Pending::CheckBeforeRead || self.pending
            == Pending::Read;
        if self.pending == Pending::Nothing {
            let settled = self.phase == Phase::Unspawned || self.phase == Phase::Spawned
                || self.phase == Phase::Ready || self.phase == Phase::Dead;
            if len != 0 || !self.buffer.as_str().is_empty() || self.task || !settled {
                return false;
            }
        }
        if self.pending == Pending::Spawn {
            if self.phase != Phase::Unspawned || self.cursor != 0 {
                return false;
            }
            if len > 0 && self.script[0].wait != Some(Sentinel::Ready) {
                assert(self@.script[0].wait != Some(Sentinel::Ready));
                return false;
            }
        }
        if in_exchange {
            if self.cursor >= len {
                return false;
            }
            let current = &self.script[self.cursor];
            assert(self@.current() == current@);
            let phase = match current.wait {
                Some(Sentinel::Ready) => Phase::Spawned,
                Some(Sentinel::TaskOk) => Phase::BusyExec,
                _ => Phase::BusyPayload,
            };
            let handshake = current.wait == Some(Sentinel::Ready);
            if self.phase != phase || handshake == self.ready {
                return false;
            }
            if self.pending == Pending::Write && current.send.is_none() {
                return false;
            }
            if (self.pending == Pending::CheckBeforeRead || self.pending == Pending::Read)
                && current.wait.is_none() {
                return false;
            }
        }
        if (self.phase == Phase::Unspawned || self.phase == Phase::Spawned) && self.ready {
            return false;
        }
        if (self.phase == Phase::Ready || self.phase == Phase::BusyPayload || self.phase
            == Phase::BusyExec) && !self.ready {
            return false;
        }
        if self.task {
            if self.idle || len == 0 {
                return false;
            }
            if self.script[len - 1].wait != Some(Sentinel::TaskOk) {
                assert(self@.script.last().wait != Some(Sentinel::TaskOk));
                return false;
            }
            assert(self@.script.last() == self.script[len - 1]@);
        }
        if self.phase == Phase::Dead && (!self.idle || self.pending != Pending::Nothing) {
            return false;
        }
        true
    }

    /// Whether the worker can be handed a task.
    pub fn is_available(&self) -> (b: bool)
        ensures
            b == self@.available(),
    {
        self.idle && self.pending == Pending::Nothing && self.phase != Phase::Dead
    }

    /// Takes the outcome of the action that the worker handed out last, and
    /// hands out the next one.
    pub fn communicate(&mut self, event: Event) -> (action: Action)
        requires
            old(self)@.wf(),
        ensures
            final(self)@.wf(),
            final(self)@ == old(self)@.step(event@).0,
            action@ == old(self)@.step(event@).1,
    {
        proof {
            lemma_step_wf(self@, event@);
        }
        match self.pending {
            Pending::Nothing => Action::Fail(WorkerError::Unexpected),
            Pending::Spawn => match event {
                Event::Spawned => {
                    self.phase = Phase::Spawned;
                    self.begin(None)
                },
                Event::SpawnFailed => self.die(WorkerError::Spawn),
                Event::CaptureFailed => self.die(WorkerError::StreamCapture),
                _ => self.die(WorkerError::Unexpected),
            },
            Pending::CheckBeforeSend => match event {
                Event::Alive => {
                    match &self.script[self.cursor].send {
                        Some(line) => {
                            let line = line.clone();
                            self.pending = Pending::Write;
                            assert(self@ =~= old(self)@.step(event@).0);
                            Action::Write(line)
                        },
                        None => self.after_send(),
                    }
                },
                Event::Exited => self.die(WorkerError::NotRunning),
                Event::StatusFailed => self.die(WorkerError::Status),
                _ => self.die(WorkerError::Unexpected),
            },
            Pending::Write => match event {
                Event::Written => self.after_send(),
                Event::WriteFailed => self.die(WorkerError::Write),
                _ => self.die(WorkerError::Unexpected),
            },
            Pending::CheckBeforeRead => match event {
                Event::Alive => {
                    self.pending = Pending::Read;
                    assert(self@ =~= old(self)@.step(event@).0);
                    Action::ReadLine
                },
                Event::Exited => self.die(WorkerError::Exited),
                Event::StatusFailed => self.die(WorkerError::Status),
                _ => self.die(WorkerError::Unexpected),
            },
            Pending::Read => match event {
                Event::Line(line) => self.on_line(line.as_str()),
                Event::ReadFailed => self.die(WorkerError::Read),
                _ => self.die(WorkerError::Unexpected),
            },
        }
    }

    /// The action that starts the child.
    fn spawn(binary_args: &Vec<String>, file_path: &str) -> (action: Action)
        requires
            binary_args@.len() > 0,
        ensures
            action@ == spawn_action(texts(binary_args@), file_path@),
    {
        let program = binary_args[0].clone();
        let mut args: Vec<String> = Vec::new();
        let mut i: usize = 1;
        while i < binary_args.len()
            invariant
                1 <= i <= binary_args.len(),
                texts(args@) == texts(binary_args@).subrange(1, i as int),
            decreases binary_args.len() - i,
        {
            let ghost before = texts(args@);
            let word = binary_args[i].clone();
            args.push(word);
            assert(texts(args@) =~= before.push(word@));
            assert(texts(binary_args@)[i as int] == word@);
            assert(texts(args@) =~= texts(binary_args@).subrange(1, i + 1));
            i = i + 1;
        }
        let ghost before = texts(args@);
        args.push(file_path.to_owned());
        assert(texts(args@) =~= before.push(file_path@));
        assert(texts(args@) =~= texts(binary_args@).skip(1).push(file_path@));
        Action::Spawn { program, args }
    }

    /// Starts an operation: see [`WorkerView::launch`].
    fn launch(
        &mut self,
        command: Option<(&Vec<String>, &str)>,
        script: Vec<Exchange>,
        task: bool,
    ) -> (action: Action)
        requires
            old(self)@.wf(),
            script_fits(exchange_views(script@), old(self).ready, task),
        ensures
            final(self)@.wf(),
            final(self)@ == old(self)@.launch(
                command_view(command),
                exchange_views(script@),
                task,
            ).0,
            action@ == old(self)@.launch(command_view(command), exchange_views(script@), task).1,
    {
        proof {
            lemma_launch_wf(self@, command_view(command), exchange_views(script@), task);
        }
        match self.pending {
            Pending::Nothing => {},
            _ => {
                return Action::Fail(WorkerError::Busy);
            },
        }
        match self.phase {
            Phase::Dead => Action::Fail(WorkerError::NotRunning),
            Phase::Unspawned => match command {
                Some((binary_args, file_path)) => {
                    if binary_args.len() == 0 {
                        self.die(WorkerError::Spawn)
                    } else {
                        self.idle = self.idle && !task;
                        self.pending = Pending::Spawn;
                        self.script = script;
                        self.cursor = 0;
                        self.task = task;
                        assert(self@ =~= old(self)@.launch(
                            command_view(command),
                            exchange_views(script@),
                            task,
                        ).0);
                        Worker::spawn(binary_args, file_path)
                    }
                },
                None => {
                    self.idle = self.idle || task;
                    assert(self@ =~= old(self)@.launch(
                        command_view(command),
                        exchange_views(script@),
                        task,
                    ).0);
                    Action::Fail(WorkerError::NotRunning)
                },
            },
            _ => {
                self.idle = self.idle && !task;
                self.script = script;
                self.cursor = 0;
                self.task = task;
                self.begin(None)
            },
        }
    }

    /// Starts the child process, unless the worker has one: then there is
    /// nothing to do. The program is the first word of `binary_args`; its
    /// arguments are the other words, then `file_path`.
    pub fn init(&mut self, binary_args: &Vec<String>, file_path: &str) -> (action: Action)
        requires
            old(self)@.wf(),
        ensures
            final(self)@.wf(),
            final(self)@ == old(self)@.init(texts(binary_args@), file_path@).0,
            action@ == old(self)@.init(texts(binary_args@), file_path@).1,
    {
        let script: Vec<Exchange> = Vec::new();
        assert(exchange_views(script@) =~= Seq::<ExchangeView>::empty());
        self.launch(Some((binary_args, file_path)), script, false)
    }

    /// Waits for the child's `READY`, unless it has been seen already: then
    /// there is nothing to do.
    pub fn wait_for_ready(&mut self) -> (action: Action)
        requires
            old(self)@.wf(),
        ensures
            final(self)@.wf(),
            final(self)@ == old(self)@.wait_for_ready().0,
            action@ == old(self)@.wait_for_ready().1,
    {
        let script = build_handshake_script(self.ready);
        proof {
            lemma_handshake_script_fits(self.ready);
        }
        self.launch(None, script, false)
    }

    /// Starts the task `cmd` with the input `payload` on a worker that has a
    /// child. The worker is not idle until the task has ended.
    pub fn perform_task(&mut self, cmd: &str, payload: &Payload) -> (action: Action)
        requires
            old(self)@.wf(),
        ensures
            final(self)@.wf(),
            final(self)@ == old(self)@.perform_task(cmd@, payload_text(payload@)).0,
            action@ == old(self)@.perform_task(cmd@, payload_text(payload@)).1,
    {
        let script = build_task_script(self.ready, cmd, payload);
        proof {
            lemma_task_script_fits(self.ready, cmd@, payload_text(payload@));
        }
        self.launch(None, script, true)
    }

    /// Starts the child, unless the worker has one, and then waits for its
    /// `READY`.
    pub fn warm_up(&mut self, binary_args: &Vec<String>, file_path: &str) -> (action: Action)
        requires
            old(self)@.wf(),
        ensures
            final(self)@.wf(),
            final(self)@ == old(self)@.warm_up(texts(binary_args@), file_path@).0,
            action@ == old(self)@.warm_up(texts(binary_args@), file_path@).1,
    {
        let script = build_handshake_script(self.ready);
        proof {
            lemma_handshake_script_fits(self.ready);
        }
        self.launch(Some((binary_args, file_path)), script, false)
    }

    /// Starts the child, unless the worker has one, and then the task `cmd`
    /// with the input `payload`.
    pub fn dispatch(
        &mut self,
        binary_args: &Vec<String>,
        file_path: &str,
        cmd: &str,
        payload: &Payload,
    ) -> (action: Action)
        requires
            old(self)@.wf(),
        ensures
            final(self)@.wf(),
            final(self)@ == old(self)@.dispatch(
                texts(binary_args@),
                file_path@,
                cmd@,
                payload_text(payload@),
            ).0,
            action@ == old(self)@.dispatch(
                texts(binary_args@),
                file_path@,
                cmd@,
                payload_text(payload@),
            ).1,
    {
        let script = build_task_script(self.ready, cmd, payload);
        proof {
            lemma_task_script_fits(self.ready, cmd@, payload_text(payload@));
        }
        self.launch(Some((binary_args, file_path)), script, true)
    }
}

} // verus!
