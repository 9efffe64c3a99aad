use node_workers::payload::{AsPayload, EmptyPayload, Payload};
use node_workers::pool::{Dispatch, WorkerPoolInner};
use node_workers::worker::{Action, Event, Phase, WorkerError};
use node_workers::{collect_results, encode_all, TaskFailure};
use std::collections::VecDeque;

/// A stand-in for the script side: it speaks the protocol of a task file
/// that offers `fib2` and `ping`, and exits on any other task.
struct FakeChild {
    alive: bool,
    output: VecDeque<String>,
    payload: String,
    parsed: Option<serde_json::Value>,
    written: Vec<String>,
}

fn fib(n: u64) -> u64 {
    let (mut a, mut b) = (0u64, 1u64);
    for _ in 0..n {
        let next = a + b;
        a = b;
        b = next;
    }
    a
}

impl FakeChild {
    fn new() -> FakeChild {
        FakeChild {
            alive: false,
            output: VecDeque::new(),
            payload: String::new(),
            parsed: None,
            written: Vec::new(),
        }
    }

    fn spawn(&mut self, program: &str, args: &[String]) -> Event {
        if program != "node" {
            return Event::SpawnFailed;
        }
        if args.last().map(|s| s.as_str()) == Some("examples/worker") {
            self.alive = true;
            self.output.push_back("READY\n".to_string());
        }
        Event::Spawned
    }

    fn write(&mut self, line: &str) -> Event {
        if !self.alive {
            return Event::WriteFailed;
        }
        self.written.push(line.to_string());
        let line = line.strip_suffix('\n').unwrap();
        if let Some(chunk) = line.strip_prefix("PAYLOAD_CHUNK: ") {
            self.payload.push_str(chunk);
        } else if line == "PAYLOAD_END" {
            self.parsed = Some(serde_json::from_str(&self.payload).unwrap());
            self.payload.clear();
            self.output.push_back("PAYLOAD_OK\n".to_string());
        } else if let Some(cmd) = line.strip_prefix("CMD: ") {
            let payload = self.parsed.take();
            match cmd {
                "fib2" => {
                    let n = payload.unwrap()["_inner_payload"].as_u64().unwrap();
                    self.output.push_back(format!("computing fib({})\n", n));
                    self.output.push_back(format!("RESULT_CHUNK: {}\n", fib(n)));
                    self.output.push_back("OK\n".to_string());
                }
                "ping" => {
                    assert!(payload.is_none());
                    self.output.push_back("pong\n".to_string());
                    self.output.push_back("OK\n".to_string());
                }
                _ => {
                    self.alive = false;
                }
            }
        }
        Event::Written
    }

    fn perform(&mut self, action: &Action) -> Event {
        match action {
            Action::Spawn { program, args } => self.spawn(program, args),
            Action::CheckAlive => {
                if self.alive {
                    Event::Alive
                } else {
                    Event::Exited
                }
            }
            Action::Write(line) => self.write(line),
            Action::ReadLine => Event::Line(self.output.pop_front().unwrap_or_default()),
            Action::Done(_) | Action::Fail(_) => unreachable!(),
        }
    }

    fn commands(&self) -> Vec<&String> {
        self.written.iter().filter(|l| l.starts_with("CMD: ")).collect()
    }
}

/// The children of a pool's workers, by worker number.
struct Children {
    list: Vec<FakeChild>,
    spawned: usize,
}

impl Children {
    fn new() -> Children {
        Children { list: Vec::new(), spawned: 0 }
    }

    fn of(&mut self, id: usize) -> &mut FakeChild {
        while self.list.len() < id {
            self.list.push(FakeChild::new());
        }
        &mut self.list[id - 1]
    }
}

fn check_bounds(pool: &WorkerPoolInner) {
    assert!(pool.is_wf());
    assert!(pool.busy_counter <= pool.max_workers);
    assert!(pool.workers.len() <= pool.max_workers);
    let tasks = pool.workers.iter().filter(|w| w.task).count();
    assert_eq!(pool.busy_counter, tasks);
    for (i, worker) in pool.workers.iter().enumerate() {
        assert_eq!(worker.id, i + 1);
    }
}

/// Runs one operation of a worker to its end, as the thread that owns the
/// worker would.
fn drive(
    pool: &mut WorkerPoolInner,
    children: &mut Children,
    dispatch: Dispatch,
) -> Result<Option<String>, WorkerError> {
    let id = dispatch.worker_id;
    let mut action = dispatch.action;
    loop {
        check_bounds(pool);
        match action {
            Action::Done(result) => return Ok(result),
            Action::Fail(error) => return Err(error),
            other => {
                if matches!(other, Action::Spawn { .. }) {
                    children.spawned += 1;
                }
                let event = children.of(id).perform(&other);
                action = pool.communicate(id, event);
            }
        }
    }
}

/// A task, as the thread handle of the pool would report it: a failed
/// worker is a thread that panicked, and the result text is parsed.
fn joined(outcome: Result<Option<String>, WorkerError>) -> Result<Option<u64>, TaskFailure> {
    match outcome {
        Ok(Some(text)) => match serde_json::from_str::<u64>(&text) {
            Ok(n) => Ok(Some(n)),
            Err(_) => Err(TaskFailure::Deserialization),
        },
        Ok(None) => Ok(None),
        Err(_) => Err(TaskFailure::ThreadPanicked),
    }
}

/// A batch: every payload is handed out in turn, as soon as the pool has a
/// worker for it; the results come back in the order of the payloads.
fn perform<P: AsPayload>(
    pool: &mut WorkerPoolInner,
    children: &mut Children,
    file_path: &str,
    cmd: &str,
    payloads: Vec<P>,
) -> Result<Vec<Option<u64>>, TaskFailure> {
    let payloads = encode_all(payloads);
    let mut outcomes: Vec<Option<Result<Option<String>, WorkerError>>> = Vec::new();
    let mut in_flight: VecDeque<(usize, Dispatch)> = VecDeque::new();
    for (n, payload) in payloads.into_iter().enumerate() {
        outcomes.push(None);
        loop {
            match pool.run_worker(file_path.to_string(), cmd.to_string(), payload.clone()) {
                Some(dispatch) => {
                    in_flight.push_back((n, dispatch));
                    break;
                }
                None => {
                    // saturated: wait until no task is under way, then ask again
                    assert!(!in_flight.is_empty());
                    while let Some((m, dispatch)) = in_flight.pop_front() {
                        outcomes[m] = Some(drive(pool, children, dispatch));
                    }
                    assert_eq!(pool.busy_counter, 0);
                }
            }
        }
    }
    while let Some((m, dispatch)) = in_flight.pop_front() {
        outcomes[m] = Some(drive(pool, children, dispatch));
    }
    collect_results(outcomes.into_iter().map(|o| joined(o.unwrap())).collect())
}

#[test]
fn setup_makes_an_empty_pool_that_runs_node() {
    let pool = WorkerPoolInner::setup(4);
    assert_eq!(pool.max_workers, 4);
    assert_eq!(pool.workers.len(), 0);
    assert_eq!(pool.busy_counter, 0);
    assert_eq!(pool.binary_args, vec!["node".to_string()]);
    assert!(!pool.debug);
}

#[test]
fn set_binary_splits_the_command_as_a_shell_would() {
    let mut pool = WorkerPoolInner::setup(4);
    pool.set_binary("node -r esbuild-register");
    assert_eq!(pool.binary_args, vec!["node", "-r", "esbuild-register"]);
    pool.set_binary("deno run 'my file.ts' \"a b\"\\ c");
    assert_eq!(pool.binary_args, vec!["deno", "run", "my file.ts", "a b c"]);
    pool.set_binary("");
    assert_eq!(pool.binary_args, Vec::<String>::new());
    assert_eq!(pool.max_workers, 4);
}

#[test]
fn try_set_binary_turns_down_an_open_quote() {
    let mut pool = WorkerPoolInner::setup(4);
    assert!(pool.try_set_binary("node -r esbuild-register"));
    assert_eq!(pool.binary_args, vec!["node", "-r", "esbuild-register"]);
    assert!(!pool.try_set_binary("node 'unclosed"));
    assert_eq!(pool.binary_args, vec!["node", "-r", "esbuild-register"]);
    assert!(!pool.try_set_binary("node \"unclosed"));
    assert_eq!(pool.binary_args, vec!["node", "-r", "esbuild-register"]);
}

#[test]
fn set_binary_args_takes_the_words_as_they_are() {
    let mut pool = WorkerPoolInner::setup(1);
    pool.set_binary_args(vec!["bun".to_string(), "run".to_string()]);
    assert_eq!(pool.binary_args, vec!["bun", "run"]);
}

#[test]
fn with_debug_is_for_the_workers_made_afterwards() {
    let mut pool = WorkerPoolInner::setup(2);
    pool.get_available_worker();
    pool.with_debug(true);
    assert!(pool.debug);
    pool.get_available_worker();
    assert!(!pool.workers[0].debug);
    assert!(pool.workers[1].debug);
}

#[test]
fn create_worker_when_needed() {
    let mut pool = WorkerPoolInner::setup(1);
    assert_eq!(pool.workers.len(), 0);

    pool.get_available_worker();
    assert_eq!(pool.workers.len(), 1);
}

#[test]
fn same_idle_worker() {
    let mut pool = WorkerPoolInner::setup(1);
    let worker = pool.get_available_worker().unwrap();
    pool.workers[worker - 1].idle = true;
    assert!(pool.is_wf());
    let worker_id = pool.workers[worker - 1].id;
    let other_worker_id = pool.get_available_worker().unwrap();
    assert_eq!(worker_id, other_worker_id);
}

#[test]
fn create_new_worker_when_busy() {
    let mut pool = WorkerPoolInner::setup(2);
    pool.run_worker("examples/worker".into(), "fib2".into(), 40);

    let worker_id = pool.get_available_worker().unwrap();
    println!("got worker_id");
    assert_eq!(worker_id, 2);
}

#[test]
fn reuse_worker_when_full() {
    let mut pool = WorkerPoolInner::setup(1);
    let mut children = Children::new();
    let task = pool.run_worker("examples/worker".into(), "fib2".into(), 40).unwrap();

    // the pool is saturated until the task has ended
    assert_eq!(pool.get_available_worker(), None);
    assert_eq!(pool.busy_counter, 1);
    assert_eq!(drive(&mut pool, &mut children, task), Ok(Some("102334155".to_string())));
    assert_eq!(pool.busy_counter, 0);

    let worker_id = pool.get_available_worker().unwrap();
    assert_eq!(worker_id, 1);
}

#[test]
fn warmup() {
    let mut pool = WorkerPoolInner::setup(2);
    let mut children = Children::new();
    pool.with_debug(true);
    let started = pool.warmup(2, "examples/worker");
    assert_eq!(started.len(), 2);
    for dispatch in started {
        assert_eq!(drive(&mut pool, &mut children, dispatch), Ok(None));
    }

    for worker in &pool.workers {
        assert_eq!(worker.ready, true);
    }
}

#[test]
fn error_invalid_command() {
    {
        let mut pool = WorkerPoolInner::setup(1);
        let mut children = Children::new();
        let task = pool.run_worker("foo".into(), "fib2".into(), 40).unwrap();
        let res = joined(drive(&mut pool, &mut children, task));
        println!("{:?}", res);
        assert_eq!(true, matches!(res, Err(_)));
    }

    {
        let mut pool = WorkerPoolInner::setup(1);
        let mut children = Children::new();
        let res = perform(&mut pool, &mut children, "foo", "fib2", vec![40]);
        assert_eq!(true, matches!(res, Err(_)));
    }

    {
        let mut pool = WorkerPoolInner::setup(1);
        let mut children = Children::new();
        let started = pool.warmup(1, "foo").pop().unwrap();
        let res = drive(&mut pool, &mut children, started);
        assert_eq!(true, matches!(res, Err(_)));
    }
}

#[test]
fn error_task_throws() {
    {
        let mut pool = WorkerPoolInner::setup(1);
        let mut children = Children::new();
        let task = pool.run_worker("examples/worker".into(), "error".into(), 40).unwrap();
        let res = joined(drive(&mut pool, &mut children, task));
        assert_eq!(true, matches!(res, Err(_)));
    }

    {
        let mut pool = WorkerPoolInner::setup(1);
        let mut children = Children::new();
        let res = perform(&mut pool, &mut children, "examples/worker", "error", vec![40]);
        assert_eq!(true, matches!(res, Err(_)));
    }
}

#[test]
fn error_task_not_found() {
    {
        let mut pool = WorkerPoolInner::setup(1);
        let mut children = Children::new();
        let task = pool.run_worker("examples/worker".into(), "no".into(), 40).unwrap();
        let res = joined(drive(&mut pool, &mut children, task));
        assert_eq!(true, matches!(res, Err(_)));
    }

    {
        let mut pool = WorkerPoolInner::setup(1);
        let mut children = Children::new();
        let res = perform(&mut pool, &mut children, "examples/worker", "no", vec![40]);
        assert_eq!(true, matches!(res, Err(_)));
    }
}

#[test]
fn batch_of_four_on_two_workers_keeps_the_order() {
    let mut pool = WorkerPoolInner::setup(2);
    let mut children = Children::new();
    let result = perform(&mut pool, &mut children, "examples/worker", "fib2", vec![10u64, 20, 30, 40]);
    assert_eq!(result, Ok(vec![Some(55), Some(6765), Some(832040), Some(102334155)]));
    assert_eq!(pool.workers.len(), 2);
    assert_eq!(children.spawned, 2);
    assert_eq!(pool.busy_counter, 0);
    // the payloads reached the workers in the order in which they were handed out
    assert_eq!(children.of(1).commands().len(), 2);
    assert_eq!(children.of(2).commands().len(), 2);
    assert_eq!(
        children.of(1).written,
        vec![
            "PAYLOAD_CHUNK: {\"_inner_payload\":10}\n",
            "PAYLOAD_END\n",
            "CMD: fib2\n",
            "PAYLOAD_CHUNK: {\"_inner_payload\":30}\n",
            "PAYLOAD_END\n",
            "CMD: fib2\n",
        ]
    );
}

#[test]
fn batch_without_payloads_reuses_the_single_worker() {
    let mut pool = WorkerPoolInner::setup(1);
    let mut children = Children::new();
    let result = perform(
        &mut pool,
        &mut children,
        "examples/worker",
        "ping",
        vec![EmptyPayload::new(), EmptyPayload::new()],
    );
    assert_eq!(result, Ok(vec![None, None]));
    assert_eq!(pool.workers.len(), 1);
    assert_eq!(children.spawned, 1);
    assert_eq!(children.of(1).written, vec!["CMD: ping\n", "CMD: ping\n"]);
}

#[test]
fn single_task_gives_its_result() {
    let mut pool = WorkerPoolInner::setup(2);
    let mut children = Children::new();
    let task = pool.run_worker("examples/worker".to_string(), "fib2".to_string(), 40u32).unwrap();
    assert_eq!(task.worker_id, 1);
    assert_eq!(
        task.action,
        Action::Spawn { program: "node".to_string(), args: vec!["examples/worker".to_string()] }
    );
    assert_eq!(joined(drive(&mut pool, &mut children, task)), Ok(Some(102334155)));
}

#[test]
fn missing_file_leaves_no_usable_worker() {
    let mut pool = WorkerPoolInner::setup(1);
    let mut children = Children::new();
    let task = pool.run_worker("nonexistent_file".to_string(), "fib2".to_string(), 40).unwrap();
    assert_eq!(drive(&mut pool, &mut children, task), Err(WorkerError::NotRunning));
    assert_eq!(pool.workers.len(), 1);
    assert_eq!(pool.workers[0].phase, Phase::Dead);
    assert!(!pool.workers[0].is_available());
    assert_eq!(pool.busy_counter, 0);
    assert_eq!(pool.get_available_worker(), None);
    assert!(pool.run_worker("examples/worker".to_string(), "ping".to_string(), EmptyPayload::new()).is_none());
}

#[test]
fn program_that_cannot_be_started_fails_the_task() {
    let mut pool = WorkerPoolInner::setup(1);
    let mut children = Children::new();
    pool.set_binary("no-such-interpreter");
    let task = pool.run_worker("examples/worker".to_string(), "ping".to_string(), EmptyPayload::new()).unwrap();
    assert_eq!(drive(&mut pool, &mut children, task), Err(WorkerError::Spawn));
    assert_eq!(pool.workers[0].phase, Phase::Dead);
}

#[test]
fn empty_command_fails_the_task_at_once() {
    let mut pool = WorkerPoolInner::setup(1);
    pool.set_binary("");
    let task = pool.run_worker("examples/worker".to_string(), "ping".to_string(), EmptyPayload::new()).unwrap();
    assert_eq!(task.action, Action::Fail(WorkerError::Spawn));
    assert_eq!(pool.busy_counter, 0);
    assert_eq!(pool.workers[0].phase, Phase::Dead);
}

#[test]
fn task_that_throws_marks_its_worker_dead() {
    let mut pool = WorkerPoolInner::setup(1);
    let mut children = Children::new();
    let res = perform(&mut pool, &mut children, "examples/worker", "error", vec![40]);
    assert_eq!(res, Err(TaskFailure::ThreadPanicked));
    assert_eq!(pool.workers[0].phase, Phase::Dead);
    assert!(pool.workers[0].ready);
    assert_eq!(pool.busy_counter, 0);
}

#[test]
fn warmup_leaves_the_workers_ready_and_idle_without_a_command() {
    let mut pool = WorkerPoolInner::setup(2);
    let mut children = Children::new();
    let started = pool.warmup(2, "examples/worker");
    assert_eq!(started.iter().map(|d| d.worker_id).collect::<Vec<_>>(), vec![1, 2]);
    // while they start, the new workers cannot be taken for a task
    assert_eq!(pool.get_available_worker(), None);
    for dispatch in started {
        assert_eq!(drive(&mut pool, &mut children, dispatch), Ok(None));
    }
    assert_eq!(pool.workers.len(), 2);
    for worker in &pool.workers {
        assert_eq!(worker.phase, Phase::Ready);
        assert!(worker.ready);
        assert!(worker.idle);
    }
    assert!(children.of(1).written.is_empty());
    assert!(children.of(2).written.is_empty());
    assert_eq!(pool.busy_counter, 0);
    // the first task finds a worker that is ready: no handshake, no new child
    let task = pool.run_worker("examples/worker".to_string(), "ping".to_string(), EmptyPayload::new()).unwrap();
    assert_eq!(task, Dispatch { worker_id: 1, action: Action::CheckAlive });
    assert_eq!(drive(&mut pool, &mut children, task), Ok(None));
    assert_eq!(children.spawned, 2);
}

#[test]
fn warmup_is_clamped_to_the_room_that_is_left() {
    let mut pool = WorkerPoolInner::setup(3);
    pool.get_available_worker();
    assert_eq!(pool.warmup(5, "examples/worker").len(), 2);
    assert_eq!(pool.workers.len(), 3);
    assert_eq!(pool.warmup(1, "examples/worker").len(), 0);
    assert_eq!(pool.workers.len(), 3);
    let mut pool = WorkerPoolInner::setup(3);
    assert_eq!(pool.warmup(0, "examples/worker").len(), 0);
    assert_eq!(pool.warmup(2, "examples/worker").len(), 2);
    assert_eq!(pool.workers.iter().map(|w| w.id).collect::<Vec<_>>(), vec![1, 2]);
    let mut pool = WorkerPoolInner::setup(0);
    assert_eq!(pool.warmup(4, "examples/worker").len(), 0);
}

#[test]
fn first_idle_worker_wins() {
    let mut pool = WorkerPoolInner::setup(3);
    assert_eq!(pool.get_available_worker(), Some(1));
    assert_eq!(pool.get_available_worker(), Some(2));
    assert_eq!(pool.get_available_worker(), Some(3));
    assert_eq!(pool.get_available_worker(), None);
    pool.workers[2].idle = true;
    pool.workers[1].idle = true;
    assert_eq!(pool.get_available_worker(), Some(2));
    assert_eq!(pool.get_available_worker(), Some(3));
    assert_eq!(pool.get_available_worker(), None);
    assert_eq!(pool.workers.len(), 3);
}

#[test]
fn pool_without_room_is_saturated_from_the_start() {
    let mut pool = WorkerPoolInner::setup(0);
    assert_eq!(pool.get_available_worker(), None);
    assert!(pool.run_worker("examples/worker".to_string(), "ping".to_string(), EmptyPayload::new()).is_none());
    assert_eq!(pool.workers.len(), 0);
}

#[test]
fn counter_and_size_never_exceed_the_capacity() {
    let mut pool = WorkerPoolInner::setup(3);
    let mut children = Children::new();
    let mut tasks = Vec::new();
    for n in 0..10u64 {
        match pool.run_worker("examples/worker".to_string(), "fib2".to_string(), n) {
            Some(task) => tasks.push(task),
            None => {
                assert_eq!(pool.busy_counter, 3);
                for task in tasks.drain(..) {
                    drive(&mut pool, &mut children, task).unwrap();
                }
                assert_eq!(pool.busy_counter, 0);
            }
        }
        check_bounds(&pool);
    }
    assert_eq!(pool.workers.len(), 3);
}

#[test]
fn event_for_an_unknown_worker_is_turned_down() {
    let mut pool = WorkerPoolInner::setup(2);
    pool.get_available_worker();
    assert_eq!(pool.communicate(0, Event::Alive), Action::Fail(WorkerError::UnknownWorker));
    assert_eq!(pool.communicate(2, Event::Alive), Action::Fail(WorkerError::UnknownWorker));
    assert_eq!(pool.communicate(1, Event::Alive), Action::Fail(WorkerError::Unexpected));
    assert_eq!(pool.workers.len(), 1);
}

#[test]
fn payload_of_a_task_reaches_the_worker_whole() {
    let mut pool = WorkerPoolInner::setup(1);
    let text = format!("{{\"text\":\"{}\"}}", "é".repeat(1200));
    let task = pool
        .run_worker("examples/worker".to_string(), "getUser".to_string(), Payload::Structured(text.clone()))
        .unwrap();
    assert!(matches!(task.action, Action::Spawn { .. }));
    let mut sent = String::new();
    let events = vec![Event::Spawned, Event::Alive, Event::Alive, Event::Line("READY\n".to_string())];
    let mut action = Action::CheckAlive;
    for event in events {
        action = pool.communicate(1, event);
    }
    let mut lines = 0;
    loop {
        assert_eq!(action, Action::CheckAlive);
        match pool.communicate(1, Event::Alive) {
            Action::Write(line) => {
                if line == "PAYLOAD_END\n" {
                    break;
                }
                let chunk = line.strip_prefix("PAYLOAD_CHUNK: ").unwrap().strip_suffix('\n').unwrap();
                assert!(chunk.len() <= 1000);
                sent.push_str(chunk);
                lines += 1;
            }
            other => panic!("{:?}", other),
        }
        action = pool.communicate(1, Event::Written);
    }
    assert_eq!(sent, text);
    assert_eq!(lines, 3);
}

#[test]
fn well_formed_pool_is_told_from_a_broken_one() {
    let mut pool = WorkerPoolInner::setup(2);
    assert!(pool.is_wf());
    pool.run_worker("examples/worker".to_string(), "ping".to_string(), EmptyPayload::new());
    pool.get_available_worker();
    assert!(pool.is_wf());

    let mut broken = pool.clone();
    broken.busy_counter = 0;
    assert!(!broken.is_wf());
    let mut broken = pool.clone();
    broken.busy_counter = 2;
    assert!(!broken.is_wf());
    let mut broken = pool.clone();
    broken.max_workers = 1;
    assert!(!broken.is_wf());
    let mut broken = pool.clone();
    broken.workers[1].id = 3;
    assert!(!broken.is_wf());
    let mut broken = pool.clone();
    broken.workers.swap(0, 1);
    assert!(!broken.is_wf());
    let mut broken = pool.clone();
    broken.workers[0].idle = true;
    assert!(!broken.is_wf());
    let mut mended = pool.clone();
    mended.workers[1].idle = true;
    assert!(mended.is_wf());
}
