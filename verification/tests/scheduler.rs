//! Behaviour of the task layer and the two schedulers.

use rust_os::executor::Executor;
use rust_os::keyboard::{Bridge, PushOutcome, ScancodeStream};
use rust_os::simple_executor::SimpleExecutor;
use rust_os::task::{Computation, Task, TaskIdCounter};
use rust_os::Output;

fn output_numbers(log: &[Output]) -> Vec<u64> {
    log.iter()
        .filter_map(|o| match o {
            Output::Number(n) => Some(*n),
            _ => None,
        })
        .collect()
}

fn output_texts(log: &[Output]) -> Vec<String> {
    log.iter()
        .filter_map(|o| match o {
            Output::Text(s) => Some(s.clone()),
            _ => None,
        })
        .collect()
}

#[test]
fn default_executor_runs_no_tasks() {
    let mut base = SimpleExecutor::default();
    let mut bridge = Bridge::new();
    let mut log: Vec<Output> = Vec::new();
    base.run(&mut bridge, &mut log);
    assert!(log.is_empty());
}

#[test]
fn task_ids_strictly_increase() {
    let mut counter = TaskIdCounter::new();
    let mut ids: Vec<u64> = Vec::new();
    for i in 0..5u64 {
        let t = Task::new(Computation::Emit { yields_remaining: 0, value: i }, &mut counter);
        ids.push(t.id());
    }
    for w in ids.windows(2) {
        assert!(w[0] < w[1]);
    }
    for i in 0..ids.len() {
        for j in 0..ids.len() {
            if i != j {
                assert_ne!(ids[i], ids[j]);
            }
        }
    }
}

#[test]
fn baseline_runs_tasks_round_robin() {
    let mut counter = TaskIdCounter::new();
    let mut bridge = Bridge::new();
    let mut log: Vec<Output> = Vec::new();
    let mut base = SimpleExecutor::new();
    for (y, v) in [(1u64, 1u64), (0, 2), (2, 3)] {
        base.spawn(Task::new(Computation::Emit { yields_remaining: y, value: v }, &mut counter));
    }
    base.run(&mut bridge, &mut log);
    assert_eq!(output_numbers(&log), vec![2, 1, 3]);
}

#[test]
fn baseline_and_full_print_the_same() {
    let specs = [(1u64, 1u64), (0, 2), (2, 3)];

    let mut counter = TaskIdCounter::new();
    let mut bridge = Bridge::new();
    let mut base_log: Vec<Output> = Vec::new();
    let mut base = SimpleExecutor::new();
    for (y, v) in specs {
        base.spawn(Task::new(Computation::Emit { yields_remaining: y, value: v }, &mut counter));
    }
    base.run(&mut bridge, &mut base_log);

    let mut counter2 = TaskIdCounter::new();
    let mut bridge2 = Bridge::new();
    let mut full_log: Vec<Output> = Vec::new();
    let mut full = Executor::new();
    for (y, v) in specs {
        full.spawn(Task::new(Computation::Emit { yields_remaining: y, value: v }, &mut counter2));
    }
    full.run_ready(&mut bridge2, &mut full_log);

    assert_eq!(output_numbers(&base_log), vec![2, 1, 3]);
    assert_eq!(output_numbers(&full_log), output_numbers(&base_log));
    assert_eq!(base_log.len(), full_log.len());
    assert_eq!(full.ready_len(), 0);
    assert_eq!(full.pending_len(), 0);
}

#[test]
fn completed_task_is_never_polled_again() {
    let mut counter = TaskIdCounter::new();
    let mut bridge = Bridge::new();
    let mut log: Vec<Output> = Vec::new();
    let mut ex = Executor::new();
    let task = Task::new(Computation::Emit { yields_remaining: 0, value: 42 }, &mut counter);
    let id = task.id();
    ex.spawn(task);
    ex.run_ready(&mut bridge, &mut log);
    assert_eq!(output_numbers(&log), vec![42]);

    // re-signal the notifier bound to the completed task: no observable effect
    ex.wake_task(id);
    assert_eq!(ex.ready_len(), 0);
    assert_eq!(ex.pending_len(), 0);
    bridge.wake(id);
    ex.run_ready(&mut bridge, &mut log);
    assert_eq!(log.len(), 1);
    assert_eq!(output_numbers(&log), vec![42]);
}

fn spawn_scenario(a_first: bool) -> (Vec<Output>, usize) {
    let mut counter = TaskIdCounter::new();
    let mut bridge = Bridge::new();
    let stream = ScancodeStream::new(&mut bridge).unwrap();
    let mut log: Vec<Output> = Vec::new();
    let mut ex = Executor::new();
    let a = Task::new(Computation::Emit { yields_remaining: 1, value: 42 }, &mut counter);
    let b = Task::new(Computation::consume(stream), &mut counter);
    if a_first {
        ex.spawn(a);
        ex.spawn(b);
    } else {
        ex.spawn(b);
        ex.spawn(a);
    }
    // one scancode arrives before the scheduler starts
    assert_eq!(bridge.add_scancode(0x10), PushOutcome::Delivered);
    ex.run_ready(&mut bridge, &mut log);
    assert_eq!(ex.ready_len(), 0);
    (log, ex.pending_len())
}

#[test]
fn scenario_number_once_and_key_once() {
    let (log, pending) = spawn_scenario(true);
    // the consuming task never completes: it waits for the next scancode
    assert_eq!(pending, 1);
    assert_eq!(output_numbers(&log), vec![42]);
    // scancode 0x10 is the q-position key: the letter a on the AZERTY layout
    assert_eq!(output_texts(&log), vec!["a".to_string()]);
}

#[test]
fn scenario_holds_regardless_of_spawn_order() {
    let (log, pending) = spawn_scenario(false);
    assert_eq!(pending, 1);
    assert_eq!(output_numbers(&log), vec![42]);
    assert_eq!(output_texts(&log), vec!["a".to_string()]);
}

#[test]
fn duplicate_signals_are_idempotent() {
    let mut counter = TaskIdCounter::new();
    let mut bridge = Bridge::new();
    let stream = ScancodeStream::new(&mut bridge).unwrap();
    let mut log: Vec<Output> = Vec::new();
    let mut ex = Executor::new();
    let consumer = Task::new(Computation::consume(stream), &mut counter);
    let id = consumer.id();
    ex.spawn(consumer);
    // the consumer polls an empty queue and parks
    ex.run_ready(&mut bridge, &mut log);
    assert_eq!(ex.pending_len(), 1);
    // two signals before it is re-polled: it is still polled exactly once per
    // ready-queue membership, and parks again
    bridge.wake(id);
    bridge.wake(id);
    ex.run_ready(&mut bridge, &mut log);
    assert_eq!(ex.pending_len(), 1);
    assert_eq!(ex.ready_len(), 0);
    assert!(log.is_empty());
}

#[test]
fn key_release_prints_nothing_and_wakeups_resume_the_consumer() {
    let mut counter = TaskIdCounter::new();
    let mut bridge = Bridge::new();
    let stream = ScancodeStream::new(&mut bridge).unwrap();
    let mut log: Vec<Output> = Vec::new();
    let mut ex = Executor::new();
    ex.spawn(Task::new(Computation::consume(stream), &mut counter));

    // key down then key up: only the key down decodes to text
    assert_eq!(bridge.add_scancode(0x10), PushOutcome::Delivered);
    assert_eq!(bridge.add_scancode(0x90), PushOutcome::Delivered);
    ex.run_ready(&mut bridge, &mut log);
    assert_eq!(output_texts(&log), vec!["a".to_string()]);
    assert_eq!(output_numbers(&log), Vec::<u64>::new());
    assert_eq!(ex.pending_len(), 1);

    // a later scancode signals the parked consumer, which is re-queued and
    // decodes it on the next pass
    assert_eq!(bridge.add_scancode(0x10), PushOutcome::Delivered);
    ex.run_ready(&mut bridge, &mut log);
    assert_eq!(output_texts(&log), vec!["a".to_string(), "a".to_string()]);
    assert_eq!(ex.pending_len(), 1);
}
