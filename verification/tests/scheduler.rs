use exokernel::caps::manager::{mint, CapManager};
use exokernel::caps::{CapId, Resource, Rights};
use exokernel::task::scheduler::{
    fuel_exhausted, refuel, timer_tick, FuelGauge, Scheduler, Turn, DEFAULT_FUEL,
};
use exokernel::task::{Task, TaskId, TaskIds, TaskState};
use std::cell::RefCell;

type Log = RefCell<Vec<(&'static str, u64, Vec<CapId>)>>;

fn recorder<'a>(log: &'a Log, name: &'static str) -> impl Fn(u64, &[CapId]) + 'a {
    move |step: u64, caps: &[CapId]| log.borrow_mut().push((name, step, caps.to_vec()))
}

fn calls(log: &Log) -> Vec<(&'static str, u64)> {
    log.borrow().iter().map(|(name, step, _)| (*name, *step)).collect()
}

#[test]
fn scheduler_interleave() {
    let log: Log = RefCell::new(Vec::new());
    let mut sched = Scheduler::new();
    let mut fuel = FuelGauge::new();
    let a = sched.spawn("A", 3, Vec::new(), recorder(&log, "A"));
    let b = sched.spawn("B", 2, Vec::new(), recorder(&log, "B"));
    let trace = sched.run(&mut fuel);
    assert_eq!(calls(&log), vec![("A", 0), ("B", 0), ("A", 1), ("B", 1), ("A", 2)]);
    assert_eq!(
        trace,
        vec![
            Turn { task: a, name: "A", step: Some(0), finished: false },
            Turn { task: b, name: "B", step: Some(0), finished: false },
            Turn { task: a, name: "A", step: Some(1), finished: false },
            Turn { task: b, name: "B", step: Some(1), finished: true },
            Turn { task: a, name: "A", step: Some(2), finished: true },
        ]
    );
    // Both finish, B before A.
    let finished: Vec<&str> = trace.iter().filter(|t| t.finished).map(|t| t.name).collect();
    assert_eq!(finished, vec!["B", "A"]);
    assert_eq!(sched.len(), 0);
}

#[test]
fn round_robin_fairness() {
    let steps: [(&'static str, u64); 4] = [("t0", 4), ("t1", 1), ("t2", 6), ("t3", 3)];
    let log: Log = RefCell::new(Vec::new());
    let mut sched = Scheduler::new();
    let mut fuel = FuelGauge::new();
    for (name, n) in steps {
        sched.spawn(name, n, Vec::new(), recorder(&log, name));
    }
    let trace = sched.run(&mut fuel);
    let total: u64 = steps.iter().map(|(_, n)| *n).sum();
    assert_eq!(trace.len() as u64, total);
    assert_eq!(log.borrow().len() as u64, total);

    // Every task runs its steps in order, once each.
    for (name, n) in steps {
        let own: Vec<u64> =
            calls(&log).iter().filter(|(who, _)| *who == name).map(|(_, s)| *s).collect();
        assert_eq!(own, (0..n).collect::<Vec<u64>>());
    }

    // Between two consecutive steps of a task, every other task that is
    // not finished runs exactly one step.
    let order = calls(&log);
    for i in 0..order.len() {
        let (who, step) = order[i];
        if let Some(j) = (i + 1..order.len()).find(|j| order[*j].0 == who) {
            let between: Vec<&'static str> = order[i + 1..j].iter().map(|(n, _)| *n).collect();
            let expected: Vec<&'static str> = steps
                .iter()
                .filter(|(name, _)| *name != who)
                .filter(|(name, n)| {
                    let done_before =
                        order[..i].iter().filter(|(other, _)| other == name).count() as u64;
                    done_before < *n
                })
                .map(|(name, _)| *name)
                .collect();
            let mut sorted = between.clone();
            sorted.sort();
            let mut want = expected.clone();
            want.sort();
            assert_eq!(sorted, want, "between step {} and the next of {}", step, who);
            assert!(between.len() <= steps.len() - 1);
        }
    }
}

#[test]
fn task_without_steps_takes_one_turn_and_runs_nothing() {
    let log: Log = RefCell::new(Vec::new());
    let mut sched = Scheduler::new();
    let mut fuel = FuelGauge::new();
    let idle = sched.spawn("idle", 0, Vec::new(), recorder(&log, "idle"));
    let busy = sched.spawn("busy", 2, Vec::new(), recorder(&log, "busy"));
    let trace = sched.run(&mut fuel);
    assert_eq!(
        trace,
        vec![
            Turn { task: idle, name: "idle", step: None, finished: true },
            Turn { task: busy, name: "busy", step: Some(0), finished: false },
            Turn { task: busy, name: "busy", step: Some(1), finished: true },
        ]
    );
    assert_eq!(calls(&log), vec![("busy", 0), ("busy", 1)]);
}

#[test]
fn empty_scheduler_runs_nothing_and_leaves_the_fuel() {
    let mut sched: Scheduler<fn(u64, &[CapId])> = Scheduler::new();
    let mut fuel = FuelGauge::with_remaining(5);
    assert_eq!(sched.len(), 0);
    assert!(sched.can_spawn());
    assert_eq!(sched.run(&mut fuel), Vec::new());
    assert_eq!(fuel.remaining(), 5);
}

#[test]
fn run_refuels_on_every_turn() {
    fn nothing(_step: u64, _caps: &[CapId]) {}
    let mut sched: Scheduler<fn(u64, &[CapId])> = Scheduler::new();
    sched.spawn("only", 1, Vec::new(), nothing);
    let mut fuel = FuelGauge::with_remaining(0);
    assert!(fuel_exhausted(&fuel));
    let trace = sched.run(&mut fuel);
    assert_eq!(trace.len(), 1);
    assert_eq!(fuel.remaining(), DEFAULT_FUEL);
    assert!(!fuel_exhausted(&fuel));
}

#[test]
fn tasks_get_their_own_capabilities() {
    let mut mgr = CapManager::new();
    let r = mint(&mut mgr, Resource::Object(0), Rights::read(), false);
    let w = mint(&mut mgr, Resource::Object(0), Rights::write(), false);
    let log: Log = RefCell::new(Vec::new());
    let mut sched = Scheduler::new();
    let mut fuel = FuelGauge::new();
    sched.spawn("reader", 2, vec![r], recorder(&log, "reader"));
    sched.spawn("both", 1, vec![r, w], recorder(&log, "both"));
    sched.spawn("none", 1, Vec::new(), recorder(&log, "none"));
    sched.run(&mut fuel);
    for (name, _, caps) in log.borrow().iter() {
        let expected: Vec<CapId> = match *name {
            "reader" => vec![r],
            "both" => vec![r, w],
            _ => Vec::new(),
        };
        assert_eq!(*caps, expected);
    }
    assert_eq!(log.borrow().len(), 4);
}

#[test]
fn task_identifiers_count_from_zero() {
    fn nothing(_step: u64, _caps: &[CapId]) {}
    let mut sched: Scheduler<fn(u64, &[CapId])> = Scheduler::new();
    let a = sched.spawn("a", 1, Vec::new(), nothing);
    let b = sched.spawn("b", 1, Vec::new(), nothing);
    assert_eq!(a.raw(), 0);
    assert_eq!(b.raw(), 1);
    assert_ne!(a, b);
    assert_eq!(a.to_text(), "Task#0");
    assert_eq!(b.to_text(), "Task#1");
    assert_eq!(sched.len(), 2);
    let mut fuel = FuelGauge::new();
    sched.run(&mut fuel);
    // Identifiers are not handed out again after the queue has emptied.
    let c = sched.spawn("c", 1, Vec::new(), nothing);
    assert_eq!(c.raw(), 2);
}

#[test]
fn new_task_is_ready_at_step_zero() {
    fn nothing(_step: u64, _caps: &[CapId]) {}
    let mut ids = TaskIds::new();
    assert!(ids.can_mint());
    let task = Task::new(&mut ids, "t", 5, nothing, Vec::new());
    assert_eq!(task.id.raw(), 0);
    assert_eq!(task.name, "t");
    assert_eq!(task.state, TaskState::Ready);
    assert_eq!(task.current_step, 0);
    assert_eq!(task.total_steps, 5);
    assert!(task.caps.is_empty());
    // Every task gets an identifier of its own.
    let next = Task::new(&mut ids, "u", 0, nothing, Vec::new());
    assert_eq!(next.id.raw(), 1);
    assert_ne!(next.id, task.id);
    let third: TaskId = TaskId::new(&mut ids);
    assert_eq!(third.raw(), 2);
    assert_eq!(third.to_text(), "Task#2");
}

#[test]
fn new_task_does_not_call_its_step_function() {
    let log: Log = RefCell::new(Vec::new());
    let mut ids = TaskIds::new();
    let task = Task::new(&mut ids, "quiet", 3, recorder(&log, "quiet"), Vec::new());
    assert_eq!(task.current_step, 0);
    assert!(log.borrow().is_empty());
}

#[test]
fn every_turn_refills_the_fuel() {
    let log: Log = RefCell::new(Vec::new());
    let mut sched = Scheduler::new();
    let a = sched.spawn("A", 2, Vec::new(), recorder(&log, "A"));
    let b = sched.spawn("B", 1, Vec::new(), recorder(&log, "B"));
    let mut fuel = FuelGauge::new();
    for _ in 0..DEFAULT_FUEL {
        timer_tick(&mut fuel);
    }
    assert!(fuel_exhausted(&fuel));
    assert_eq!(
        sched.turn(&mut fuel),
        Some(Turn { task: a, name: "A", step: Some(0), finished: false })
    );
    assert_eq!(fuel.remaining(), DEFAULT_FUEL);
    assert_eq!(sched.len(), 2);
    timer_tick(&mut fuel);
    timer_tick(&mut fuel);
    assert_eq!(fuel.remaining(), 16);
    assert_eq!(
        sched.turn(&mut fuel),
        Some(Turn { task: b, name: "B", step: Some(0), finished: true })
    );
    assert_eq!(fuel.remaining(), DEFAULT_FUEL);
    assert_eq!(sched.len(), 1);
    assert_eq!(
        sched.turn(&mut fuel),
        Some(Turn { task: a, name: "A", step: Some(1), finished: true })
    );
    assert_eq!(calls(&log), vec![("A", 0), ("B", 0), ("A", 1)]);
    // With an empty queue a turn does nothing, and leaves the fuel.
    timer_tick(&mut fuel);
    assert_eq!(sched.turn(&mut fuel), None);
    assert_eq!(fuel.remaining(), 17);
    assert_eq!(sched.len(), 0);
}

#[test]
fn fuel_counts_down_to_zero_and_stays() {
    assert_eq!(DEFAULT_FUEL, 18);
    for k in 0u64..40 {
        let mut fuel = FuelGauge::new();
        for _ in 0..k {
            timer_tick(&mut fuel);
        }
        let expected = if k >= DEFAULT_FUEL { 0 } else { DEFAULT_FUEL - k };
        assert_eq!(fuel.remaining(), expected);
        assert_eq!(fuel_exhausted(&fuel), k >= DEFAULT_FUEL);
    }
    let mut fuel = FuelGauge::with_remaining(1);
    timer_tick(&mut fuel);
    assert_eq!(fuel.remaining(), 0);
    timer_tick(&mut fuel);
    assert_eq!(fuel.remaining(), 0);
    refuel(&mut fuel);
    assert_eq!(fuel.remaining(), 18);
}
