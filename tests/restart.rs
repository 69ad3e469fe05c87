use std::cell::Cell;
use std::rc::Rc;

use ppio::{Defer, DeferFuture, Latest, StateCheck, Step, Undefer, UndeferFuture};

/// A task whose execution is a snapshot of the state it was built from.
struct Snapshot {
    state: u32,
    builds: Rc<Cell<u32>>,
}

impl Defer for Snapshot {
    type Future = u32;

    fn built(&self) -> u32 {
        self.state
    }

    fn into_fut(&self) -> u32 {
        self.builds.set(self.builds.get() + 1);
        self.state
    }
}

impl Undefer for Snapshot {
    type State = u32;

    fn merged(self, state: u32) -> Self {
        Snapshot { state, ..self }
    }

    fn update(&mut self, state: u32) {
        self.state = state;
    }
}

/// A task that adds every update to its state instead of replacing it.
struct Sum(u32);

impl Defer for Sum {
    type Future = u32;

    fn built(&self) -> u32 {
        self.0
    }

    fn into_fut(&self) -> u32 {
        self.0
    }
}

impl Undefer for Sum {
    type State = u32;

    fn merged(self, state: u32) -> Self {
        Sum(self.0 + state)
    }

    fn update(&mut self, state: u32) {
        self.0 += state;
    }
}

fn snapshot(state: u32) -> (Snapshot, Rc<Cell<u32>>) {
    let builds = Rc::new(Cell::new(0));
    (Snapshot { state, builds: builds.clone() }, builds)
}

#[test]
fn deferred_task_builds_nothing_until_driven() {
    let (task, builds) = snapshot(4);
    let mut d = DeferFuture::new(task);
    assert!(!d.started());
    assert_eq!(builds.get(), 0);
    assert_eq!(*d.drive(), 4);
    assert!(d.started());
    assert_eq!(*d.drive(), 4);
    assert_eq!(builds.get(), 1);
}

#[test]
fn undeferred_task_starts_lazily() {
    let (task, builds) = snapshot(1);
    let mut u = UndeferFuture::new(task);
    assert_eq!(builds.get(), 0);
    assert!(u.state_open());
    assert!(!u.in_flight());
    assert_eq!(u.on_check(StateCheck::Empty), Step::Start);
    assert!(u.in_flight());
    assert_eq!(*u.execution_mut(), 1);
    assert_eq!(u.on_check(StateCheck::Empty), Step::Poll);
    assert_eq!(builds.get(), 1);
}

#[test]
fn superseded_state_is_never_started() {
    let (task, builds) = snapshot(0);
    let mut u = UndeferFuture::new(task);
    assert_eq!(u.on_check(StateCheck::Empty), Step::Start);
    // Two updates arrive while the body runs, with no restart between them.
    assert_eq!(u.on_check(StateCheck::Ready(10)), Step::Restart);
    assert!(!u.in_flight());
    assert_eq!(u.on_check(StateCheck::Ready(20)), Step::Restart);
    assert_eq!(u.on_check(StateCheck::Empty), Step::Start);
    assert_eq!(*u.execution_mut(), 20);
    // Built once at the start and once after the updates: never with 10.
    assert_eq!(builds.get(), 2);
}

#[test]
fn merge_policy_is_the_tasks_own() {
    let mut u = UndeferFuture::new(Sum(1));
    assert_eq!(u.on_check(StateCheck::Ready(2)), Step::Restart);
    assert_eq!(u.on_check(StateCheck::Ready(3)), Step::Restart);
    assert_eq!(u.on_check(StateCheck::Empty), Step::Start);
    assert_eq!(*u.execution_mut(), 6);
    assert_eq!(u.defer().0, 6);
}

#[test]
fn closed_state_channel_keeps_the_last_state() {
    let (task, _) = snapshot(5);
    let mut u = UndeferFuture::new(task);
    assert_eq!(u.on_check(StateCheck::Ready(8)), Step::Restart);
    assert_eq!(u.on_check(StateCheck::Closed), Step::Start);
    assert!(!u.state_open());
    assert_eq!(*u.execution_mut(), 8);
    assert_eq!(u.on_check(StateCheck::Empty), Step::Poll);
}

#[test]
fn check_reads_the_state_channel_first() {
    let (tx, rx) = async_channel::unbounded::<u32>();
    let (task, _) = snapshot(0);
    let mut u = UndeferFuture::new(task);
    assert_eq!(u.check(&rx), Step::Start);
    tx.try_send(3).unwrap();
    assert_eq!(u.check(&rx), Step::Restart);
    assert_eq!(u.check(&rx), Step::Start);
    assert_eq!(*u.execution_mut(), 3);
    drop(tx);
    assert_eq!(u.check(&rx), Step::Poll);
    assert!(!u.state_open());
    assert_eq!(u.check(&rx), Step::Poll);
}

/// A counter whose count lives in the task and survives restarts; its
/// execution emits the next value on each tick.
struct Counter {
    count: Rc<Cell<u64>>,
    tick_ms: u64,
}

struct Ticking {
    count: Rc<Cell<u64>>,
    tick_ms: u64,
}

impl Ticking {
    fn tick(&mut self) -> u64 {
        let v = self.count.get();
        self.count.set(v + 1);
        v
    }
}

impl Defer for Counter {
    type Future = Ticking;

    fn built(&self) -> Ticking {
        Ticking { count: self.count.clone(), tick_ms: self.tick_ms }
    }

    fn into_fut(&self) -> Ticking {
        Ticking { count: self.count.clone(), tick_ms: self.tick_ms }
    }
}

impl Undefer for Counter {
    type State = u64;

    fn merged(self, tick_ms: u64) -> Self {
        Counter { tick_ms, ..self }
    }

    fn update(&mut self, tick_ms: u64) {
        self.tick_ms = tick_ms;
    }
}

#[test]
fn counter_continues_across_reconfiguration() {
    let mut u = UndeferFuture::new(Counter { count: Rc::new(Cell::new(0)), tick_ms: 500 });
    let mut seen = Vec::new();
    let mut pushed = false;
    while seen.len() < 12 {
        let check = if !pushed && seen.last() == Some(&5) {
            pushed = true;
            StateCheck::Ready(100)
        } else {
            StateCheck::Empty
        };
        match u.on_check(check) {
            Step::Restart => continue,
            Step::Start | Step::Poll => {
                let exec = u.execution_mut();
                seen.push(exec.tick());
            }
        }
    }
    assert!(pushed);
    assert_eq!(seen, (0..12).collect::<Vec<u64>>());
    assert_eq!(u.execution_mut().tick_ms, 100);
}

#[test]
fn latest_replaces_the_state() {
    let mut u = UndeferFuture::new(Latest::<u8>::new());
    assert_eq!(u.on_check(StateCheck::Empty), Step::Start);
    assert_eq!(*u.execution_mut(), None);
    assert_eq!(u.on_check(StateCheck::Ready(1)), Step::Restart);
    assert_eq!(u.on_check(StateCheck::Ready(2)), Step::Restart);
    assert_eq!(u.on_check(StateCheck::Empty), Step::Start);
    assert_eq!(*u.execution_mut(), Some(2));
    assert_eq!(u.defer().get(), Some(&2));
}
