use axkernel::sjf::{SJFScheduler, SJFTask};
use core::cmp::Ordering;

type Task = SJFTask<&'static str, 1, 1>;

#[test]
fn new_task_starts_clean() {
    let t = Task::new("a", 7);
    assert_eq!(t.get_expect_runtime(), 0);
    assert_eq!(*t.inner(), "a");
    assert_eq!(*t, "a");
}

#[test]
fn moving_average_update() {
    // alpha = 1 / 2^1: the new expectation is halfway to the sample.
    let mut t = Task::new("a", 0);
    t.sched_timer(100);
    t.update_expect_runtime(180);
    assert_eq!(t.get_expect_runtime(), 40);
    t.sched_timer(200);
    t.update_expect_runtime(220);
    assert_eq!(t.get_expect_runtime(), 30);
    // A shorter run pulls the estimate down, rounding towards negative infinity.
    t.sched_timer(300);
    t.update_expect_runtime(301);
    assert_eq!(t.get_expect_runtime(), 15);
}

#[test]
fn moving_average_weights() {
    let mut keep = SJFTask::<u8, 0, 3>::new(0, 0);
    keep.sched_timer(10);
    keep.update_expect_runtime(1000);
    assert_eq!(keep.get_expect_runtime(), 0);
    let mut follow = SJFTask::<u8, 8, 3>::new(0, 0);
    follow.sched_timer(10);
    follow.update_expect_runtime(1000);
    assert_eq!(follow.get_expect_runtime(), 990);
    let mut quarter = SJFTask::<u8, 1, 2>::new(0, 0);
    quarter.sched_timer(0);
    quarter.update_expect_runtime(100);
    assert_eq!(quarter.get_expect_runtime(), 25);
}

#[test]
fn comparison_by_runtime_then_id() {
    let mut a = Task::new("a", 0);
    let mut b = Task::new("b", 0);
    a.set_id(1);
    b.set_id(2);
    assert_eq!(a.cmp(&b), Ordering::Less);
    assert_eq!(b.cmp(&a), Ordering::Greater);
    assert_eq!(a.cmp(&a), Ordering::Equal);
    assert_eq!(a.partial_cmp(&b), Some(Ordering::Less));
    assert!(a < b);
    // Equality looks at the expected run time only.
    assert!(a == b);
    b.sched_timer(0);
    b.update_expect_runtime(10);
    assert_eq!(b.get_expect_runtime(), 5);
    assert!(a != b);
    assert_eq!(b.cmp(&a), Ordering::Greater);
    assert_eq!(b.partial_cmp(&a), Some(Ordering::Greater));
}

#[test]
fn empty_scheduler_has_nothing() {
    let mut s = SJFScheduler::<&'static str, 1, 1>::new();
    s.init();
    assert!(s.pick_next_task(5).is_none());
}

#[test]
fn picks_in_arrival_order_when_equal() {
    let mut s = SJFScheduler::<&'static str, 1, 1>::new();
    s.add_task(Task::new("a", 0));
    s.add_task(Task::new("b", 0));
    s.add_task(Task::new("c", 0));
    assert_eq!(*s.pick_next_task(0).unwrap().inner(), "a");
    assert_eq!(*s.pick_next_task(0).unwrap().inner(), "b");
    assert_eq!(*s.pick_next_task(0).unwrap().inner(), "c");
    assert!(s.pick_next_task(0).is_none());
}

#[test]
fn shortest_expected_job_runs_first() {
    let mut s = SJFScheduler::<&'static str, 1, 1>::new();
    s.add_task(Task::new("long", 0));
    s.add_task(Task::new("short", 0));
    // "long" runs for 100 ticks: its estimate becomes 50.
    let long = s.pick_next_task(0).unwrap();
    assert_eq!(*long.inner(), "long");
    s.put_prev_task(long, false, 100);
    // "short" (estimate 0) now goes before "long" (estimate 50).
    let short = s.pick_next_task(100).unwrap();
    assert_eq!(*short.inner(), "short");
    s.put_prev_task(short, false, 102);
    // "short" ran 2 ticks: estimate 1, still ahead of "long".
    let next = s.pick_next_task(102).unwrap();
    assert_eq!(*next.inner(), "short");
    assert_eq!(next.get_expect_runtime(), 1);
    let last = s.pick_next_task(103).unwrap();
    assert_eq!(*last.inner(), "long");
    assert_eq!(last.get_expect_runtime(), 50);
}

#[test]
fn remove_task_by_key() {
    let mut s = SJFScheduler::<&'static str, 1, 1>::new();
    s.add_task(Task::new("a", 0));
    s.add_task(Task::new("b", 0));
    let mut probe = Task::new("probe", 0);
    probe.set_id(1);
    let removed = s.remove_task(&probe).unwrap();
    assert_eq!(*removed.inner(), "b");
    assert!(s.remove_task(&probe).is_none());
    let mut missing = Task::new("missing", 0);
    missing.set_id(7);
    assert!(s.remove_task(&missing).is_none());
    assert_eq!(*s.pick_next_task(0).unwrap().inner(), "a");
    assert!(s.pick_next_task(0).is_none());
}

#[test]
fn duplicate_key_keeps_the_queued_task() {
    let mut s = SJFScheduler::<&'static str, 1, 1>::new();
    s.add_task(Task::new("a", 0));
    let first = s.pick_next_task(0).unwrap();
    s.put_prev_task(first, false, 0);
    // A second task with the same key (expectation 0, id 0) is dropped.
    let mut twin = Task::new("twin", 0);
    twin.sched_timer(0);
    s.put_prev_task(twin, true, 0);
    assert_eq!(*s.pick_next_task(1).unwrap().inner(), "a");
    assert!(s.pick_next_task(1).is_none());
}

#[test]
fn task_tick_never_preempts() {
    let mut s = SJFScheduler::<&'static str, 1, 1>::new();
    let t = Task::new("a", 0);
    assert!(!s.task_tick(&t));
}

#[test]
fn added_tasks_get_ids_in_call_order() {
    let mut s = SJFScheduler::<&'static str, 1, 1>::new();
    for name in ["a", "b", "c", "d"] {
        s.add_task(Task::new(name, 0));
    }
    // Ids 0, 1, 2, 3 are all distinct: removing by each key finds each task.
    for (id, name) in [(2, "c"), (0, "a"), (3, "d"), (1, "b")] {
        let mut probe = Task::new("probe", 0);
        probe.set_id(id);
        assert_eq!(*s.remove_task(&probe).unwrap().inner(), name);
    }
    assert!(s.pick_next_task(0).is_none());
}

#[test]
fn added_task_joins_the_queue_under_the_next_id() {
    let mut s = SJFScheduler::<&'static str, 1, 1>::new();
    s.add_task(Task::new("a", 0));
    // A task already carrying id 1 is queued through `put_prev_task`.
    let mut early = Task::new("early", 0);
    early.set_id(1);
    s.put_prev_task(early, false, 0);
    // The next addition still gets id 1, whose key is taken: it is dropped.
    s.add_task(Task::new("b", 0));
    assert_eq!(*s.pick_next_task(0).unwrap().inner(), "a");
    assert_eq!(*s.pick_next_task(0).unwrap().inner(), "early");
    assert!(s.pick_next_task(0).is_none());
}
