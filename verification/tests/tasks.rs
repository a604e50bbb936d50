use sigtrans::basic::{accum, delay, identity, lift};
use sigtrans::event::{never, Event};
use sigtrans::func::Callable;
use sigtrans::task::{
    forever, seq_abunch, sequence, stop_with, task, timeout, AddStop, BasicTask, Outcome, SeqTask,
    TaskOutput, WrapEnd,
};

fn running<B, C>(o: TaskOutput<B, C>) -> Option<B> {
    match o {
        TaskOutput::Running(out) => Some(out),
        TaskOutput::Stopped(_) => None,
    }
}

fn stopped<B, C>(o: TaskOutput<B, C>) -> Option<C> {
    match o {
        TaskOutput::Running(_) => None,
        TaskOutput::Stopped(end) => Some(end),
    }
}

fn at(n: i32, end: char) -> impl Fn(i32) -> Event<char> {
    move |i: i32| if i == n { Event::new(end) } else { Event::NoEvent }
}

#[test]
fn task_runs_until_the_stop_condition_fires() {
    let t = task(lift(|dt: i32, x: i32| x * dt), sigtrans::basic::map(at(3, 'e')));
    let (t, o1) = t.step(2, 1);
    let (t, o2) = t.step(2, 2);
    let (t, o3) = t.step(2, 3);
    assert_eq!(running(o1), Some(2));
    assert_eq!(running(o2), Some(4));
    assert_eq!(stopped(o3), Some('e'));
    assert!(matches!(t.sf, BasicTask::Stopped('e')));
}

#[test]
fn task_does_not_step_run_on_the_tick_it_stops() {
    // the running part counts its steps; the stop fires on the second input
    let t = task(
        accum(0, |_dt: i32, _x: i32, n: i32| n + 1),
        sigtrans::basic::map(|i: i32| if i == 0 { Event::new(()) } else { Event::NoEvent }),
    );
    let (t, o1) = t.step(1, 5);
    assert_eq!(running(o1), Some(1));
    let counted = match &t.sf {
        BasicTask::Running { run, .. } => run.value,
        BasicTask::Stopped(_) => -1,
    };
    assert_eq!(counted, 1);
    let (t, o2) = t.step(1, 0);
    assert_eq!(stopped(o2), Some(()));
    assert!(matches!(t.sf, BasicTask::Stopped(())));
}

#[test]
fn stopped_task_stays_stopped() {
    let t = task(identity::<i32, i32>(), sigtrans::basic::map(at(1, 'x')));
    let (t, o1) = t.step(1, 1);
    assert_eq!(stopped(o1), Some('x'));
    let (t, o2) = t.step(5, 2);
    let (t, o3) = t.step(-5, 1);
    let (t, o4) = t.step(0, 99);
    assert_eq!(stopped(o2), Some('x'));
    assert_eq!(stopped(o3), Some('x'));
    assert_eq!(stopped(o4), Some('x'));
    assert!(matches!(t.sf, BasicTask::Stopped('x')));
}

#[test]
fn forever_never_stops() {
    let t = forever::<i32, i32, char, _>(delay::<i32, i32>(0));
    let (t, o1) = t.step(1, 1);
    let (t, o2) = t.step(1, 2);
    let (t, o3) = t.step(1, 3);
    assert_eq!(running(o1), Some(0));
    assert_eq!(running(o2), Some(1));
    assert_eq!(running(o3), Some(2));
    assert!(matches!(t.sf, BasicTask::Running { .. }));
}

#[test]
fn added_stop_is_asked_before_the_task() {
    // both would stop on input 2: the added condition wins
    let inner = task(identity::<i32, i32>(), sigtrans::basic::map(at(2, 'i')));
    let t = stop_with(inner, sigtrans::basic::map(at(2, 'a')));
    let (t, o1) = t.step(1, 1);
    let (t, o2) = t.step(1, 2);
    assert_eq!(running(o1), Some(1));
    assert_eq!(stopped(o2), Some('a'));
    assert!(matches!(t.sf, AddStop::Stopped('a')));
}

#[test]
fn added_stop_passes_on_the_stop_of_the_task() {
    let inner = task(identity::<i32, i32>(), sigtrans::basic::map(at(2, 'i')));
    let t = stop_with(inner, sigtrans::basic::map(at(5, 'a')));
    let (t, o1) = t.step(1, 1);
    let (t, o2) = t.step(1, 2);
    assert_eq!(running(o1), Some(1));
    assert_eq!(stopped(o2), Some('i'));
    assert!(matches!(t.sf, AddStop::Stopped('i')));
    // stopped for good, also on the input of the added condition
    let (t, o3) = t.step(1, 5);
    let (_, o4) = t.step(1, 1);
    assert_eq!(stopped(o3), Some('i'));
    assert_eq!(stopped(o4), Some('i'));
}

#[test]
fn add_stop_new_is_running() {
    let a: AddStop<char, u8, u16> = AddStop::new(1, 2);
    assert!(matches!(a, AddStop::Running { task: 1, stop: 2 }));
}

#[test]
fn timeout_stops_with_none_when_time_runs_out() {
    let t = timeout(forever::<i32, i32, char, _>(identity::<i32, i32>()), 5);
    let (t, o1) = t.step(2, 10);
    let (t, o2) = t.step(2, 11);
    let (t, o3) = t.step(2, 12);
    let (_, o4) = t.step(2, 13);
    assert_eq!(running(o1), Some(10));
    assert_eq!(running(o2), Some(11));
    assert_eq!(stopped(o3), Some(None));
    assert_eq!(stopped(o4), Some(None));
}

#[test]
fn timeout_stops_with_some_when_the_task_stops_first() {
    let inner = task(identity::<i32, i32>(), sigtrans::basic::map(at(11, 'e')));
    let t = timeout(inner, 50);
    let (t, o1) = t.step(2, 10);
    let (t, o2) = t.step(2, 11);
    let (_, o3) = t.step(100, 12);
    assert_eq!(running(o1), Some(10));
    assert_eq!(stopped(o2), Some(Some('e')));
    assert_eq!(stopped(o3), Some(Some('e')));
}

#[test]
fn wrap_end_marks_the_end_value() {
    let o = Callable::call(&WrapEnd, (0i32, TaskOutput::<u8, char>::Stopped('e')));
    assert_eq!(stopped(o), Some(Some('e')));
    let o = Callable::call(&WrapEnd, (0i32, TaskOutput::<u8, char>::Running(3)));
    assert_eq!(running(o), Some(3));
}

#[test]
fn outcome_of_a_task_output_is_itself() {
    assert_eq!(running(TaskOutput::<u8, char>::Running(3).into_outcome()), Some(3));
    assert_eq!(stopped(TaskOutput::<u8, char>::Stopped('e').into_outcome()), Some('e'));
}

#[test]
fn sequence_hands_over_on_the_same_tick() {
    // first stops on its third step; second is identity, running for ever
    let first = task(identity::<i32, i32>(), sigtrans::basic::map(at(3, 'E')));
    let second = forever::<i32, i32, (), _>(identity::<i32, i32>());
    let s = sequence(first, second);
    let (s, o1) = s.step(1, 1);
    let (s, o2) = s.step(1, 2);
    let (s, o3) = s.step(1, 3);
    let (_, o4) = s.step(1, 4);
    assert_eq!(running(o1), Some(1));
    assert_eq!(running(o2), Some(2));
    assert_eq!(running(o3), Some(3));
    assert_eq!(running(o4), Some(4));
}

#[test]
fn sequence_outcomes_second_from_the_handoff_on() {
    // second doubles its input, so its outputs can be told from those of first
    let first = task(identity::<i32, i32>(), sigtrans::basic::map(at(3, 'E')));
    let second = task(lift(|_dt: i32, x: i32| x * 2), sigtrans::basic::map(at(5, 'F')));
    let s = sequence(first, second);
    let (s, o1) = s.step(1, 1);
    let (s, o2) = s.step(1, 2);
    let (s, o3) = s.step(1, 3);
    let (s, o4) = s.step(1, 4);
    let (s, o5) = s.step(1, 5);
    let (_, o6) = s.step(1, 6);
    assert_eq!(running(o1), Some(1));
    assert_eq!(running(o2), Some(2));
    assert_eq!(running(o3), Some(6));
    assert_eq!(running(o4), Some(8));
    assert_eq!(stopped(o5), Some('F'));
    assert_eq!(stopped(o6), Some('F'));
}

#[test]
fn sequence_leaves_second_alone_while_first_runs() {
    let first = task(identity::<i32, i32>(), sigtrans::basic::map(at(3, 'E')));
    let second = forever::<i32, i32, (), _>(delay::<i32, i32>(-1));
    let s = sequence(first, second);
    let (s, _) = s.step(1, 1);
    let (s, _) = s.step(1, 2);
    let held = match &s.sf.second {
        BasicTask::Running { run, .. } => run.held,
        BasicTask::Stopped(_) => 0,
    };
    assert_eq!(held, -1);
    let (_, o3) = s.step(1, 3);
    assert_eq!(running(o3), Some(-1));
    let raw = SeqTask::new(1u8, 2u16);
    assert_eq!((raw.first, raw.second), (1, 2));
}

#[test]
fn task_clone_branches_into_independent_futures() {
    let t = task(delay::<i32, i32>(0), never::<i32, i32, char>());
    let (t, _) = t.step(1, 5);
    let branch = t.clone();
    let (_, a) = t.step(1, 6);
    let (branch, b1) = branch.step(1, 7);
    let (_, b2) = branch.step(1, 8);
    assert_eq!(running(a), Some(5));
    assert_eq!(running(b1), Some(5));
    assert_eq!(running(b2), Some(7));
}

#[test]
fn seq_abunch_builds_its_chain() {
    seq_abunch();
}
