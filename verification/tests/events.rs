use sigtrans::event::{after, edge, edge_init, fold, hold, never, After, Edge, Event, Hold, Never};
use sigtrans::sf::SignalTrans;

fn payload<T>(ev: Event<T>) -> Option<T> {
    match ev {
        Event::Event(value) => Some(value),
        Event::NoEvent => None,
    }
}

#[test]
fn event_new_is_present() {
    assert_eq!(payload(Event::new(5)), Some(5));
}

#[test]
fn event_default_is_absent() {
    assert_eq!(payload(Event::<i32>::default()), None);
}

#[test]
fn event_map_applies_to_payload() {
    assert_eq!(payload(Event::new(5).map(|x: i32| x * 2)), Some(10));
    assert_eq!(payload(Event::<i32>::NoEvent.map(|x: i32| x * 2)), None);
}

#[test]
fn event_filter_keeps_or_drops() {
    assert_eq!(payload(Event::new(5).filter(|x: &i32| *x > 3)), Some(5));
    assert_eq!(payload(Event::new(2).filter(|x: &i32| *x > 3)), None);
    assert_eq!(payload(Event::<i32>::NoEvent.filter(|x: &i32| *x > 3)), None);
}

#[test]
fn event_replace_swaps_payload() {
    assert_eq!(payload(Event::new(5).replace("five")), Some("five"));
    assert_eq!(payload(Event::<i32>::NoEvent.replace("five")), None);
}

#[test]
fn event_split_splits_pairs() {
    let (a, b) = Event::new((1, 'x')).split();
    assert_eq!(payload(a), Some(1));
    assert_eq!(payload(b), Some('x'));
    let (a, b) = Event::<(i32, char)>::NoEvent.split();
    assert_eq!(payload(a), None);
    assert_eq!(payload(b), None);
}

#[test]
fn event_clone_keeps_payload() {
    let ev = Event::new(String::from("tick"));
    assert_eq!(payload(ev.clone()), Some(String::from("tick")));
    assert_eq!(payload(Event::<String>::NoEvent.clone()), None);
}

#[test]
fn after_fires_once_when_time_runs_out() {
    // duration 5 fed deltas 2, 2, 2: absent, absent, present
    let timer = after::<i32, (), char>(5, 'v');
    let (timer, o1) = timer.step(2, ());
    let (timer, o2) = timer.step(2, ());
    let (timer, o3) = timer.step(2, ());
    assert_eq!(payload(o1), None);
    assert_eq!(payload(o2), None);
    assert_eq!(payload(o3), Some('v'));
    assert!(matches!(timer.sf, After::Past));
    // spent from then on, whatever the delta
    let (timer, o4) = timer.step(100, ());
    let (timer, o5) = timer.step(-100, ());
    let (timer, o6) = timer.step(0, ());
    assert_eq!(payload(o4), None);
    assert_eq!(payload(o5), None);
    assert_eq!(payload(o6), None);
    assert!(matches!(timer.sf, After::Past));
}

#[test]
fn after_fires_when_exactly_zero_remains() {
    let timer = after::<i64, (), u8>(4, 1);
    let (timer, o1) = timer.step(3, ());
    assert_eq!(payload(o1), None);
    assert!(matches!(timer.sf, After::NotYet { time: 1, value: 1, .. }));
    let (_, o2) = timer.step(1, ());
    assert_eq!(payload(o2), Some(1));
}

#[test]
fn after_subtracts_negative_deltas_like_any_other() {
    let timer = after::<i32, (), u8>(2, 9);
    let (timer, o1) = timer.step(-3, ());
    assert_eq!(payload(o1), None);
    assert!(matches!(timer.sf, After::NotYet { time: 5, value: 9, .. }));
    let (_, o2) = timer.step(6, ());
    assert_eq!(payload(o2), Some(9));
}

#[test]
fn after_default_starts_at_zero() {
    let timer: After<i32, (), u8> = After::default();
    assert!(matches!(timer, After::NotYet { time: 0, value: 0, .. }));
    // nothing remains after any delta that is not negative
    let (_, o) = SignalTrans::<i32>::step(timer, 0, ());
    assert_eq!(payload(o), Some(0));
}

#[test]
fn after_new_is_pending() {
    let timer: After<i64, (), char> = After::new(7, 'x');
    assert!(matches!(timer, After::NotYet { time: 7, value: 'x', .. }));
}

#[test]
fn edge_detects_rising_samples() {
    // false, true, true, false, true: absent, present, absent, absent, present
    let e = edge::<i32>();
    let (e, o1) = e.step(1, false);
    let (e, o2) = e.step(1, true);
    let (e, o3) = e.step(1, true);
    let (e, o4) = e.step(1, false);
    let (e, o5) = e.step(1, true);
    assert_eq!(payload(o1), None);
    assert_eq!(payload(o2), Some(()));
    assert_eq!(payload(o3), None);
    assert_eq!(payload(o4), None);
    assert_eq!(payload(o5), Some(()));
    assert!(e.sf.last);
}

#[test]
fn edge_init_seeds_the_last_sample() {
    let (_, o) = edge_init::<i32>(true).step(1, true);
    assert_eq!(payload(o), None);
    let (_, o) = edge_init::<i32>(false).step(1, true);
    assert_eq!(payload(o), Some(()));
    assert!(!Edge::default().last);
    assert!(Edge::new(true).last);
}

#[test]
fn hold_keeps_the_last_payload() {
    let h = hold::<i32, i32>(1);
    let (h, o1) = h.step(1, Event::NoEvent);
    let (h, o2) = h.step(1, Event::new(5));
    let (h, o3) = h.step(1, Event::NoEvent);
    let (h, o4) = h.step(1, Event::new(6));
    assert_eq!((o1, o2, o3, o4), (1, 5, 5, 6));
    assert_eq!(h.sf.held, 6);
    assert_eq!(Hold::new(3).held, 3);
}

#[test]
fn never_is_always_absent() {
    let n = never::<i32, u8, char>();
    let (n, o1) = n.step(1, 0);
    let (_, o2) = n.step(5, 200);
    assert_eq!(payload(o1), None);
    assert_eq!(payload(o2), None);
    let d: Never<u8, char> = Never::default();
    let (_, o3) = SignalTrans::<i32>::step(d, 1, 0);
    assert_eq!(payload(o3), None);
}

#[test]
fn fold_updates_only_on_present_occurrences() {
    // present payloads 1, 2, 3 with absent ones between: the left fold
    let f = fold::<i32, i32, Vec<i32>, _>(vec![], |x: i32, mut acc: Vec<i32>| {
        acc.push(x);
        acc
    });
    let (f, o1) = f.step(1, Event::NoEvent);
    let (f, o2) = f.step(1, Event::new(1));
    let (f, o3) = f.step(1, Event::NoEvent);
    let (f, o4) = f.step(1, Event::NoEvent);
    let (f, o5) = f.step(1, Event::new(2));
    let (f, o6) = f.step(1, Event::new(3));
    let (f, o7) = f.step(1, Event::NoEvent);
    assert_eq!(o1, Vec::<i32>::new());
    assert_eq!(o2, vec![1]);
    assert_eq!(o3, vec![1]);
    assert_eq!(o4, vec![1]);
    assert_eq!(o5, vec![1, 2]);
    assert_eq!(o6, vec![1, 2, 3]);
    assert_eq!(o7, vec![1, 2, 3]);
    assert_eq!(f.sf.value, vec![1, 2, 3]);
}

#[test]
fn fold_is_independent_of_absent_inputs() {
    let dense = fold::<i32, i32, i32, _>(100, |x: i32, acc: i32| acc * 2 - x);
    let (dense, _) = dense.step(1, Event::new(3));
    let (dense, _) = dense.step(1, Event::new(4));
    let sparse = fold::<i32, i32, i32, _>(100, |x: i32, acc: i32| acc * 2 - x);
    let (sparse, _) = sparse.step(1, Event::NoEvent);
    let (sparse, _) = sparse.step(1, Event::new(3));
    let (sparse, _) = sparse.step(1, Event::NoEvent);
    let (sparse, _) = sparse.step(1, Event::new(4));
    let (sparse, _) = sparse.step(1, Event::NoEvent);
    // (100 * 2 - 3) * 2 - 4
    assert_eq!(dense.sf.value, 390);
    assert_eq!(sparse.sf.value, 390);
}
