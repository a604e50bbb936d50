use sigtrans::basic::{
    accum, accum_default, compose, constant, delay, delay_default, fanout, identity, lift, lift2,
    lift3, lift4, map2, map3, map4, split, Accum, Compose, Const, Delay, Identity, Lift, LocalTime,
    Split,
};
use sigtrans::func::Callable;
use sigtrans::sf::{SignalTrans, SF};

#[test]
fn identity_returns_its_input() {
    let id = identity::<i32, &str>();
    let (id, o1) = id.step(1, "a");
    let (_, o2) = id.step(7, "b");
    assert_eq!((o1, o2), ("a", "b"));
    let (_, o3) = SignalTrans::<i32>::step(Identity::new(), 1, 5u8);
    assert_eq!(o3, 5);
    let (_, o4) = SignalTrans::<i32>::step(Identity::default(), 1, 6u8);
    assert_eq!(o4, 6);
}

#[test]
fn constant_ignores_delta_and_input() {
    let c = constant::<i32, u8, String>(String::from("k"));
    let (c, o1) = c.step(1, 0);
    let (c, o2) = c.step(-5, 255);
    assert_eq!(o1, "k");
    assert_eq!(o2, "k");
    assert_eq!(c.sf.value, "k");
}

#[test]
fn const_default_and_from() {
    let c: Const<u8, i32> = Const::default();
    assert_eq!(c.value, 0);
    let c: Const<u8, i32> = Const::from(9);
    let (_, o) = SignalTrans::<i64>::step(c, 1, 0);
    assert_eq!(o, 9);
}

#[test]
fn local_time_default_and_clone() {
    let t: LocalTime<i32> = LocalTime::default();
    assert_eq!(t.time, 0);
    let u = LocalTime { time: 4i64 };
    assert_eq!(u.clone().time, 4);
}

#[test]
fn lift_applies_function_of_delta_and_input() {
    let l = lift(|dt: i32, x: i32| x * dt);
    let (l, o1) = l.step(2, 10);
    let (_, o2) = l.step(3, 10);
    assert_eq!((o1, o2), (20, 30));
}

#[test]
fn map_applies_function_of_input_alone() {
    let m = sigtrans::basic::map(|x: i32| x + 1);
    let (m, o1) = m.step(100, 1);
    let (_, o2) = m.step(-100, 2);
    assert_eq!((o1, o2), (2, 3));
}

#[test]
fn lift_from_a_function_object() {
    let l: Lift<i32, i32, i32, _> = Lift::from(|dt: i32, x: i32| x - dt);
    let (l, o) = SignalTrans::<i32>::step(l, 1, 5);
    assert_eq!(o, 4);
    let copy = l.clone();
    let (_, o) = SignalTrans::<i32>::step(copy, 2, 5);
    assert_eq!(o, 3);
    let (_, o) = SignalTrans::<i32>::step(l, 3, 5);
    assert_eq!(o, 2);
}

#[test]
fn lifts_of_several_arguments_spread_tuples() {
    let (_, o) = lift2(|dt: i32, a: i32, b: i32| dt + a * b).step(1, (2, 3));
    assert_eq!(o, 7);
    let (_, o) = map2(|a: i32, b: i32| a - b).step(1, (2, 3));
    assert_eq!(o, -1);
    let (_, o) = lift3(|dt: i32, a: i32, b: i32, c: i32| dt + a * b + c).step(1, (2, 3, 4));
    assert_eq!(o, 11);
    let (_, o) = map3(|a: i32, b: i32, c: i32| a * 100 + b * 10 + c).step(1, (2, 3, 4));
    assert_eq!(o, 234);
    let (_, o) =
        lift4(|dt: i32, a: i32, b: i32, c: i32, d: i32| dt + a + b + c + d).step(1, (2, 3, 4, 5));
    assert_eq!(o, 15);
    let (_, o) =
        map4(|a: i32, b: i32, c: i32, d: i32| a * 1000 + b * 100 + c * 10 + d).step(1, (2, 3, 4, 5));
    assert_eq!(o, 2345);
}

#[test]
fn callable_closures_call_through() {
    let f = |dt: i32, x: i32| dt * x;
    assert_eq!(Callable::call(&f, (3, 4)), 12);
    let g = |dt: i32, x: i32, acc: i32| dt * x + acc;
    assert_eq!(Callable::call(&g, (3, 4, 5)), 17);
}

#[test]
fn compose_feeds_left_into_right_with_the_same_delta() {
    let c = compose(lift(|dt: i32, x: i32| x + dt), lift(|dt: i32, x: i32| x * dt));
    let (c, o1) = c.step(2, 1);
    let (_, o2) = c.step(3, 1);
    // (1 + 2) * 2 and (1 + 3) * 3
    assert_eq!((o1, o2), (6, 12));
    let raw = Compose::new(Delay::new(1), Delay::new(2));
    assert_eq!((raw.left.held, raw.right.held), (1, 2));
}

#[test]
fn compose_threads_both_states() {
    let c = compose(delay::<i32, i32>(7), delay::<i32, i32>(8));
    let (c, o1) = c.step(1, 1);
    let (c, o2) = c.step(1, 2);
    let (c, o3) = c.step(1, 3);
    assert_eq!((o1, o2, o3), (8, 7, 1));
    assert_eq!((c.sf.left.held, c.sf.right.held), (3, 2));
}

#[test]
fn split_routes_the_halves_of_a_pair() {
    let s = split(delay::<i32, i32>(0), lift(|dt: i32, x: &str| x.len() as i32 + dt));
    let (s, o1) = s.step(1, (5, "ab"));
    let (_, o2) = s.step(2, (6, "abc"));
    assert_eq!(o1, (0, 3));
    assert_eq!(o2, (5, 5));
    let raw = Split::new(1u8, 2u16);
    assert_eq!((raw.first, raw.second), (1, 2));
}

#[test]
fn fanout_feeds_one_input_to_both() {
    let f = fanout(delay::<i32, i32>(7), identity::<i32, i32>());
    let (f, o1) = f.step(1, 1);
    let (_, o2) = f.step(1, 2);
    assert_eq!(o1, (7, 1));
    assert_eq!(o2, (1, 2));
}

#[test]
fn accum_returns_and_keeps_the_new_accumulator() {
    let a = accum(10, |dt: i32, x: i32, acc: i32| acc + x * dt);
    let (a, o1) = a.step(1, 5);
    assert_eq!(o1, 15);
    assert_eq!(a.sf.value, 15);
    let (a, o2) = a.step(2, 5);
    assert_eq!(o2, 25);
    let (a, o3) = a.step(0, 100);
    assert_eq!(o3, 25);
    assert_eq!(a.sf.value, 25);
}

#[test]
fn accum_default_starts_from_the_default() {
    let a = accum_default(|_dt: i32, x: &str, mut acc: String| {
        acc.push_str(x);
        acc
    });
    let (a, o1) = a.step(1, "ab");
    let (_, o2) = a.step(1, "c");
    assert_eq!(o1, "ab");
    assert_eq!(o2, "abc");
}

#[test]
fn accum_new_and_clone_branch_into_independent_futures() {
    let a: Accum<i32, i32, i32, _> = Accum::new(1, |_dt: i32, x: i32, acc: i32| acc * x);
    let b = a.clone();
    let (a, oa) = SignalTrans::<i32>::step(a, 1, 2);
    let (_, oa2) = SignalTrans::<i32>::step(a, 1, 5);
    let (_, ob) = SignalTrans::<i32>::step(b, 1, 3);
    assert_eq!((oa, oa2, ob), (2, 10, 3));
}

#[test]
fn delay_lags_by_exactly_one_step() {
    let d = delay::<i32, char>('s');
    let (d, o1) = d.step(1, 'a');
    let (d, o2) = d.step(1, 'b');
    let (d, o3) = d.step(1, 'c');
    let (d, o4) = d.step(1, 'd');
    assert_eq!((o1, o2, o3, o4), ('s', 'a', 'b', 'c'));
    assert_eq!(d.sf.held, 'd');
}

#[test]
fn delay_default_holds_the_default() {
    let d = delay_default::<i32, u8>();
    let (_, o) = d.step(1, 9);
    assert_eq!(o, 0);
    let d: Delay<String> = Delay::default();
    assert_eq!(d.held, "");
}

#[test]
fn sf_wraps_and_unwraps() {
    let sf: SF<i32, Delay<u8>> = SF::from(Delay::new(3));
    let copy = sf.clone();
    assert_eq!(copy.into_inner().held, 3);
    let (next, o) = sf.step(1, 4);
    assert_eq!(o, 3);
    assert_eq!(next.into_inner().held, 4);
}

#[test]
fn compose_with_identity_on_the_left_changes_nothing() {
    let plain = delay::<i32, i32>(0);
    let left = compose(identity::<i32, i32>(), delay::<i32, i32>(0));
    let (plain, p1) = plain.step(1, 10);
    let (plain, p2) = plain.step(2, 20);
    let (_, p3) = plain.step(3, 30);
    let (left, l1) = left.step(1, 10);
    let (left, l2) = left.step(2, 20);
    let (_, l3) = left.step(3, 30);
    assert_eq!((p1, p2, p3), (0, 10, 20));
    assert_eq!((l1, l2, l3), (0, 10, 20));
}

#[test]
fn compose_with_identity_on_the_right_changes_nothing() {
    let plain = accum(0, |dt: i32, x: i32, acc: i32| acc + x * dt);
    let right = compose(accum(0, |dt: i32, x: i32, acc: i32| acc + x * dt), identity::<i32, i32>());
    let (plain, p1) = plain.step(1, 10);
    let (plain, p2) = plain.step(2, 20);
    let (_, p3) = plain.step(3, 30);
    let (right, r1) = right.step(1, 10);
    let (right, r2) = right.step(2, 20);
    let (_, r3) = right.step(3, 30);
    assert_eq!((p1, p2, p3), (10, 50, 140));
    assert_eq!((r1, r2, r3), (10, 50, 140));
}

struct Counter {
    n: u32,
}

impl SignalTrans<i32> for Counter {
    type Input = ();

    type Output = u32;

    fn can_step(self, _delta: i32, _input: ()) -> bool {
        self.n < u32::MAX
    }

    fn steps_to(self, _delta: i32, _input: (), next: Self, output: u32) -> bool {
        next.n == self.n + 1 && output == next.n
    }

    fn step(self, _delta: i32, _input: ()) -> (Self, u32) {
        (Counter { n: self.n + 1 }, self.n + 1)
    }
}

#[test]
fn a_transformer_of_the_caller_composes_with_the_library() {
    let c = compose(SF::from(Counter { n: 0 }), sigtrans::basic::map(|x: u32| x * 10));
    let (c, o1) = c.step(1, ());
    let (c, o2) = c.step(1, ());
    let (c, o3) = c.step(1, ());
    assert_eq!((o1, o2, o3), (10, 20, 30));
    assert_eq!(c.sf.left.n, 3);
    let five = Counter { n: 4 };
    assert!(Counter { n: 4 }.steps_to(1, (), Counter { n: 5 }, 5));
    assert!(five.can_step(1, ()));
}

struct Scale(i32);

impl Callable<(i32, i32), i32> for Scale {
    fn admits(&self, _args: (i32, i32)) -> bool {
        true
    }

    fn yields(&self, args: (i32, i32), out: i32) -> bool {
        out == args.1 * self.0
    }

    fn call(&self, args: (i32, i32)) -> i32 {
        args.1 * self.0
    }
}

#[test]
fn a_function_object_of_the_caller_lifts() {
    let l: SF<i32, Lift<i32, i32, i32, Scale>> = SF::from(Lift::from(Scale(3)));
    let (l, o1) = l.step(1, 2);
    let (_, o2) = l.step(1, 5);
    assert_eq!((o1, o2), (6, 15));
    assert!(Scale(3).admits((0, 1)));
    assert!(Scale(3).yields((0, 2), 6));
}
