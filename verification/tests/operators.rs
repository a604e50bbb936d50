use sigtrans::basic::{constant, delay, identity, lift};
use sigtrans::num::{Numeric, SignedNumeric};
use sigtrans::operators::{derivative, integral};

#[test]
fn pipe_composes() {
    let c = lift(|dt: i32, x: i32| x + dt) | lift(|dt: i32, x: i32| x * dt);
    let (_, o) = c.step(2, 1);
    assert_eq!(o, 6);
}

#[test]
fn ampersand_broadcasts() {
    let f = delay::<i32, i32>(7) & identity::<i32, i32>();
    let (f, o1) = f.step(1, 1);
    let (_, o2) = f.step(1, 2);
    assert_eq!(o1, (7, 1));
    assert_eq!(o2, (1, 2));
}

#[test]
fn caret_runs_side_by_side() {
    let s = delay::<i32, i32>(7) ^ identity::<i32, char>();
    let (s, o1) = s.step(1, (1, 'a'));
    let (_, o2) = s.step(1, (2, 'b'));
    assert_eq!(o1, (7, 'a'));
    assert_eq!(o2, (1, 'b'));
}

#[test]
fn sum_steps_both_and_adds_their_outputs() {
    let a = lift(|dt: i32, x: i32| x * dt);
    let b = delay::<i32, i32>(100);
    let sum = lift(|dt: i32, x: i32| x * dt) + delay::<i32, i32>(100);
    let (a, a1) = a.step(2, 5);
    let (b, b1) = b.step(2, 5);
    let (sum, s1) = sum.step(2, 5);
    assert_eq!(s1, a1 + b1);
    assert_eq!(s1, 110);
    let (_, a2) = a.step(3, 7);
    let (_, b2) = b.step(3, 7);
    let (_, s2) = sum.step(3, 7);
    assert_eq!(s2, a2 + b2);
    assert_eq!(s2, 26);
}

#[test]
fn difference_product_and_quotient_of_outputs() {
    let (_, o) = (identity::<i32, i32>() - constant::<i32, i32, i32>(3)).step(1, 10);
    assert_eq!(o, 7);
    let (_, o) = (identity::<i32, i32>() * constant::<i32, i32, i32>(3)).step(1, 10);
    assert_eq!(o, 30);
    let (_, o) = (identity::<i32, i32>() / constant::<i32, i32, i32>(3)).step(1, 10);
    assert_eq!(o, 3);
    let (_, o) = (identity::<i32, i32>() / constant::<i32, i32, i32>(3)).step(1, -10);
    assert_eq!(o, -3);
}

#[test]
fn derivative_is_the_backward_difference() {
    let d = derivative::<i32, i64>();
    // (10 - 0) / 2, (4 - 10) / 3, (4 - 4) / 1, (11 - 4) / 2
    let (d, o1) = d.step(2, 10);
    let (d, o2) = d.step(3, 4);
    let (d, o3) = d.step(1, 4);
    let (_, o4) = d.step(2, 11);
    assert_eq!((o1, o2, o3, o4), (5, -2, 0, 3));
}

#[test]
fn integral_is_the_rectangle_rule() {
    let i = integral::<i32, i64>();
    // 0 + 10 * 2, 20 + (-4) * 3, 8 + 5 * 0
    let (i, o1) = i.step(2, 10);
    let (i, o2) = i.step(3, -4);
    let (i, o3) = i.step(0, 5);
    assert_eq!((o1, o2, o3), (20, 8, 8));
    assert_eq!(i.sf.value, 8);
}

#[test]
fn integral_depends_on_the_cadence_of_steps() {
    let coarse = integral::<u16, u32>();
    let (coarse, _) = coarse.step(4, 3);
    let fine = integral::<u16, u32>();
    let (fine, _) = fine.step(2, 3);
    let (fine, _) = fine.step(2, 5);
    assert_eq!(coarse.sf.value, 12);
    assert_eq!(fine.sf.value, 16);
}

#[test]
fn zero_is_the_additive_identity() {
    assert_eq!(<i8 as Numeric>::zero(), 0);
    assert_eq!(<i16 as Numeric>::zero(), 0);
    assert_eq!(<i32 as Numeric>::zero(), 0);
    assert_eq!(<i64 as Numeric>::zero(), 0);
    assert_eq!(<i128 as Numeric>::zero(), 0);
    assert_eq!(<isize as Numeric>::zero(), 0);
    assert_eq!(<u8 as Numeric>::zero(), 0);
    assert_eq!(<u16 as Numeric>::zero(), 0);
    assert_eq!(<u32 as Numeric>::zero(), 0);
    assert_eq!(<u64 as Numeric>::zero(), 0);
    assert_eq!(<u128 as Numeric>::zero(), 0);
    assert_eq!(<usize as Numeric>::zero(), 0);
    assert_eq!(7 + <i32 as Numeric>::zero(), 7);
}

#[test]
fn is_negative_is_below_zero() {
    assert!(SignedNumeric::is_negative(&-1i8));
    assert!(SignedNumeric::is_negative(&i16::MIN));
    assert!(SignedNumeric::is_negative(&-5i32));
    assert!(SignedNumeric::is_negative(&-5i64));
    assert!(SignedNumeric::is_negative(&-5i128));
    assert!(SignedNumeric::is_negative(&-5isize));
    assert!(!SignedNumeric::is_negative(&0i8));
    assert!(!SignedNumeric::is_negative(&0i16));
    assert!(!SignedNumeric::is_negative(&0i32));
    assert!(!SignedNumeric::is_negative(&0i64));
    assert!(!SignedNumeric::is_negative(&1i128));
    assert!(!SignedNumeric::is_negative(&isize::MAX));
}
