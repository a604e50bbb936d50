use crate::basic::{
    compose, delay, fanout, identity, split, Accum, Compose, Delay, Fanout, Identity, Lift, Split,
};
use crate::func::{Callable, Duplicate};
use crate::num::Numeric;
use crate::sf::{SignalTrans, SF};
use std::ops::{Add, BitAnd, BitOr, BitXor, Div, Mul, Sub};
use vstd::prelude::*;
use vstd::std_specs::convert::IntoSpec;
use vstd::std_specs::ops::{
    AddSpec, AddSpecImpl, BitAndSpecImpl, BitOrSpecImpl, BitXorSpecImpl, DivSpec, DivSpecImpl,
    MulSpec, MulSpecImpl, SubSpec, SubSpecImpl,
};

verus! {

//
// Structural operators: `|` composes, `&` broadcasts, `^` runs side by side
//
impl<Time: Copy, T, U> BitOrSpecImpl<SF<Time, U>> for SF<Time, T> where
    T: SignalTrans<Time>,
    U: SignalTrans<Time, Input = T::Output>,
 {
    open spec fn obeys_bitor_spec() -> bool {
        true
    }

    open spec fn bitor_req(self, other: SF<Time, U>) -> bool {
        true
    }

    open spec fn bitor_spec(self, other: SF<Time, U>) -> SF<Time, Compose<T, U>> {
        SF::wrap(Compose { left: self.sf, right: other.sf })
    }
}

impl<Time: Copy, T, U> BitOr<SF<Time, U>> for SF<Time, T> where
    T: SignalTrans<Time>,
    U: SignalTrans<Time, Input = T::Output>,
 {
    type Output = SF<Time, Compose<T, U>>;

    fn bitor(self, other: SF<Time, U>) -> (r: Self::Output) {
        compose(self, other)
    }
}

impl<Time: Copy, T, U> BitAndSpecImpl<SF<Time, U>> for SF<Time, T> where
    T: SignalTrans<Time>,
    U: SignalTrans<Time, Input = T::Input>,
    T::Input: Clone,
 {
    open spec fn obeys_bitand_spec() -> bool {
        true
    }

    open spec fn bitand_req(self, other: SF<Time, U>) -> bool {
        true
    }

    open spec fn bitand_spec(self, other: SF<Time, U>) -> SF<Time, Fanout<Time, T, U>> {
        SF::wrap(
            Compose {
                left: Lift::of(Duplicate),
                right: Split { first: self.sf, second: other.sf },
            },
        )
    }
}

impl<Time: Copy, T, U> BitAnd<SF<Time, U>> for SF<Time, T> where
    T: SignalTrans<Time>,
    U: SignalTrans<Time, Input = T::Input>,
    T::Input: Clone,
 {
    type Output = SF<Time, Fanout<Time, T, U>>;

    fn bitand(self, other: SF<Time, U>) -> (r: Self::Output) {
        fanout(self, other)
    }
}

impl<Time: Copy, T, U> BitXorSpecImpl<SF<Time, U>> for SF<Time, T> where
    T: SignalTrans<Time>,
    U: SignalTrans<Time>,
 {
    open spec fn obeys_bitxor_spec() -> bool {
        true
    }

    open spec fn bitxor_req(self, other: SF<Time, U>) -> bool {
        true
    }

    open spec fn bitxor_spec(self, other: SF<Time, U>) -> SF<Time, Split<T, U>> {
        SF::wrap(Split { first: self.sf, second: other.sf })
    }
}

impl<Time: Copy, T, U> BitXor<SF<Time, U>> for SF<Time, T> where
    T: SignalTrans<Time>,
    U: SignalTrans<Time>,
 {
    type Output = SF<Time, Split<T, U>>;

    fn bitxor(self, other: SF<Time, U>) -> (r: Self::Output) {
        split(self, other)
    }
}

//
// Arithmetic on outputs
//
/// Adds the two halves of a pair.
pub struct Plus;

impl<T, X: Add<Y>, Y> Callable<(T, (X, Y)), <X as Add<Y>>::Output> for Plus {
    open spec fn admits(&self, args: (T, (X, Y))) -> bool {
        args.1.0.add_req(args.1.1)
    }

    open spec fn yields(&self, args: (T, (X, Y)), out: <X as Add<Y>>::Output) -> bool {
        X::obeys_add_spec() ==> out == args.1.0.add_spec(args.1.1)
    }

    fn call(&self, args: (T, (X, Y))) -> (out: <X as Add<Y>>::Output) {
        let (_, (x, y)) = args;
        x + y
    }
}

/// Subtracts the second half of a pair from the first.
pub struct Minus;

impl<T, X: Sub<Y>, Y> Callable<(T, (X, Y)), <X as Sub<Y>>::Output> for Minus {
    open spec fn admits(&self, args: (T, (X, Y))) -> bool {
        args.1.0.sub_req(args.1.1)
    }

    open spec fn yields(&self, args: (T, (X, Y)), out: <X as Sub<Y>>::Output) -> bool {
        X::obeys_sub_spec() ==> out == args.1.0.sub_spec(args.1.1)
    }

    fn call(&self, args: (T, (X, Y))) -> (out: <X as Sub<Y>>::Output) {
        let (_, (x, y)) = args;
        x - y
    }
}

/// Multiplies the two halves of a pair.
pub struct Times;

impl<T, X: Mul<Y>, Y> Callable<(T, (X, Y)), <X as Mul<Y>>::Output> for Times {
    open spec fn admits(&self, args: (T, (X, Y))) -> bool {
        args.1.0.mul_req(args.1.1)
    }

    open spec fn yields(&self, args: (T, (X, Y)), out: <X as Mul<Y>>::Output) -> bool {
        X::obeys_mul_spec() ==> out == args.1.0.mul_spec(args.1.1)
    }

    fn call(&self, args: (T, (X, Y))) -> (out: <X as Mul<Y>>::Output) {
        let (_, (x, y)) = args;
        x * y
    }
}

/// Divides the first half of a pair by the second.
pub struct Over;

impl<T, X: Div<Y>, Y> Callable<(T, (X, Y)), <X as Div<Y>>::Output> for Over {
    open spec fn admits(&self, args: (T, (X, Y))) -> bool {
        args.1.0.div_req(args.1.1)
    }

    open spec fn yields(&self, args: (T, (X, Y)), out: <X as Div<Y>>::Output) -> bool {
        X::obeys_div_spec() ==> out == args.1.0.div_spec(args.1.1)
    }

    fn call(&self, args: (T, (X, Y))) -> (out: <X as Div<Y>>::Output) {
        let (_, (x, y)) = args;
        x / y
    }
}

/// Two transformers on one input, with `Op` applied to the pair of their
/// outputs.
pub type Arith<Time, T, U, R, Op> = Compose<
    Fanout<Time, T, U>,
    Lift<Time, (<T as SignalTrans<Time>>::Output, <U as SignalTrans<Time>>::Output), R, Op>,
>;

/// The state in which `first` and `second` share an input and `op` is
/// applied to the pair of their outputs.
pub open spec fn arith<Time, T, U, R, Op>(first: T, second: U, op: Op) -> Arith<
    Time,
    T,
    U,
    R,
    Op,
> where T: SignalTrans<Time>, U: SignalTrans<Time, Input = T::Input> {
    Compose {
        left: Compose { left: Lift::of(Duplicate), right: Split { first, second } },
        right: Lift::of(op),
    }
}

impl<Time: Copy, T, U> AddSpecImpl<SF<Time, U>> for SF<Time, T> where
    T: SignalTrans<Time>,
    U: SignalTrans<Time, Input = T::Input>,
    T::Input: Clone,
    T::Output: Add<U::Output>,
 {
    open spec fn obeys_add_spec() -> bool {
        true
    }

    open spec fn add_req(self, other: SF<Time, U>) -> bool {
        true
    }

    open spec fn add_spec(self, other: SF<Time, U>) -> SF<
        Time,
        Arith<Time, T, U, <T::Output as Add<U::Output>>::Output, Plus>,
    > {
        SF::wrap(arith(self.sf, other.sf, Plus))
    }
}

impl<Time: Copy, T, U> Add<SF<Time, U>> for SF<Time, T> where
    T: SignalTrans<Time>,
    U: SignalTrans<Time, Input = T::Input>,
    T::Input: Clone,
    T::Output: Add<U::Output>,
 {
    type Output = SF<Time, Arith<Time, T, U, <T::Output as Add<U::Output>>::Output, Plus>>;

    fn add(self, other: SF<Time, U>) -> (r: Self::Output) {
        (self & other) | SF::from(Lift::from(Plus))
    }
}

impl<Time: Copy, T, U> SubSpecImpl<SF<Time, U>> for SF<Time, T> where
    T: SignalTrans<Time>,
    U: SignalTrans<Time, Input = T::Input>,
    T::Input: Clone,
    T::Output: Sub<U::Output>,
 {
    open spec fn obeys_sub_spec() -> bool {
        true
    }

    open spec fn sub_req(self, other: SF<Time, U>) -> bool {
        true
    }

    open spec fn sub_spec(self, other: SF<Time, U>) -> SF<
        Time,
        Arith<Time, T, U, <T::Output as Sub<U::Output>>::Output, Minus>,
    > {
        SF::wrap(arith(self.sf, other.sf, Minus))
    }
}

impl<Time: Copy, T, U> Sub<SF<Time, U>> for SF<Time, T> where
    T: SignalTrans<Time>,
    U: SignalTrans<Time, Input = T::Input>,
    T::Input: Clone,
    T::Output: Sub<U::Output>,
 {
    type Output = SF<Time, Arith<Time, T, U, <T::Output as Sub<U::Output>>::Output, Minus>>;

    fn sub(self, other: SF<Time, U>) -> (r: Self::Output) {
        (self & other) | SF::from(Lift::from(Minus))
    }
}

impl<Time: Copy, T, U> MulSpecImpl<SF<Time, U>> for SF<Time, T> where
    T: SignalTrans<Time>,
    U: SignalTrans<Time, Input = T::Input>,
    T::Input: Clone,
    T::Output: Mul<U::Output>,
 {
    open spec fn obeys_mul_spec() -> bool {
        true
    }

    open spec fn mul_req(self, other: SF<Time, U>) -> bool {
        true
    }

    open spec fn mul_spec(self, other: SF<Time, U>) -> SF<
        Time,
        Arith<Time, T, U, <T::Output as Mul<U::Output>>::Output, Times>,
    > {
        SF::wrap(arith(self.sf, other.sf, Times))
    }
}

impl<Time: Copy, T, U> Mul<SF<Time, U>> for SF<Time, T> where
    T: SignalTrans<Time>,
    U: SignalTrans<Time, Input = T::Input>,
    T::Input: Clone,
    T::Output: Mul<U::Output>,
 {
    type Output = SF<Time, Arith<Time, T, U, <T::Output as Mul<U::Output>>::Output, Times>>;

    fn mul(self, other: SF<Time, U>) -> (r: Self::Output) {
        (self & other) | SF::from(Lift::from(Times))
    }
}

impl<Time: Copy, T, U> DivSpecImpl<SF<Time, U>> for SF<Time, T> where
    T: SignalTrans<Time>,
    U: SignalTrans<Time, Input = T::Input>,
    T::Input: Clone,
    T::Output: Div<U::Output>,
 {
    open spec fn obeys_div_spec() -> bool {
        true
    }

    open spec fn div_req(self, other: SF<Time, U>) -> bool {
        true
    }

    open spec fn div_spec(self, other: SF<Time, U>) -> SF<
        Time,
        Arith<Time, T, U, <T::Output as Div<U::Output>>::Output, Over>,
    > {
        SF::wrap(arith(self.sf, other.sf, Over))
    }
}

impl<Time: Copy, T, U> Div<SF<Time, U>> for SF<Time, T> where
    T: SignalTrans<Time>,
    U: SignalTrans<Time, Input = T::Input>,
    T::Input: Clone,
    T::Output: Div<U::Output>,
 {
    type Output = SF<Time, Arith<Time, T, U, <T::Output as Div<U::Output>>::Output, Over>>;

    fn div(self, other: SF<Time, U>) -> (r: Self::Output) {
        (self & other) | SF::from(Lift::from(Over))
    }
}

//
// Derivative and integral
//
/// Whether converting `delta` into the domain of values may give `scale`.
pub open spec fn converts<Time: Into<T>, T>(delta: Time, scale: T) -> bool {
    <Time as IntoSpec<T>>::obeys_into_spec() ==> scale == delta.into_spec()
}

/// Whether `value` may be divided by every conversion of `delta`.
pub open spec fn divides_by<Time: Into<T>, T: Numeric>(delta: Time, value: T) -> bool {
    forall|scale: T| #[trigger] converts(delta, scale) ==> value.div_req(scale)
}

/// Whether `out` is `value` divided by a conversion of `delta`.
pub open spec fn quotient_by<Time: Into<T>, T: Numeric>(delta: Time, value: T, out: T) -> bool {
    exists|scale: T| #[trigger] converts(delta, scale) && out == value.div_spec(scale)
}

/// Divides a value by the delta, converted into the domain of values.
pub struct OverDelta;

impl<Time: Into<T>, T: Numeric> Callable<(Time, T), T> for OverDelta {
    open spec fn admits(&self, args: (Time, T)) -> bool {
        divides_by(args.0, args.1)
    }

    open spec fn yields(&self, args: (Time, T), out: T) -> bool {
        quotient_by(args.0, args.1, out)
    }

    fn call(&self, args: (Time, T)) -> (out: T) {
        let (dt, df) = args;
        let scale: T = dt.into();
        proof {
            T::lemma_operators_obey();
            assert(converts(dt, scale));
        }
        df / scale
    }
}

/// The state of a differentiator: `identity - delay`, divided by the delta.
pub type Derivative<Time, T> = Compose<
    Arith<Time, Identity<T>, Delay<T>, T, Minus>,
    Lift<Time, T, T, OverDelta>,
>;

/// The differentiator whose previous input was `last`.
pub open spec fn differentiating<Time, T: Numeric + Clone>(last: T) -> Derivative<Time, T> {
    Compose {
        left: arith(Identity { _a: std::marker::PhantomData }, Delay { held: last }, Minus),
        right: Lift::of(OverDelta),
    }
}

/// The backward difference of a signal: on each step the input less the
/// previous input (zero at first), divided by the delta.
///
/// A step needs a delta whose conversion is accepted as a divisor: for the
/// integers, one that is not zero.
pub fn derivative<Time, T>() -> (r: SF<Time, Derivative<Time, T>>) where
    Time: Numeric + Copy + Into<T>,
    T: Numeric + Clone,

    ensures
        r == SF::<Time, Derivative<Time, T>>::wrap(differentiating(T::zero_value())),
{
    (identity::<Time, T>() - delay::<Time, T>(T::zero())) | SF::from(Lift::from(OverDelta))
}

/// Whether `value` times every conversion of `delta` may be computed and
/// added to `sum`.
pub open spec fn adds_scaled<Time: Into<T>, T: Numeric>(delta: Time, value: T, sum: T) -> bool {
    forall|scale: T| #[trigger]
        converts(delta, scale) ==> value.mul_req(scale) && sum.add_req(value.mul_spec(scale))
}

/// Whether `out` is `sum` plus `value` times a conversion of `delta`.
pub open spec fn sum_scaled<Time: Into<T>, T: Numeric>(
    delta: Time,
    value: T,
    sum: T,
    out: T,
) -> bool {
    exists|scale: T| #[trigger]
        converts(delta, scale) && out == sum.add_spec(value.mul_spec(scale))
}

/// Adds to a sum a value times the delta, converted into the domain of
/// values.
pub struct AddScaled;

impl<Time: Into<T>, T: Numeric> Callable<(Time, T, T), T> for AddScaled {
    open spec fn admits(&self, args: (Time, T, T)) -> bool {
        adds_scaled(args.0, args.1, args.2)
    }

    open spec fn yields(&self, args: (Time, T, T), out: T) -> bool {
        sum_scaled(args.0, args.1, args.2, out)
    }

    fn call(&self, args: (Time, T, T)) -> (out: T) {
        let (dt, x, sum) = args;
        let scale: T = dt.into();
        proof {
            T::lemma_operators_obey();
            assert(converts(dt, scale));
        }
        sum + x * scale
    }
}

/// The rectangle-rule integral of a signal: a sum that starts at zero and
/// grows on each step by the input times the delta.
pub fn integral<Time, T>() -> (r: SF<Time, Accum<Time, T, T, AddScaled>>) where
    T: Numeric + Clone,
    Time: Numeric + Into<T>,

    ensures
        r == SF::<Time, Accum<Time, T, T, AddScaled>>::wrap(
            Accum::holding(T::zero_value(), AddScaled),
        ),
{
    SF::from(Accum::new(T::zero(), AddScaled))
}

/// Whether `first` and `second`, stepped side by side on `input` (the first
/// on the clone `copy` of it), may become `first_next` and `second_next` with
/// the outputs `a` and `b`.
pub open spec fn both_step<Time, T, U>(
    first: T,
    second: U,
    delta: Time,
    input: T::Input,
    copy: T::Input,
    first_next: T,
    second_next: U,
    a: T::Output,
    b: U::Output,
) -> bool where T: SignalTrans<Time>, U: SignalTrans<Time, Input = T::Input>, T::Input: Clone {
    &&& cloned(input, copy)
    &&& first.steps_to(delta, copy, first_next, a)
    &&& second.steps_to(delta, input, second_next, b)
}

/// A step of two transformers joined by an operation is a step of each on
/// the same delta and input, with the operation applied to their outputs.
pub proof fn lemma_arith_step<Time: Copy, T, U, R, Op>(
    first: T,
    second: U,
    op: Op,
    delta: Time,
    input: T::Input,
    next: Arith<Time, T, U, R, Op>,
    output: R,
) where
    T: SignalTrans<Time>,
    U: SignalTrans<Time, Input = T::Input>,
    T::Input: Clone,
    Op: Callable<(Time, (T::Output, U::Output)), R>,

    ensures
        arith(first, second, op).steps_to(delta, input, next, output) <==> {
            &&& next == arith::<Time, T, U, R, Op>(next.left.right.first, next.left.right.second, op)
            &&& exists|copy: T::Input, a: T::Output, b: U::Output| #[trigger]
                both_step(
                    first,
                    second,
                    delta,
                    input,
                    copy,
                    next.left.right.first,
                    next.left.right.second,
                    a,
                    b,
                ) && op.yields((delta, (a, b)), output)
        },
{
    let s = arith::<Time, T, U, R, Op>(first, second, op);
    let first_next = next.left.right.first;
    let second_next = next.left.right.second;
    if s.steps_to(delta, input, next, output) {
        let mid = choose|mid: (T::Output, U::Output)| #[trigger]
            s.left.steps_to(delta, input, next.left, mid) && s.right.steps_to(
                delta,
                mid,
                next.right,
                output,
            );
        let pair = choose|pair: (T::Input, T::Input)| #[trigger]
            s.left.left.steps_to(delta, input, next.left.left, pair) && s.left.right.steps_to(
                delta,
                pair,
                next.left.right,
                mid,
            );
        assert(both_step(
            first,
            second,
            delta,
            input,
            pair.0,
            first_next,
            second_next,
            mid.0,
            mid.1,
        ));
        assert(op.yields((delta, (mid.0, mid.1)), output));
        assert(next.left.right == (Split { first: first_next, second: second_next }));
    }
    if next == arith::<Time, T, U, R, Op>(first_next, second_next, op) && exists|
        copy: T::Input,
        a: T::Output,
        b: U::Output,
    | #[trigger]
        both_step(first, second, delta, input, copy, first_next, second_next, a, b) && op.yields(
            (delta, (a, b)),
            output,
        ) {
        let (copy, a, b) = choose|copy: T::Input, a: T::Output, b: U::Output| #[trigger]
            both_step(first, second, delta, input, copy, first_next, second_next, a, b)
                && op.yields((delta, (a, b)), output);
        assert(s.left.left.steps_to(delta, input, next.left.left, (copy, input)));
        assert(s.left.right.steps_to(delta, (copy, input), next.left.right, (a, b)));
        assert(s.left.steps_to(delta, input, next.left, (a, b)));
        assert(s.right.steps_to(delta, (a, b), next.right, output));
    }
}

/// Adding two transformers adds their outputs: a step of `a + b` is a step
/// of `a` and a step of `b` on the same delta and input, and its output is
/// the sum of theirs.
pub proof fn lemma_sum_step<Time: Copy, T, U>(
    first: T,
    second: U,
    delta: Time,
    input: T::Input,
    next: Arith<Time, T, U, <T::Output as Add<U::Output>>::Output, Plus>,
    output: <T::Output as Add<U::Output>>::Output,
) where
    T: SignalTrans<Time>,
    U: SignalTrans<Time, Input = T::Input>,
    T::Input: Clone,
    T::Output: Add<U::Output>,

    requires
        <T::Output as AddSpec<U::Output>>::obeys_add_spec(),
    ensures
        arith(first, second, Plus).steps_to(delta, input, next, output) <==> {
            &&& next == arith::<Time, T, U, <T::Output as Add<U::Output>>::Output, Plus>(
                next.left.right.first,
                next.left.right.second,
                Plus,
            )
            &&& exists|copy: T::Input, a: T::Output, b: U::Output| #[trigger]
                both_step(
                    first,
                    second,
                    delta,
                    input,
                    copy,
                    next.left.right.first,
                    next.left.right.second,
                    a,
                    b,
                ) && output == a.add_spec(b)
        },
{
    lemma_arith_step::<Time, T, U, <T::Output as Add<U::Output>>::Output, Plus>(
        first,
        second,
        Plus,
        delta,
        input,
        next,
        output,
    );
    let first_next = next.left.right.first;
    let second_next = next.left.right.second;
    if exists|copy: T::Input, a: T::Output, b: U::Output| #[trigger]
        both_step(first, second, delta, input, copy, first_next, second_next, a, b) && Plus.yields(
            (delta, (a, b)),
            output,
        ) {
        let (copy, a, b) = choose|copy: T::Input, a: T::Output, b: U::Output| #[trigger]
            both_step(first, second, delta, input, copy, first_next, second_next, a, b)
                && Plus.yields((delta, (a, b)), output);
        assert(both_step(first, second, delta, input, copy, first_next, second_next, a, b)
            && output == a.add_spec(b));
    }
    if exists|copy: T::Input, a: T::Output, b: U::Output| #[trigger]
        both_step(first, second, delta, input, copy, first_next, second_next, a, b) && output
            == a.add_spec(b) {
        let (copy, a, b) = choose|copy: T::Input, a: T::Output, b: U::Output| #[trigger]
            both_step(first, second, delta, input, copy, first_next, second_next, a, b) && output
                == a.add_spec(b);
        assert(both_step(first, second, delta, input, copy, first_next, second_next, a, b)
            && Plus.yields((delta, (a, b)), output));
    }
}

/// A differentiator computes the backward difference: a step from the
/// previous input `last` on `input` returns `input - last` divided by the
/// converted delta, and remembers `input`.
pub proof fn lemma_derivative_step<Time, T>(
    last: T,
    delta: Time,
    input: T,
    next: Derivative<Time, T>,
    output: T,
) where Time: Numeric + Copy + Into<T>, T: Numeric + Clone
    ensures
        differentiating::<Time, T>(last).steps_to(delta, input, next, output) <==> {
            &&& next == differentiating::<Time, T>(input)
            &&& exists|copy: T, scale: T| #[trigger]
                cloned(input, copy) && #[trigger] converts(delta, scale) && output
                    == copy.sub_spec(last).div_spec(scale)
        },
{
    T::lemma_operators_obey();
    let s = differentiating::<Time, T>(last);
    let id = Identity::<T> { _a: std::marker::PhantomData };
    let held = Delay { held: last };
    if s.steps_to(delta, input, next, output) {
        let diff = choose|diff: T| #[trigger]
            s.left.steps_to(delta, input, next.left, diff) && s.right.steps_to(
                delta,
                diff,
                next.right,
                output,
            );
        lemma_arith_step::<Time, Identity<T>, Delay<T>, T, Minus>(
            id,
            held,
            Minus,
            delta,
            input,
            next.left,
            diff,
        );
        let first_next = next.left.left.right.first;
        let second_next = next.left.left.right.second;
        let (copy, a, b) = choose|copy: T, a: T, b: T| #[trigger]
            both_step(id, held, delta, input, copy, first_next, second_next, a, b) && Minus.yields(
                (delta, (a, b)),
                diff,
            );
        assert(quotient_by(delta, diff, output));
        let scale = choose|scale: T| #[trigger]
            converts(delta, scale) && output == diff.div_spec(scale);
        assert(cloned(input, copy) && converts(delta, scale) && output == copy.sub_spec(
            last,
        ).div_spec(scale));
        assert(next == differentiating::<Time, T>(input));
    }
    if next == differentiating::<Time, T>(input) && exists|copy: T, scale: T| #[trigger]
        cloned(input, copy) && #[trigger] converts(delta, scale) && output == copy.sub_spec(
            last,
        ).div_spec(scale) {
        let (copy, scale) = choose|copy: T, scale: T| #[trigger]
            cloned(input, copy) && #[trigger] converts(delta, scale) && output == copy.sub_spec(
                last,
            ).div_spec(scale);
        let diff = copy.sub_spec(last);
        assert(both_step(id, held, delta, input, copy, id, Delay { held: input }, copy, last));
        assert(Minus.yields((delta, (copy, last)), diff));
        lemma_arith_step::<Time, Identity<T>, Delay<T>, T, Minus>(
            id,
            held,
            Minus,
            delta,
            input,
            next.left,
            diff,
        );
        assert(next.left == arith::<Time, Identity<T>, Delay<T>, T, Minus>(
            next.left.left.right.first,
            next.left.left.right.second,
            Minus,
        ));
        assert(both_step(
            id,
            held,
            delta,
            input,
            copy,
            next.left.left.right.first,
            next.left.left.right.second,
            copy,
            last,
        ));
        assert(s.left.steps_to(delta, input, next.left, diff));
        assert(converts(delta, scale) && output == diff.div_spec(scale));
        assert(quotient_by(delta, diff, output));
        assert(s.right.steps_to(delta, diff, next.right, output));
    }
}

} // verus!
