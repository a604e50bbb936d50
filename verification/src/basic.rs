use crate::func::{
    has_contract, Callable, Duplicate, Pure1, Pure2, Pure3, Pure4, Timed2, Timed3, Timed4,
};
use crate::sf::{SignalTrans, SF};
use crate::trace::{is_run, step_at};
use std::marker::PhantomData;
use std::rc::Rc;
use vstd::prelude::*;
use vstd::std_specs::convert::FromSpecImpl;

verus! {

//
// Identity
//
/// The transformer that returns its input unchanged.
pub struct Identity<A> {
    pub _a: PhantomData<A>,
}

impl<A> Identity<A> {
    /// The identity transformer.
    pub fn new() -> (r: Self)
        ensures
            r == (Identity::<A> { _a: PhantomData }),
    {
        Self::default()
    }
}

impl<A> Default for Identity<A> {
    fn default() -> (r: Self)
        ensures
            r == (Identity::<A> { _a: PhantomData }),
    {
        Identity { _a: PhantomData }
    }
}

impl<A> Clone for Identity<A> {
    fn clone(&self) -> (r: Self)
        ensures
            r == *self,
    {
        Identity { _a: PhantomData }
    }
}

impl<A> Copy for Identity<A> {

}

impl<Time, A> SignalTrans<Time> for Identity<A> {
    type Input = A;

    type Output = A;

    open spec fn can_step(self, delta: Time, input: A) -> bool {
        true
    }

    open spec fn steps_to(self, delta: Time, input: A, next: Self, output: A) -> bool {
        next == self && output == input
    }

    fn step(self, _delta: Time, a: A) -> (r: (Self, A)) {
        (self, a)
    }
}

/// The transformer that returns its input unchanged.
pub fn identity<Time, A>() -> (r: SF<Time, Identity<A>>)
    ensures
        r == SF::<Time, Identity<A>>::wrap(Identity { _a: PhantomData }),
{
    SF::from(Identity::new())
}

//
// Const
//
/// The transformer that ignores delta and input and always returns a copy of
/// one value.
pub struct Const<A, B> {
    pub _a: PhantomData<A>,
    pub value: B,
}

impl<A, B> Const<A, B> {
    /// The constant transformer that holds `value`.
    pub open spec fn holding(value: B) -> Self {
        Const { _a: PhantomData, value }
    }
}

impl<A, B: Default> Default for Const<A, B> {
    fn default() -> (r: Self)
        ensures
            call_ensures(B::default, (), r.value),
    {
        Self::from(B::default())
    }
}

impl<A, B> FromSpecImpl<B> for Const<A, B> {
    open spec fn obeys_from_spec() -> bool {
        true
    }

    open spec fn from_spec(value: B) -> Self {
        Self::holding(value)
    }
}

impl<A, B> From<B> for Const<A, B> {
    fn from(value: B) -> (r: Self) {
        Const { _a: PhantomData, value }
    }
}

impl<A, B: Clone> Clone for Const<A, B> {
    fn clone(&self) -> (r: Self)
        ensures
            cloned(self.value, r.value),
    {
        Const { _a: PhantomData, value: self.value.clone() }
    }
}

impl<A, B: Copy> Copy for Const<A, B> {

}

impl<Time, A, B: Clone> SignalTrans<Time> for Const<A, B> {
    type Input = A;

    type Output = B;

    open spec fn can_step(self, delta: Time, input: A) -> bool {
        true
    }

    open spec fn steps_to(self, delta: Time, input: A, next: Self, output: B) -> bool {
        next == self && cloned(self.value, output)
    }

    fn step(self, _delta: Time, _a: A) -> (r: (Self, B)) {
        let b = self.value.clone();
        (self, b)
    }
}

/// The transformer that always returns a copy of `value`.
pub fn constant<Time, A, B: Clone>(value: B) -> (r: SF<Time, Const<A, B>>)
    ensures
        r == SF::<Time, Const<A, B>>::wrap(Const::holding(value)),
{
    SF::from(Const::from(value))
}

//
// LocalTime
//
/// A time value local to one transformer.
pub struct LocalTime<Time> {
    pub time: Time,
}

impl<Time: Default> Default for LocalTime<Time> {
    fn default() -> (r: Self)
        ensures
            call_ensures(Time::default, (), r.time),
    {
        LocalTime { time: Time::default() }
    }
}

impl<Time: Clone> Clone for LocalTime<Time> {
    fn clone(&self) -> (r: Self)
        ensures
            cloned(self.time, r.time),
    {
        LocalTime { time: self.time.clone() }
    }
}

impl<Time: Copy> Copy for LocalTime<Time> {

}

//
// Lift
//
/// A stateless transformer that applies a shared function to the delta and
/// the input.
pub struct Lift<Time, A, B, F> {
    pub f: Rc<F>,
    pub _marker: PhantomData<(Time, A, B)>,
}

impl<Time, A, B, F> Lift<Time, A, B, F> {
    /// The transformer that applies `f`.
    pub open spec fn of(f: F) -> Self {
        Lift { f: Rc::new(f), _marker: PhantomData }
    }
}

impl<Time, A, B, F: Callable<(Time, A), B>> FromSpecImpl<F> for Lift<Time, A, B, F> {
    open spec fn obeys_from_spec() -> bool {
        true
    }

    open spec fn from_spec(f: F) -> Self {
        Self::of(f)
    }
}

impl<Time, A, B, F: Callable<(Time, A), B>> From<F> for Lift<Time, A, B, F> {
    fn from(f: F) -> (r: Self) {
        Lift { f: Rc::new(f), _marker: PhantomData }
    }
}

impl<Time, A, B, F> Clone for Lift<Time, A, B, F> {
    fn clone(&self) -> (r: Self)
        ensures
            r == *self,
    {
        Lift { f: self.f.clone(), _marker: PhantomData }
    }
}

impl<Time, A, B, F: Callable<(Time, A), B>> SignalTrans<Time> for Lift<Time, A, B, F> {
    type Input = A;

    type Output = B;

    open spec fn can_step(self, delta: Time, input: A) -> bool {
        self.f.admits((delta, input))
    }

    open spec fn steps_to(self, delta: Time, input: A, next: Self, output: B) -> bool {
        next == self && self.f.yields((delta, input), output)
    }

    fn step(self, delta: Time, a: A) -> (r: (Self, B)) {
        let b = self.f.call((delta, a));
        (self, b)
    }
}

/// Lifts a function of the delta and one value.
pub fn lift<Time, A, R, F>(f: F) -> (r: SF<Time, Lift<Time, A, R, impl Callable<(Time, A), R>>>) where
    F: Fn(Time, A) -> R + 'static,

    ensures
        has_contract(
            *r.sf.f,
            |args: (Time, A)| call_requires(f, args),
            |args: (Time, A), out: R| call_ensures(f, args, out),
        ),
{
    SF::from(Lift::from(f))
}

/// Lifts a function of one value alone.
pub fn map<Time, A, R, F>(f: F) -> (r: SF<Time, Lift<Time, A, R, impl Callable<(Time, A), R>>>) where
    F: Fn(A) -> R + 'static,

    ensures
        has_contract(
            *r.sf.f,
            |args: (Time, A)| call_requires(f, (args.1,)),
            |args: (Time, A), out: R| call_ensures(f, (args.1,), out),
        ),
{
    SF::from(Lift::from(Pure1(f)))
}

/// Lifts a function of the delta and two values to a transformer of pairs.
pub fn lift2<Time, A, B, R, F>(f: F) -> (r: SF<
    Time,
    Lift<Time, (A, B), R, impl Callable<(Time, (A, B)), R>>,
>) where F: Fn(Time, A, B) -> R + 'static
    ensures
        has_contract(
            *r.sf.f,
            |args: (Time, (A, B))| call_requires(f, (args.0, args.1.0, args.1.1)),
            |args: (Time, (A, B)), out: R| call_ensures(f, (args.0, args.1.0, args.1.1), out),
        ),
{
    SF::from(Lift::from(Timed2(f)))
}

/// Lifts a function of two values alone to a transformer of pairs.
pub fn map2<Time, A, B, R, F>(f: F) -> (r: SF<
    Time,
    Lift<Time, (A, B), R, impl Callable<(Time, (A, B)), R>>,
>) where F: Fn(A, B) -> R + 'static
    ensures
        has_contract(
            *r.sf.f,
            |args: (Time, (A, B))| call_requires(f, (args.1.0, args.1.1)),
            |args: (Time, (A, B)), out: R| call_ensures(f, (args.1.0, args.1.1), out),
        ),
{
    SF::from(Lift::from(Pure2(f)))
}

/// Lifts a function of the delta and three values to a transformer of
/// triples.
pub fn lift3<Time, A, B, C, R, F>(f: F) -> (r: SF<
    Time,
    Lift<Time, (A, B, C), R, impl Callable<(Time, (A, B, C)), R>>,
>) where F: Fn(Time, A, B, C) -> R + 'static
    ensures
        has_contract(
            *r.sf.f,
            |args: (Time, (A, B, C))|
                call_requires(f, (args.0, args.1.0, args.1.1, args.1.2)),
            |args: (Time, (A, B, C)), out: R|
                call_ensures(f, (args.0, args.1.0, args.1.1, args.1.2), out),
        ),
{
    SF::from(Lift::from(Timed3(f)))
}

/// Lifts a function of three values alone to a transformer of triples.
pub fn map3<Time, A, B, C, R, F>(f: F) -> (r: SF<
    Time,
    Lift<Time, (A, B, C), R, impl Callable<(Time, (A, B, C)), R>>,
>) where F: Fn(A, B, C) -> R + 'static
    ensures
        has_contract(
            *r.sf.f,
            |args: (Time, (A, B, C))| call_requires(f, (args.1.0, args.1.1, args.1.2)),
            |args: (Time, (A, B, C)), out: R|
                call_ensures(f, (args.1.0, args.1.1, args.1.2), out),
        ),
{
    SF::from(Lift::from(Pure3(f)))
}

/// Lifts a function of the delta and four values to a transformer of
/// quadruples.
pub fn lift4<Time, A, B, C, D, R, F>(f: F) -> (r: SF<
    Time,
    Lift<Time, (A, B, C, D), R, impl Callable<(Time, (A, B, C, D)), R>>,
>) where F: Fn(Time, A, B, C, D) -> R + 'static
    ensures
        has_contract(
            *r.sf.f,
            |args: (Time, (A, B, C, D))|
                call_requires(f, (args.0, args.1.0, args.1.1, args.1.2, args.1.3)),
            |args: (Time, (A, B, C, D)), out: R|
                call_ensures(f, (args.0, args.1.0, args.1.1, args.1.2, args.1.3), out),
        ),
{
    SF::from(Lift::from(Timed4(f)))
}

/// Lifts a function of four values alone to a transformer of quadruples.
pub fn map4<Time, A, B, C, D, R, F>(f: F) -> (r: SF<
    Time,
    Lift<Time, (A, B, C, D), R, impl Callable<(Time, (A, B, C, D)), R>>,
>) where F: Fn(A, B, C, D) -> R + 'static
    ensures
        has_contract(
            *r.sf.f,
            |args: (Time, (A, B, C, D))|
                call_requires(f, (args.1.0, args.1.1, args.1.2, args.1.3)),
            |args: (Time, (A, B, C, D)), out: R|
                call_ensures(f, (args.1.0, args.1.1, args.1.2, args.1.3), out),
        ),
{
    SF::from(Lift::from(Pure4(f)))
}

//
// Compose
//
/// Sequential composition: each step feeds the output of `left` to `right`,
/// both with the same delta.
pub struct Compose<T, U> {
    pub left: T,
    pub right: U,
}

impl<T, U> Compose<T, U> {
    /// `left` followed by `right`.
    pub fn new(left: T, right: U) -> (r: Self)
        ensures
            r == (Compose { left, right }),
    {
        Self { left: left, right: right }
    }
}

impl<T: Clone, U: Clone> Clone for Compose<T, U> {
    fn clone(&self) -> (r: Self)
        ensures
            cloned(self.left, r.left),
            cloned(self.right, r.right),
    {
        Compose { left: self.left.clone(), right: self.right.clone() }
    }
}

impl<T: Copy, U: Copy> Copy for Compose<T, U> {

}

impl<Time, T, U> SignalTrans<Time> for Compose<T, U> where
    Time: Copy,
    T: SignalTrans<Time>,
    U: SignalTrans<Time, Input = T::Output>,
 {
    type Input = T::Input;

    type Output = U::Output;

    open spec fn can_step(self, delta: Time, input: T::Input) -> bool {
        &&& self.left.can_step(delta, input)
        &&& forall|mid: T, b: T::Output| #[trigger]
            self.left.steps_to(delta, input, mid, b) ==> self.right.can_step(delta, b)
    }

    open spec fn steps_to(self, delta: Time, input: T::Input, next: Self, output: U::Output) -> bool {
        exists|b: T::Output| #[trigger]
            self.left.steps_to(delta, input, next.left, b) && self.right.steps_to(
                delta,
                b,
                next.right,
                output,
            )
    }

    fn step(self, delta: Time, a: Self::Input) -> (r: (Self, Self::Output)) {
        let Compose { left: t, right: u } = self;
        let (t_next, b) = t.step(delta, a);
        let (u_next, c) = u.step(delta, b);
        let next = Compose::new(t_next, u_next);
        assert(self.left.steps_to(delta, a, next.left, b) && self.right.steps_to(
            delta,
            b,
            next.right,
            c,
        ));
        (next, c)
    }
}

/// Sequential composition: `left`, then `right` on what `left` returns.
pub fn compose<Time, T, U>(left: SF<Time, T>, right: SF<Time, U>) -> (r: SF<
    Time,
    Compose<T, U>,
>) where Time: Copy, T: SignalTrans<Time>, U: SignalTrans<Time, Input = T::Output>
    ensures
        r == SF::<Time, Compose<T, U>>::wrap(Compose { left: left.sf, right: right.sf }),
{
    SF::from(Compose::new(left.into_inner(), right.into_inner()))
}

//
// Split
//
/// Parallel composition: each step routes the halves of a pair to `first` and
/// `second`, both with the same delta, and pairs their outputs.
pub struct Split<T, U> {
    pub first: T,
    pub second: U,
}

impl<T, U> Split<T, U> {
    /// `first` and `second` side by side.
    pub fn new(first: T, second: U) -> (r: Self)
        ensures
            r == (Split { first, second }),
    {
        Self { first: first, second: second }
    }
}

impl<T: Clone, U: Clone> Clone for Split<T, U> {
    fn clone(&self) -> (r: Self)
        ensures
            cloned(self.first, r.first),
            cloned(self.second, r.second),
    {
        Split { first: self.first.clone(), second: self.second.clone() }
    }
}

impl<Time: Copy, T, U> SignalTrans<Time> for Split<T, U> where
    T: SignalTrans<Time>,
    U: SignalTrans<Time>,
 {
    type Input = (T::Input, U::Input);

    type Output = (T::Output, U::Output);

    open spec fn can_step(self, delta: Time, input: (T::Input, U::Input)) -> bool {
        self.first.can_step(delta, input.0) && self.second.can_step(delta, input.1)
    }

    open spec fn steps_to(
        self,
        delta: Time,
        input: (T::Input, U::Input),
        next: Self,
        output: (T::Output, U::Output),
    ) -> bool {
        &&& self.first.steps_to(delta, input.0, next.first, output.0)
        &&& self.second.steps_to(delta, input.1, next.second, output.1)
    }

    fn step(self, delta: Time, input: Self::Input) -> (r: (Self, Self::Output)) {
        let (a, b) = input;
        let Split { first, second } = self;
        let (first_next, a_next) = first.step(delta, a);
        let (second_next, b_next) = second.step(delta, b);
        (Self::new(first_next, second_next), (a_next, b_next))
    }
}

/// Parallel composition: `first` on the first half of a pair, `second` on
/// the second half.
pub fn split<Time: Copy, T, U>(first: SF<Time, T>, second: SF<Time, U>) -> (r: SF<
    Time,
    Split<T, U>,
>) where T: SignalTrans<Time>, U: SignalTrans<Time>
    ensures
        r == SF::<Time, Split<T, U>>::wrap(Split { first: first.sf, second: second.sf }),
{
    SF::from(Split::new(first.into_inner(), second.into_inner()))
}

//
// Fanout
//
/// Broadcast: one input is duplicated and fed to two transformers side by
/// side. The first receives the clone, the second the input itself.
pub type Fanout<Time, T, U> = Compose<
    Lift<
        Time,
        <T as SignalTrans<Time>>::Input,
        (<T as SignalTrans<Time>>::Input, <T as SignalTrans<Time>>::Input),
        Duplicate,
    >,
    Split<T, U>,
>;

/// Broadcast: `first` and `second` side by side on one input.
pub fn fanout<Time: Copy, T, U>(first: SF<Time, T>, second: SF<Time, U>) -> (r: SF<
    Time,
    Fanout<Time, T, U>,
>) where T: SignalTrans<Time>, U: SignalTrans<Time, Input = T::Input>, T::Input: Clone
    ensures
        r == SF::<Time, Fanout<Time, T, U>>::wrap(
            Compose {
                left: Lift::of(Duplicate),
                right: Split { first: first.sf, second: second.sf },
            },
        ),
{
    compose(SF::from(Lift::from(Duplicate)), split(first, second))
}

//
// Accum
//
/// A fold over time: each step replaces the accumulator by the result of the
/// shared function on delta, input and accumulator, and returns it.
pub struct Accum<Time, A, B, F> {
    pub value: B,
    pub f: Rc<F>,
    pub _marker: PhantomData<(Time, A)>,
}

impl<Time, A, B, F> Accum<Time, A, B, F> {
    /// The fold that holds `value` and is updated by `f`.
    pub open spec fn holding(value: B, f: F) -> Self {
        Accum { value, f: Rc::new(f), _marker: PhantomData }
    }
}

impl<Time, A, B, F: Callable<(Time, A, B), B>> Accum<Time, A, B, F> {
    /// The fold that starts at `init` and is updated by `f`.
    pub fn new(init: B, f: F) -> (r: Self)
        ensures
            r == Self::holding(init, f),
    {
        Accum { value: init, f: Rc::new(f), _marker: PhantomData }
    }
}

impl<Time, A, B: Clone, F> Clone for Accum<Time, A, B, F> {
    fn clone(&self) -> (r: Self)
        ensures
            cloned(self.value, r.value),
            r.f == self.f,
    {
        Accum { value: self.value.clone(), f: self.f.clone(), _marker: PhantomData }
    }
}

impl<Time, A, B: Clone, F: Callable<(Time, A, B), B>> SignalTrans<Time> for Accum<Time, A, B, F> {
    type Input = A;

    type Output = B;

    open spec fn can_step(self, delta: Time, input: A) -> bool {
        self.f.admits((delta, input, self.value))
    }

    open spec fn steps_to(self, delta: Time, input: A, next: Self, output: B) -> bool {
        &&& self.f.yields((delta, input, self.value), output)
        &&& cloned(output, next.value)
        &&& next.f == self.f
    }

    fn step(self, delta: Time, a: A) -> (r: (Self, B)) {
        let Accum { value, f, .. } = self;
        let value_next = f.call((delta, a, value));
        (Accum { value: value_next.clone(), f, _marker: PhantomData }, value_next)
    }
}

/// The fold over time that starts at `init` and is updated by `f` of delta,
/// input and accumulator.
pub fn accum<Time, A, B, F>(init: B, f: F) -> (r: SF<
    Time,
    Accum<Time, A, B, impl Callable<(Time, A, B), B>>,
>) where B: Clone, F: Fn(Time, A, B) -> B + 'static
    ensures
        r.sf.value == init,
        has_contract(
            *r.sf.f,
            |args: (Time, A, B)| call_requires(f, args),
            |args: (Time, A, B), out: B| call_ensures(f, args, out),
        ),
{
    SF::from(Accum::new(init, f))
}

/// The fold over time that starts at the default of its accumulator type.
pub fn accum_default<Time, A, B, F>(f: F) -> (r: SF<
    Time,
    Accum<Time, A, B, impl Callable<(Time, A, B), B>>,
>) where B: Clone + Default, F: Fn(Time, A, B) -> B + 'static
    ensures
        call_ensures(B::default, (), r.sf.value),
        has_contract(
            *r.sf.f,
            |args: (Time, A, B)| call_requires(f, args),
            |args: (Time, A, B), out: B| call_ensures(f, args, out),
        ),
{
    SF::from(Accum::new(Default::default(), f))
}

//
// Delay
//
/// A one-step latch: each step returns the value it holds and then holds the
/// input.
pub struct Delay<T> {
    pub held: T,
}

impl<T> Delay<T> {
    /// The latch that holds `init`.
    pub fn new(init: T) -> (r: Self)
        ensures
            r == (Delay { held: init }),
    {
        Delay { held: init }
    }
}

impl<T: Default> Default for Delay<T> {
    fn default() -> (r: Self)
        ensures
            call_ensures(T::default, (), r.held),
    {
        Delay { held: T::default() }
    }
}

impl<T: Clone> Clone for Delay<T> {
    fn clone(&self) -> (r: Self)
        ensures
            cloned(self.held, r.held),
    {
        Delay { held: self.held.clone() }
    }
}

impl<T: Copy> Copy for Delay<T> {

}

impl<Time, T> SignalTrans<Time> for Delay<T> {
    type Input = T;

    type Output = T;

    open spec fn can_step(self, delta: Time, input: T) -> bool {
        true
    }

    open spec fn steps_to(self, delta: Time, input: T, next: Self, output: T) -> bool {
        next == (Delay { held: input }) && output == self.held
    }

    fn step(self, _delta: Time, value: T) -> (r: (Self, T)) {
        let Delay { held: last } = self;
        (Delay { held: value }, last)
    }
}

/// The one-step delay whose first output is `init`.
pub fn delay<Time, A>(init: A) -> (r: SF<Time, Delay<A>>)
    ensures
        r == SF::<Time, Delay<A>>::wrap(Delay { held: init }),
{
    SF::from(Delay::new(init))
}

/// The one-step delay whose first output is the default of its type.
pub fn delay_default<Time, A: Default>() -> (r: SF<Time, Delay<A>>)
    ensures
        call_ensures(A::default, (), r.sf.held),
        r == SF::<Time, Delay<A>>::wrap(r.sf),
{
    SF::from(Delay::default())
}

/// A delay lags its input by exactly one step: the first output of a run
/// is the seed, and every later output is the input of the step before.
pub proof fn lemma_delay_lags<Time, T>(
    init: T,
    states: Seq<Delay<T>>,
    inputs: Seq<(Time, T)>,
    outputs: Seq<T>,
)
    requires
        is_run(states, inputs, outputs),
        states[0] == (Delay { held: init }),
    ensures
        forall|i: int|
            0 <= i < outputs.len() ==> #[trigger] outputs[i] == if i == 0 {
                init
            } else {
                inputs[i - 1].1
            },
        forall|i: int| 0 < i < states.len() ==> #[trigger] states[i].held == inputs[i - 1].1,
{
    assert forall|i: int| 0 < i < states.len() implies #[trigger] states[i].held == inputs[i
        - 1].1 by {
        assert(step_at(states, inputs, outputs, i - 1));
    }
    assert forall|i: int| 0 <= i < outputs.len() implies #[trigger] outputs[i] == if i == 0 {
        init
    } else {
        inputs[i - 1].1
    } by {
        assert(step_at(states, inputs, outputs, i));
    }
}

} // verus!
