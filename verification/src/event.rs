use crate::basic::Accum;
use crate::func::{has_contract, Callable};
use crate::num::{Numeric, SignedNumeric};
use crate::sf::{SignalTrans, SF};
use crate::trace::{
    clone_is_exact, is_run, lemma_rest_is_forever, lemma_run_suffix, rests_with, step_at,
};
use std::marker::PhantomData;
use vstd::prelude::*;
use vstd::std_specs::ops::SubSpec;

verus! {

/// A discrete occurrence riding on a signal: absent, or present with a
/// payload.
pub enum Event<T> {
    NoEvent,
    Event(T),
}

impl<T> Event<T> {
    /// The occurrence that carries `value`.
    pub fn new(value: T) -> (r: Self)
        ensures
            r == Event::Event(value),
    {
        Event::Event(value)
    }

    /// Applies `f` to the payload of a present occurrence.
    pub fn map<U, F>(self, f: F) -> (r: Event<U>) where F: FnOnce(T) -> U
        requires
            self matches Event::Event(value) ==> call_requires(f, (value,)),
        ensures
            match self {
                Event::Event(value) => r matches Event::Event(mapped) && call_ensures(
                    f,
                    (value,),
                    mapped,
                ),
                Event::NoEvent => r == Event::<U>::NoEvent,
            },
    {
        match self {
            Event::Event(value) => Event::new(f(value)),
            Event::NoEvent => Event::NoEvent,
        }
    }

    /// Keeps a present occurrence only where `f` holds of its payload.
    pub fn filter<F>(self, f: F) -> (r: Self) where F: FnOnce(&T) -> bool
        requires
            self matches Event::Event(value) ==> call_requires(f, (&value,)),
        ensures
            match self {
                Event::Event(value) => exists|keep: bool| #[trigger]
                    call_ensures(f, (&value,), keep) && r == if keep {
                        self
                    } else {
                        Event::NoEvent
                    },
                Event::NoEvent => r == Event::<T>::NoEvent,
            },
    {
        match self {
            Event::Event(value) => {
                if f(&value) {
                    Event::Event(value)
                } else {
                    Event::NoEvent
                }
            },
            Event::NoEvent => Event::NoEvent,
        }
    }

    /// Puts `new` in place of the payload of a present occurrence.
    pub fn replace<U>(self, new: U) -> (r: Event<U>)
        ensures
            r == match self {
                Event::Event(_) => Event::Event(new),
                Event::NoEvent => Event::NoEvent,
            },
    {
        match self {
            Event::Event(_) => Event::new(new),
            Event::NoEvent => Event::NoEvent,
        }
    }
}

impl<A, B> Event<(A, B)> {
    /// Splits an occurrence of a pair into a pair of occurrences.
    pub fn split(self) -> (r: (Event<A>, Event<B>))
        ensures
            r == match self {
                Event::Event(pair) => (Event::Event(pair.0), Event::Event(pair.1)),
                Event::NoEvent => (Event::NoEvent, Event::NoEvent),
            },
    {
        match self {
            Event::Event((a, b)) => (Event::new(a), Event::new(b)),
            Event::NoEvent => (Event::NoEvent, Event::NoEvent),
        }
    }
}

impl<T> Default for Event<T> {
    fn default() -> (r: Self)
        ensures
            r == Event::<T>::NoEvent,
    {
        Event::NoEvent
    }
}

impl<T: Clone> Clone for Event<T> {
    fn clone(&self) -> (r: Self)
        ensures
            match *self {
                Event::Event(value) => r matches Event::Event(copy) && cloned(value, copy),
                Event::NoEvent => r == Event::<T>::NoEvent,
            },
    {
        match self {
            Event::Event(value) => Event::Event(value.clone()),
            Event::NoEvent => Event::NoEvent,
        }
    }
}

impl<T: Copy> Copy for Event<T> {

}

/// Updates an accumulator by a function of payload and accumulator when the
/// occurrence is present, and passes it on unchanged when it is absent.
pub struct FoldEvent<F>(pub F);

impl<T, A, B, F: Fn(A, B) -> B> Callable<(T, Event<A>, B), B> for FoldEvent<F> {
    open spec fn admits(&self, args: (T, Event<A>, B)) -> bool {
        args.1 matches Event::Event(value) ==> call_requires(self.0, (value, args.2))
    }

    open spec fn yields(&self, args: (T, Event<A>, B), out: B) -> bool {
        match args.1 {
            Event::Event(value) => call_ensures(self.0, (value, args.2), out),
            Event::NoEvent => out == args.2,
        }
    }

    fn call(&self, args: (T, Event<A>, B)) -> (out: B) {
        let (_, ev, acc) = args;
        match ev {
            Event::Event(value) => (self.0)(value, acc),
            Event::NoEvent => acc,
        }
    }
}

/// An accumulator that starts at `init` and is updated by `f` on each present
/// occurrence only.
pub fn fold<Time, A, B: Clone, F>(init: B, f: F) -> (r: SF<
    Time,
    Accum<Time, Event<A>, B, impl Callable<(Time, Event<A>, B), B>>,
>) where F: Fn(A, B) -> B + 'static
    ensures
        r.sf.value == init,
        has_contract(
            *r.sf.f,
            |args: (Time, Event<A>, B)|
                args.1 matches Event::Event(value) ==> call_requires(f, (value, args.2)),
            |args: (Time, Event<A>, B), out: B|
                match args.1 {
                    Event::Event(value) => call_ensures(f, (value, args.2), out),
                    Event::NoEvent => out == args.2,
                },
        ),
{
    SF::from(Accum::new(init, FoldEvent(f)))
}

//
// Never
//
/// The transformer whose occurrence is always absent.
pub struct Never<A, B>(pub PhantomData<A>, pub PhantomData<B>);

impl<A, B> Default for Never<A, B> {
    fn default() -> (r: Self)
        ensures
            r == Never::<A, B>(PhantomData, PhantomData),
    {
        Never(PhantomData, PhantomData)
    }
}

impl<A, B> Clone for Never<A, B> {
    fn clone(&self) -> (r: Self)
        ensures
            r == *self,
    {
        Never(PhantomData, PhantomData)
    }
}

impl<A, B> Copy for Never<A, B> {

}

impl<Time, A, B> SignalTrans<Time> for Never<A, B> {
    type Input = A;

    type Output = Event<B>;

    open spec fn can_step(self, delta: Time, input: A) -> bool {
        true
    }

    open spec fn steps_to(self, delta: Time, input: A, next: Self, output: Event<B>) -> bool {
        next == self && output == Event::<B>::NoEvent
    }

    fn step(self, _delta: Time, _a: A) -> (r: (Self, Event<B>)) {
        (self, Event::NoEvent)
    }
}

/// The transformer whose occurrence is always absent.
pub fn never<Time, A, B>() -> (r: SF<Time, Never<A, B>>)
    ensures
        r == SF::<Time, Never<A, B>>::wrap(Never(PhantomData, PhantomData)),
{
    SF::from(Never::default())
}

//
// After
//
/// A timer: it subtracts each delta from the time that remains, emits its
/// payload once when nothing remains, and is spent from then on.
pub enum After<Time, A, B> {
    NotYet { time: Time, value: B, _a: PhantomData<A> },
    Past,
}

impl<Time, A, B> After<Time, A, B> {
    /// The timer with `time` left to run and `value` to emit.
    pub open spec fn pending(time: Time, value: B) -> Self {
        After::NotYet { time, value, _a: PhantomData }
    }

    /// The timer that emits `value` once `time` has passed.
    pub fn new(time: Time, value: B) -> (r: Self)
        ensures
            r == Self::pending(time, value),
    {
        After::NotYet { time: time, value: value, _a: PhantomData }
    }
}

impl<Time: Numeric, A, B: Default> Default for After<Time, A, B> {
    fn default() -> (r: Self)
        ensures
            r matches After::NotYet { time, value, .. } && time == Time::zero_value()
                && call_ensures(B::default, (), value),
    {
        Self::new(Time::zero(), B::default())
    }
}

impl<Time: Clone, A, B: Clone> Clone for After<Time, A, B> {
    fn clone(&self) -> (r: Self)
        ensures
            match *self {
                After::NotYet { time, value, .. } => r matches After::NotYet {
                    time: time_copy,
                    value: value_copy,
                    ..
                } && cloned(time, time_copy) && cloned(value, value_copy),
                After::Past => r == After::<Time, A, B>::Past,
            },
    {
        match self {
            After::NotYet { time, value, .. } => After::NotYet {
                time: time.clone(),
                value: value.clone(),
                _a: PhantomData,
            },
            After::Past => After::Past,
        }
    }
}

impl<Time: Copy, A, B: Copy> Copy for After<Time, A, B> {

}

impl<Time: SignedNumeric, A, B> After<Time, A, B> {
    /// Whether a timer with `time` left fires when `delta` passes: when what
    /// remains is negative or zero.
    pub open spec fn fires(time: Time, delta: Time) -> bool {
        time.sub_spec(delta).negative() || time.sub_spec(delta) == Time::zero_value()
    }
}

impl<Time: SignedNumeric, A, B> SignalTrans<Time> for After<Time, A, B> {
    type Input = A;

    type Output = Event<B>;

    open spec fn can_step(self, delta: Time, input: A) -> bool {
        self matches After::NotYet { time, .. } ==> time.sub_req(delta)
    }

    open spec fn steps_to(self, delta: Time, input: A, next: Self, output: Event<B>) -> bool {
        match self {
            After::NotYet { time, value, .. } => {
                if Self::fires(time, delta) {
                    next == After::<Time, A, B>::Past && output == Event::Event(value)
                } else {
                    next == Self::pending(time.sub_spec(delta), value) && output
                        == Event::<B>::NoEvent
                }
            },
            After::Past => next == After::<Time, A, B>::Past && output == Event::<B>::NoEvent,
        }
    }

    fn step(self, delta: Time, _a: A) -> (r: (Self, Event<B>)) {
        proof {
            Time::lemma_operators_obey();
        }
        match self {
            After::NotYet { time, value, .. } => {
                let remaining = time - delta;
                if remaining.is_negative() || remaining == Time::zero() {
                    (After::Past, Event::new(value))
                } else {
                    (Self::new(remaining, value), Event::NoEvent)
                }
            },
            After::Past => (After::Past, Event::NoEvent),
        }
    }
}

/// The timer that emits `value` once, on the step on which `time` has
/// passed, and nothing before or after.
pub fn after<Time, A, B>(time: Time, value: B) -> (r: SF<Time, After<Time, A, B>>) where
    Time: SignedNumeric,

    ensures
        r == SF::<Time, After<Time, A, B>>::wrap(After::pending(time, value)),
{
    SF::from(After::new(time, value))
}

//
// Edge
//
/// An edge detector: it emits an occurrence on each step whose sample is true
/// after a sample that was false.
pub struct Edge {
    pub last: bool,
}

impl Edge {
    /// The detector whose last sample was `last`.
    pub fn new(last: bool) -> (r: Self)
        ensures
            r == (Edge { last }),
    {
        Self { last: last }
    }
}

impl Default for Edge {
    fn default() -> (r: Self)
        ensures
            r == (Edge { last: false }),
    {
        Edge { last: false }
    }
}

impl Clone for Edge {
    fn clone(&self) -> (r: Self)
        ensures
            r == *self,
    {
        Edge { last: self.last }
    }
}

impl Copy for Edge {

}

impl<Time> SignalTrans<Time> for Edge {
    type Input = bool;

    type Output = Event<()>;

    open spec fn can_step(self, delta: Time, input: bool) -> bool {
        true
    }

    open spec fn steps_to(self, delta: Time, input: bool, next: Self, output: Event<()>) -> bool {
        &&& next == (Edge { last: input })
        &&& output == if !self.last && input {
            Event::Event(())
        } else {
            Event::NoEvent
        }
    }

    fn step(self, _delta: Time, on: bool) -> (r: (Self, Event<()>)) {
        let ev = if !self.last && on {
            Event::new(())
        } else {
            Event::NoEvent
        };
        (Self::new(on), ev)
    }
}

/// The edge detector that takes `init` for the sample before the first.
pub fn edge_init<Time>(init: bool) -> (r: SF<Time, Edge>)
    ensures
        r == SF::<Time, Edge>::wrap(Edge { last: init }),
{
    SF::from(Edge::new(init))
}

/// The edge detector that takes the sample before the first to be false.
pub fn edge<Time>() -> (r: SF<Time, Edge>)
    ensures
        r == SF::<Time, Edge>::wrap(Edge { last: false }),
{
    edge_init(false)
}

//
// Hold
//
/// A sample-and-hold: it returns the payload of the last present occurrence,
/// and its seed until there is one.
pub struct Hold<A> {
    pub held: A,
}

impl<A> Hold<A> {
    /// The sample-and-hold that holds `init`.
    pub fn new(init: A) -> (r: Self)
        ensures
            r == (Hold { held: init }),
    {
        Self { held: init }
    }
}

impl<A: Clone> Clone for Hold<A> {
    fn clone(&self) -> (r: Self)
        ensures
            cloned(self.held, r.held),
    {
        Hold { held: self.held.clone() }
    }
}

impl<A: Copy> Copy for Hold<A> {

}

impl<Time, A: Clone> SignalTrans<Time> for Hold<A> {
    type Input = Event<A>;

    type Output = A;

    open spec fn can_step(self, delta: Time, input: Event<A>) -> bool {
        true
    }

    open spec fn steps_to(self, delta: Time, input: Event<A>, next: Self, output: A) -> bool {
        match input {
            Event::NoEvent => next == self && cloned(self.held, output),
            Event::Event(value) => output == value && cloned(value, next.held),
        }
    }

    fn step(self, _delta: Time, event: Event<A>) -> (r: (Self, A)) {
        match event {
            Event::NoEvent => {
                let value = self.held.clone();
                (self, value)
            },
            Event::Event(value) => (Self::new(value.clone()), value),
        }
    }
}

/// The sample-and-hold that returns `init` until an occurrence is present.
pub fn hold<Time, A: Clone>(init: A) -> (r: SF<Time, Hold<A>>)
    ensures
        r == SF::<Time, Hold<A>>::wrap(Hold { held: init }),
{
    SF::from(Hold::new(init))
}

/// A timer that has fired is spent: from `Past` every step, on whatever
/// delta and input, emits nothing and leaves the timer spent.
pub proof fn lemma_past_rests<Time: SignedNumeric, A, B>()
    ensures
        rests_with::<Time, After<Time, A, B>>(After::Past, Event::NoEvent),
{
}

/// A timer fires at most once: in a run, after a step on which it emits its
/// payload, every step emits nothing.
pub proof fn lemma_after_fires_once<Time: SignedNumeric, A, B>(
    states: Seq<After<Time, A, B>>,
    inputs: Seq<(Time, A)>,
    outputs: Seq<Event<B>>,
    i: int,
    j: int,
)
    requires
        is_run(states, inputs, outputs),
        0 <= i < j < outputs.len(),
        outputs[i] is Event,
    ensures
        outputs[j] is NoEvent,
{
    assert(step_at(states, inputs, outputs, i));
    lemma_run_suffix(states, inputs, outputs, i + 1);
    lemma_past_rests::<Time, A, B>();
    lemma_rest_is_forever(
        After::<Time, A, B>::Past,
        Event::<B>::NoEvent,
        states.skip(i + 1),
        inputs.skip(i + 1),
        outputs.skip(i + 1),
    );
    assert(outputs.skip(i + 1)[j - i - 1] == outputs[j]);
}

/// An edge detector emits exactly on the rising samples: the output of a
/// step is present when the sample is true and the sample before it (the
/// seed, for the first) was false, and absent otherwise.
pub proof fn lemma_edge_marks_rises<Time>(
    init: bool,
    states: Seq<Edge>,
    inputs: Seq<(Time, bool)>,
    outputs: Seq<Event<()>>,
)
    requires
        is_run(states, inputs, outputs),
        states[0] == (Edge { last: init }),
    ensures
        forall|i: int|
            0 <= i < outputs.len() ==> (#[trigger] outputs[i] is Event <==> inputs[i].1 && !(if i
                == 0 {
                init
            } else {
                inputs[i - 1].1
            })),
{
    assert forall|i: int| 0 <= i < outputs.len() implies (#[trigger] outputs[i] is Event
        <==> inputs[i].1 && !(if i == 0 {
        init
    } else {
        inputs[i - 1].1
    })) by {
        assert(step_at(states, inputs, outputs, i));
        if i > 0 {
            assert(step_at(states, inputs, outputs, i - 1));
        }
    }
}

/// The payloads of the occurrences that are present among `inputs`, in
/// order.
pub open spec fn payloads<Time, A>(inputs: Seq<(Time, Event<A>)>) -> Seq<A>
    decreases inputs.len(),
{
    if inputs.len() == 0 {
        Seq::empty()
    } else {
        let before = payloads(inputs.drop_last());
        match inputs.last().1 {
            Event::Event(value) => before.push(value),
            Event::NoEvent => before,
        }
    }
}

/// Whether the function of the fold `s` computes `g`: on a present
/// occurrence it returns `g` of payload and accumulator, and on an absent one
/// the accumulator.
pub open spec fn folds_by<Time, A, B: Clone, F: Callable<(Time, Event<A>, B), B>>(
    s: Accum<Time, Event<A>, B, F>,
    g: spec_fn(A, B) -> B,
) -> bool {
    forall|args: (Time, Event<A>, B), out: B| #[trigger]
        s.f.yields(args, out) ==> out == match args.1 {
            Event::Event(value) => g(value, args.2),
            Event::NoEvent => args.2,
        }
}

/// A fold holds the left fold of the payloads seen so far: after a run from
/// an accumulator `init`, the accumulator is `g` folded from `init` over the
/// payloads of the present occurrences, in order, however many absent ones
/// lie between them. Each output is the accumulator after its step.
pub proof fn lemma_fold_is_left_fold<Time, A, B: Clone, F: Callable<(Time, Event<A>, B), B>>(
    g: spec_fn(A, B) -> B,
    states: Seq<Accum<Time, Event<A>, B, F>>,
    inputs: Seq<(Time, Event<A>)>,
    outputs: Seq<B>,
)
    requires
        is_run(states, inputs, outputs),
        folds_by(states[0], g),
        clone_is_exact::<B>(),
    ensures
        states.last().value == payloads(inputs).fold_left(
            states[0].value,
            |acc: B, value: A| g(value, acc),
        ),
        forall|i: int| 0 <= i < outputs.len() ==> #[trigger] outputs[i] == states[i + 1].value,
    decreases inputs.len(),
{
    let h = |acc: B, value: A| g(value, acc);
    if inputs.len() > 0 {
        let n = inputs.len() - 1;
        let before = inputs.drop_last();
        assert forall|i: int| 0 <= i < before.len() implies #[trigger] step_at(
            states.drop_last(),
            before,
            outputs.drop_last(),
            i,
        ) by {
            assert(step_at(states, inputs, outputs, i));
        }
        lemma_fold_is_left_fold(g, states.drop_last(), before, outputs.drop_last());
        lemma_fold_keeps_function(states, inputs, outputs, n);
        assert(step_at(states, inputs, outputs, n));
        let acc = states[n].value;
        assert(states.drop_last().last() == states[n]);
        assert(acc == payloads(before).fold_left(states[0].value, h));
        assert(states[n].f.yields((inputs[n].0, inputs[n].1, acc), outputs[n]));
        match inputs[n].1 {
            Event::Event(value) => {
                assert(payloads(inputs) == payloads(before).push(value));
                assert(payloads(inputs).drop_last() == payloads(before));
            },
            Event::NoEvent => {},
        }
        assert forall|i: int| 0 <= i < outputs.len() implies #[trigger] outputs[i] == states[i
            + 1].value by {
            if i < n {
                assert(outputs.drop_last()[i] == states.drop_last()[i + 1].value);
            }
        }
    }
}

/// Every state of a run of a fold shares the function of the first.
proof fn lemma_fold_keeps_function<Time, A, B: Clone, F: Callable<(Time, A, B), B>>(
    states: Seq<Accum<Time, A, B, F>>,
    inputs: Seq<(Time, A)>,
    outputs: Seq<B>,
    i: int,
)
    requires
        is_run(states, inputs, outputs),
        0 <= i < states.len(),
    ensures
        states[i].f == states[0].f,
    decreases i,
{
    if i > 0 {
        lemma_fold_keeps_function(states, inputs, outputs, i - 1);
        assert(step_at(states, inputs, outputs, i - 1));
    }
}

} // verus!
