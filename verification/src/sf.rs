use std::marker::PhantomData;
use vstd::prelude::*;
use vstd::std_specs::convert::FromSpecImpl;

verus! {

/// A signal transformer: a state that, given the time elapsed since the
/// previous step and an input, yields its successor state and an output.
///
/// The behaviour of a transformer is its step relation. `can_step` says from
/// which states a step may be taken on a delta and input, and `steps_to` says
/// which successor states and outputs that step may produce. A state is
/// consumed by the step and never mutated.
pub trait SignalTrans<Time>: Sized {
    type Input;

    type Output;

    /// Whether a step on `delta` and `input` may be taken from this state.
    spec fn can_step(self, delta: Time, input: Self::Input) -> bool;

    /// Whether a step on `delta` and `input` from this state may end in
    /// `next` with `output`.
    spec fn steps_to(
        self,
        delta: Time,
        input: Self::Input,
        next: Self,
        output: Self::Output,
    ) -> bool;

    fn step(self, delta: Time, input: Self::Input) -> (r: (Self, Self::Output))
        requires
            self.can_step(delta, input),
        ensures
            self.steps_to(delta, input, r.0, r.1),
    ;
}

/// A transparent box around one transformer, to which the composition
/// operators are attached. It adds no behaviour of its own.
pub struct SF<Time, S: SignalTrans<Time>> {
    pub sf: S,
    pub _time: PhantomData<Time>,
}

impl<Time, S: SignalTrans<Time>> SF<Time, S> {
    /// The box that holds `sf`.
    pub open spec fn wrap(sf: S) -> Self {
        SF { sf, _time: PhantomData }
    }

    /// The transformer in the box.
    pub fn into_inner(self) -> (sf: S)
        ensures
            sf == self.sf,
    {
        self.sf
    }

    /// One step of the boxed transformer, boxed again.
    pub fn step(self, delta: Time, input: S::Input) -> (r: (Self, S::Output))
        requires
            self.sf.can_step(delta, input),
        ensures
            self.sf.steps_to(delta, input, r.0.sf, r.1),
            r.0 == Self::wrap(r.0.sf),
    {
        let (sf, output) = self.sf.step(delta, input);
        (SF::from(sf), output)
    }
}

impl<Time, S: SignalTrans<Time>> FromSpecImpl<S> for SF<Time, S> {
    open spec fn obeys_from_spec() -> bool {
        true
    }

    open spec fn from_spec(sf: S) -> Self {
        Self::wrap(sf)
    }
}

impl<Time, S: SignalTrans<Time>> From<S> for SF<Time, S> {
    fn from(sf: S) -> (r: Self) {
        SF { sf, _time: PhantomData }
    }
}

impl<Time, S: SignalTrans<Time> + Clone> Clone for SF<Time, S> {
    fn clone(&self) -> (r: Self)
        ensures
            cloned(self.sf, r.sf),
            r == Self::wrap(r.sf),
    {
        SF { sf: self.sf.clone(), _time: PhantomData }
    }
}

impl<Time, S: SignalTrans<Time> + Copy> Copy for SF<Time, S> {
}

} // verus!
