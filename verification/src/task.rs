use crate::basic::{compose, identity, Compose, Lift};
use crate::event::{after, never, After, Event, Never};
use crate::func::Callable;
use crate::num::SignedNumeric;
use crate::sf::{SignalTrans, SF};
use crate::trace::{clone_is_exact, is_run, lemma_rest_is_forever, rests_with};
use vstd::prelude::*;

verus! {

/// What a task returns on a step: that it is still running, with its output,
/// or that it has stopped, with its end value.
pub enum TaskOutput<B, C> {
    Running(B),
    Stopped(C),
}

/// The type of what a task returns, seen through its two components. Only
/// `TaskOutput` has this shape; a transformer asks it of another's output to
/// say that the other is a task.
pub trait Outcome: Sized {
    type Out;

    type End;

    /// This value as a task's outcome.
    spec fn outcome(self) -> TaskOutput<Self::Out, Self::End>;

    /// The value that is the outcome `r`.
    spec fn from_outcome(r: TaskOutput<Self::Out, Self::End>) -> Self;

    /// `outcome` and `from_outcome` are inverse to each other.
    proof fn lemma_outcome_exact()
        ensures
            forall|v: Self| #[trigger] Self::from_outcome(v.outcome()) == v,
            forall|r: TaskOutput<Self::Out, Self::End>| #[trigger]
                Self::from_outcome(r).outcome() == r,
    ;

    fn into_outcome(self) -> (r: TaskOutput<Self::Out, Self::End>)
        ensures
            r == self.outcome(),
    ;
}

impl<B, C> Outcome for TaskOutput<B, C> {
    type Out = B;

    type End = C;

    open spec fn outcome(self) -> TaskOutput<B, C> {
        self
    }

    open spec fn from_outcome(r: TaskOutput<B, C>) -> Self {
        r
    }

    proof fn lemma_outcome_exact() {
    }

    fn into_outcome(self) -> (r: TaskOutput<B, C>) {
        self
    }
}

/// Whether `stop`, stepped on some clone of `input`, may emit `end`.
pub open spec fn stop_fires<Time, T, End>(stop: T, delta: Time, input: T::Input, end: End) -> bool where
    T: SignalTrans<Time, Output = Event<End>>,
    T::Input: Clone,
 {
    exists|copy: T::Input, stop_next: T|
        cloned(input, copy) && #[trigger] stop.steps_to(
            delta,
            copy,
            stop_next,
            Event::Event(end),
        )
}

/// Whether `stop`, stepped on some clone of `input`, may emit nothing and
/// become `stop_next`.
pub open spec fn stop_passes<Time, T, End>(
    stop: T,
    delta: Time,
    input: T::Input,
    stop_next: T,
) -> bool where T: SignalTrans<Time, Output = Event<End>>, T::Input: Clone {
    exists|copy: T::Input|
        cloned(input, copy) && #[trigger] stop.steps_to(
            delta,
            copy,
            stop_next,
            Event::<End>::NoEvent,
        )
}

/// Whether `stop` may be stepped on every clone of `input`.
pub open spec fn stop_can_step<Time, T, End>(stop: T, delta: Time, input: T::Input) -> bool where
    T: SignalTrans<Time, Output = Event<End>>,
    T::Input: Clone,
 {
    forall|copy: T::Input| cloned(input, copy) ==> #[trigger] stop.can_step(delta, copy)
}

//
// BasicTask
//
/// A transformer that runs until a stop condition fires. Each step asks the
/// stop condition first; once it has fired, the task is stopped for good.
pub enum BasicTask<End, S, T> {
    Running { run: S, stop: T },
    Stopped(End),
}

impl<End: Clone, S: Clone, T: Clone> Clone for BasicTask<End, S, T> {
    fn clone(&self) -> (r: Self)
        ensures
            match *self {
                BasicTask::Running { run, stop } => r matches BasicTask::Running {
                    run: run_copy,
                    stop: stop_copy,
                } && cloned(run, run_copy) && cloned(stop, stop_copy),
                BasicTask::Stopped(end) => r matches BasicTask::Stopped(end_copy) && cloned(
                    end,
                    end_copy,
                ),
            },
    {
        match self {
            BasicTask::Running { run, stop } => BasicTask::Running {
                run: run.clone(),
                stop: stop.clone(),
            },
            BasicTask::Stopped(end) => BasicTask::Stopped(end.clone()),
        }
    }
}

impl<End: Copy, S: Copy, T: Copy> Copy for BasicTask<End, S, T> {

}

impl<Time, End, S, T> SignalTrans<Time> for BasicTask<End, S, T> where
    Time: Copy,
    S: SignalTrans<Time>,
    T: SignalTrans<Time, Input = S::Input, Output = Event<End>>,
    S::Input: Clone,
    End: Clone,
 {
    type Input = S::Input;

    type Output = TaskOutput<S::Output, End>;

    open spec fn can_step(self, delta: Time, input: S::Input) -> bool {
        match self {
            BasicTask::Running { run, stop } => {
                &&& stop_can_step(stop, delta, input)
                &&& forall|stop_next: T| #[trigger]
                    stop_passes(stop, delta, input, stop_next) ==> run.can_step(delta, input)
            },
            BasicTask::Stopped(_) => true,
        }
    }

    open spec fn steps_to(
        self,
        delta: Time,
        input: S::Input,
        next: Self,
        output: TaskOutput<S::Output, End>,
    ) -> bool {
        match self {
            BasicTask::Running { run, stop } => match output {
                TaskOutput::Stopped(end) => {
                    &&& stop_fires(stop, delta, input, end)
                    &&& next matches BasicTask::Stopped(held)
                    &&& cloned(end, held)
                },
                TaskOutput::Running(out) => {
                    &&& next matches BasicTask::Running { run: run_next, stop: stop_next }
                    &&& stop_passes(stop, delta, input, stop_next)
                    &&& run.steps_to(delta, input, run_next, out)
                },
            },
            BasicTask::Stopped(end) => {
                &&& output == TaskOutput::<S::Output, End>::Stopped(end)
                &&& next matches BasicTask::Stopped(held)
                &&& cloned(end, held)
            },
        }
    }

    fn step(self, delta: Time, input: Self::Input) -> (r: (Self, Self::Output)) {
        match self {
            BasicTask::Running { run, stop } => {
                let copy = input.clone();
                let (stop_next, stop_val) = stop.step(delta, copy);
                match stop_val {
                    Event::Event(end) => {
                        assert(stop_fires(stop, delta, input, end)) by {
                            assert(stop.steps_to(delta, copy, stop_next, Event::Event(end)));
                        }
                        (BasicTask::Stopped(end.clone()), TaskOutput::Stopped(end))
                    },
                    Event::NoEvent => {
                        assert(stop_passes(stop, delta, input, stop_next)) by {
                            assert(stop.steps_to(delta, copy, stop_next, Event::<End>::NoEvent));
                        }
                        let (run_next, run_val) = run.step(delta, input);
                        (
                            BasicTask::Running { run: run_next, stop: stop_next },
                            TaskOutput::Running(run_val),
                        )
                    },
                }
            },
            BasicTask::Stopped(val) => (BasicTask::Stopped(val.clone()), TaskOutput::Stopped(val)),
        }
    }
}

/// The task that runs `run` until `stop` fires.
pub fn task<Time, End, S, T>(run: SF<Time, S>, stop: SF<Time, T>) -> (r: SF<
    Time,
    BasicTask<End, S, T>,
>) where
    Time: Copy,
    S: SignalTrans<Time>,
    T: SignalTrans<Time, Input = S::Input, Output = Event<End>>,
    S::Input: Clone,
    End: Clone,

    ensures
        r == SF::<Time, BasicTask<End, S, T>>::wrap(
            BasicTask::Running { run: run.sf, stop: stop.sf },
        ),
{
    SF::from(BasicTask::Running { run: run.into_inner(), stop: stop.into_inner() })
}

/// The task that runs `run` and never stops.
pub fn forever<Time, Out, End, S>(run: SF<Time, S>) -> (r: SF<
    Time,
    BasicTask<End, S, Never<S::Input, End>>,
>) where Time: Copy, S: SignalTrans<Time>, S::Input: Clone, End: Clone
    ensures
        r == SF::<Time, BasicTask<End, S, Never<S::Input, End>>>::wrap(
            BasicTask::Running {
                run: run.sf,
                stop: Never(std::marker::PhantomData, std::marker::PhantomData),
            },
        ),
{
    task(run, never::<Time, S::Input, End>())
}

//
// AddStop
//
/// A task with one more stop condition laid over it. Each step asks the added
/// condition first; once either it or the task has stopped, the whole is
/// stopped for good.
pub enum AddStop<End, S, T> {
    Running { task: S, stop: T },
    Stopped(End),
}

impl<End, S, T> AddStop<End, S, T> {
    /// `task`, running, with `stop` laid over it.
    pub fn new(task: S, stop: T) -> (r: Self)
        ensures
            r == (AddStop::<End, S, T>::Running { task, stop }),
    {
        AddStop::Running { task: task, stop: stop }
    }
}

impl<End: Clone, S: Clone, T: Clone> Clone for AddStop<End, S, T> {
    fn clone(&self) -> (r: Self)
        ensures
            match *self {
                AddStop::Running { task, stop } => r matches AddStop::Running {
                    task: task_copy,
                    stop: stop_copy,
                } && cloned(task, task_copy) && cloned(stop, stop_copy),
                AddStop::Stopped(end) => r matches AddStop::Stopped(end_copy) && cloned(
                    end,
                    end_copy,
                ),
            },
    {
        match self {
            AddStop::Running { task, stop } => AddStop::Running {
                task: task.clone(),
                stop: stop.clone(),
            },
            AddStop::Stopped(end) => AddStop::Stopped(end.clone()),
        }
    }
}

impl<End: Copy, S: Copy, T: Copy> Copy for AddStop<End, S, T> {

}

impl<Time, End, S, T> SignalTrans<Time> for AddStop<End, S, T> where
    Time: Copy,
    S: SignalTrans<Time>,
    S::Output: Outcome<End = End>,
    T: SignalTrans<Time, Input = S::Input, Output = Event<End>>,
    S::Input: Clone,
    End: Clone,
 {
    type Input = S::Input;

    type Output = TaskOutput<<S::Output as Outcome>::Out, End>;

    open spec fn can_step(self, delta: Time, input: S::Input) -> bool {
        match self {
            AddStop::Running { task, stop } => {
                &&& stop_can_step(stop, delta, input)
                &&& forall|stop_next: T| #[trigger]
                    stop_passes(stop, delta, input, stop_next) ==> task.can_step(delta, input)
            },
            AddStop::Stopped(_) => true,
        }
    }

    open spec fn steps_to(
        self,
        delta: Time,
        input: S::Input,
        next: Self,
        output: TaskOutput<<S::Output as Outcome>::Out, End>,
    ) -> bool {
        match self {
            AddStop::Running { task, stop } => match output {
                TaskOutput::Stopped(end) => {
                    &&& next matches AddStop::Stopped(held)
                    &&& cloned(end, held)
                    &&& {
                        ||| stop_fires(stop, delta, input, end)
                        ||| exists|stop_next: T, task_next: S| #[trigger]
                            stop_passes(stop, delta, input, stop_next) && #[trigger] task.steps_to(
                                delta,
                                input,
                                task_next,
                                <S::Output as Outcome>::from_outcome(output),
                            )
                    }
                },
                TaskOutput::Running(_) => {
                    &&& next matches AddStop::Running { task: task_next, stop: stop_next }
                    &&& stop_passes(stop, delta, input, stop_next)
                    &&& task.steps_to(
                        delta,
                        input,
                        task_next,
                        <S::Output as Outcome>::from_outcome(output),
                    )
                },
            },
            AddStop::Stopped(end) => {
                &&& output == TaskOutput::<<S::Output as Outcome>::Out, End>::Stopped(end)
                &&& next matches AddStop::Stopped(held)
                &&& cloned(end, held)
            },
        }
    }

    fn step(self, delta: Time, input: Self::Input) -> (r: (Self, Self::Output)) {
        match self {
            AddStop::Running { task, stop } => {
                let copy = input.clone();
                let (stop_next, stop_val) = stop.step(delta, copy);
                match stop_val {
                    Event::Event(val) => {
                        assert(stop_fires(stop, delta, input, val)) by {
                            assert(stop.steps_to(delta, copy, stop_next, Event::Event(val)));
                        }
                        (AddStop::Stopped(val.clone()), TaskOutput::Stopped(val))
                    },
                    Event::NoEvent => {
                        assert(stop_passes(stop, delta, input, stop_next)) by {
                            assert(stop.steps_to(delta, copy, stop_next, Event::<End>::NoEvent));
                        }
                        let (task_next, task_val) = task.step(delta, input);
                        proof {
                            <S::Output as Outcome>::lemma_outcome_exact();
                        }
                        let outcome = task_val.into_outcome();
                        assert(task.steps_to(
                            delta,
                            input,
                            task_next,
                            <S::Output as Outcome>::from_outcome(outcome),
                        ));
                        match outcome {
                            TaskOutput::Running(val) => {
                                (AddStop::new(task_next, stop_next), TaskOutput::Running(val))
                            },
                            TaskOutput::Stopped(val) => {
                                (AddStop::Stopped(val.clone()), TaskOutput::Stopped(val))
                            },
                        }
                    },
                }
            },
            AddStop::Stopped(val) => (AddStop::Stopped(val.clone()), TaskOutput::Stopped(val)),
        }
    }
}

/// The task `task`, stopped as soon as `stop` fires.
pub fn stop_with<Time, Out, End, S, T>(task: SF<Time, S>, stop: SF<Time, T>) -> (r: SF<
    Time,
    AddStop<End, S, T>,
>) where
    Time: Copy,
    S: SignalTrans<Time, Output = TaskOutput<Out, End>>,
    T: SignalTrans<Time, Input = S::Input, Output = Event<End>>,
    S::Input: Clone,
    End: Clone,

    ensures
        r == SF::<Time, AddStop<End, S, T>>::wrap(
            AddStop::Running { task: task.sf, stop: stop.sf },
        ),
{
    SF::from(AddStop::new(task.into_inner(), stop.into_inner()))
}

/// Marks the end value of a task as its own: `Stopped(end)` becomes
/// `Stopped(Some(end))`, and a running output passes unchanged.
pub struct WrapEnd;

impl<T, Out, End> Callable<(T, TaskOutput<Out, End>), TaskOutput<Out, Option<End>>> for WrapEnd {
    open spec fn admits(&self, args: (T, TaskOutput<Out, End>)) -> bool {
        true
    }

    open spec fn yields(
        &self,
        args: (T, TaskOutput<Out, End>),
        out: TaskOutput<Out, Option<End>>,
    ) -> bool {
        out == match args.1 {
            TaskOutput::Running(val) => TaskOutput::<Out, Option<End>>::Running(val),
            TaskOutput::Stopped(val) => TaskOutput::<Out, Option<End>>::Stopped(Some(val)),
        }
    }

    fn call(&self, args: (T, TaskOutput<Out, End>)) -> (out: TaskOutput<Out, Option<End>>) {
        let (_, o) = args;
        match o {
            TaskOutput::Running(val) => TaskOutput::Running(val),
            TaskOutput::Stopped(val) => TaskOutput::Stopped(Some(val)),
        }
    }
}

/// A task under a deadline: the state of `timeout(task, time)`.
pub type Timeout<Time, Out, End, S> = AddStop<
    Option<End>,
    Compose<S, Lift<Time, TaskOutput<Out, End>, TaskOutput<Out, Option<End>>, WrapEnd>>,
    After<Time, <S as SignalTrans<Time>>::Input, Option<End>>,
>;

/// The task `task` under a deadline. It stops with `Some(end)` when `task`
/// stops with `end`, and with `None` when `time` has run out first.
pub fn timeout<Time, Out, End, S>(task: SF<Time, S>, time: Time) -> (r: SF<
    Time,
    Timeout<Time, Out, End, S>,
>) where
    Time: SignedNumeric + Copy,
    S: SignalTrans<Time, Output = TaskOutput<Out, End>>,
    S::Input: Clone,
    End: Clone,

    ensures
        r == SF::<Time, Timeout<Time, Out, End, S>>::wrap(
            AddStop::Running {
                task: Compose { left: task.sf, right: Lift::of(WrapEnd) },
                stop: After::pending(time, None),
            },
        ),
{
    stop_with(compose(task, SF::from(Lift::from(WrapEnd))), after(time, None))
}

//
// SeqTask
//
/// Two tasks in sequence. While `first` runs, its output is returned; on the
/// step on which `first` says that it has stopped, `second` is stepped on
/// the same delta and input, and what it returns is returned.
pub struct SeqTask<S, T> {
    pub first: S,
    pub second: T,
}

impl<S, T> SeqTask<S, T> {
    /// `first`, then `second`.
    pub fn new(first: S, second: T) -> (r: Self)
        ensures
            r == (SeqTask { first, second }),
    {
        Self { first: first, second: second }
    }
}

impl<S: Clone, T: Clone> Clone for SeqTask<S, T> {
    fn clone(&self) -> (r: Self)
        ensures
            cloned(self.first, r.first),
            cloned(self.second, r.second),
    {
        SeqTask { first: self.first.clone(), second: self.second.clone() }
    }
}

impl<S: Copy, T: Copy> Copy for SeqTask<S, T> {

}

impl<Time, S, T> SignalTrans<Time> for SeqTask<S, T> where
    Time: Copy,
    S: SignalTrans<Time>,
    S::Output: Outcome,
    T: SignalTrans<Time, Input = S::Input>,
    T::Output: Outcome<Out = <S::Output as Outcome>::Out>,
    S::Input: Clone,
 {
    type Input = S::Input;

    type Output = TaskOutput<<T::Output as Outcome>::Out, <T::Output as Outcome>::End>;

    open spec fn can_step(self, delta: Time, input: S::Input) -> bool {
        &&& forall|copy: S::Input|
            cloned(input, copy) ==> #[trigger] self.first.can_step(delta, copy)
        &&& forall|copy: S::Input, first_next: S, first_val: S::Output|
            cloned(input, copy) && #[trigger] self.first.steps_to(
                delta,
                copy,
                first_next,
                first_val,
            ) && first_val.outcome() is Stopped ==> self.second.can_step(delta, input)
    }

    open spec fn steps_to(
        self,
        delta: Time,
        input: S::Input,
        next: Self,
        output: TaskOutput<<T::Output as Outcome>::Out, <T::Output as Outcome>::End>,
    ) -> bool {
        exists|copy: S::Input, first_val: S::Output|
            cloned(input, copy) && #[trigger] self.first.steps_to(
                delta,
                copy,
                next.first,
                first_val,
            ) && match first_val.outcome() {
                TaskOutput::Running(out) => next.second == self.second && output
                    == TaskOutput::<
                    <T::Output as Outcome>::Out,
                    <T::Output as Outcome>::End,
                >::Running(out),
                TaskOutput::Stopped(_) => self.second.steps_to(
                    delta,
                    input,
                    next.second,
                    <T::Output as Outcome>::from_outcome(output),
                ),
            }
    }

    fn step(self, delta: Time, input: Self::Input) -> (r: (Self, Self::Output)) {
        let SeqTask { first, second } = self;
        let copy = input.clone();
        let (first_next, first_val) = first.step(delta, copy);
        match first_val.into_outcome() {
            TaskOutput::Running(out) => {
                let next = SeqTask::new(first_next, second);
                assert(self.first.steps_to(delta, copy, next.first, first_val));
                (next, TaskOutput::Running(out))
            },
            TaskOutput::Stopped(_) => {
                let (second_next, second_val) = second.step(delta, input);
                proof {
                    <T::Output as Outcome>::lemma_outcome_exact();
                }
                let next = SeqTask::new(first_next, second_next);
                assert(self.first.steps_to(delta, copy, next.first, first_val));
                (next, second_val.into_outcome())
            },
        }
    }
}

/// The task that runs `first` until it stops, and `second` from that step on.
pub fn sequence<Time, Out, FirstEnd, End, S, T>(first: SF<Time, S>, second: SF<Time, T>) -> (r: SF<
    Time,
    SeqTask<S, T>,
>) where
    Time: Copy,
    S: SignalTrans<Time, Output = TaskOutput<Out, FirstEnd>>,
    T: SignalTrans<Time, Input = S::Input, Output = TaskOutput<Out, End>>,
    S::Input: Clone,

    ensures
        r == SF::<Time, SeqTask<S, T>>::wrap(SeqTask { first: first.sf, second: second.sf }),
{
    SF::from(SeqTask::new(first.into_inner(), second.into_inner()))
}

/// Builds a chain of five tasks as a balanced tree of pairs, so that a step
/// of the chain nests no deeper than the logarithm of its length.
pub fn seq_abunch() {
    let task1 = task(
        identity::<i32, i32>(),
        crate::basic::map(
            |i: i32| -> (e: Event<()>)
                {
                    if i == 1 {
                        Event::new(())
                    } else {
                        Event::NoEvent
                    }
                },
        ),
    );
    let task2 = task(
        identity(),
        crate::basic::map(
            |i: i32| -> (e: Event<i32>)
                {
                    if i == 2 {
                        Event::new(i)
                    } else {
                        Event::NoEvent
                    }
                },
        ),
    );
    let seqed = sequence(task1.clone(), task2.clone());
    let working = sequence(
        sequence(
            sequence(task1.clone(), task2.clone()),
            sequence(seqed.clone(), task1.clone()),
        ),
        task2.clone(),
    );
}

//
// Stopped is final
//
/// A task that has stopped stays stopped: from `Stopped(end)` every step, on
/// whatever delta and input, returns `Stopped(end)` and leaves the state as
/// it is.
pub proof fn lemma_stopped_task_rests<Time, End, S, T>(end: End) where
    Time: Copy,
    S: SignalTrans<Time>,
    T: SignalTrans<Time, Input = S::Input, Output = Event<End>>,
    S::Input: Clone,
    End: Clone,

    requires
        clone_is_exact::<End>(),
    ensures
        rests_with::<Time, BasicTask<End, S, T>>(BasicTask::Stopped(end), TaskOutput::Stopped(end)),
{
}

/// Once a task has stopped with `end`, it returns `Stopped(end)` for ever:
/// on every step of every run from `Stopped(end)`, whatever the deltas and
/// inputs.
pub proof fn lemma_stopped_task_stays_stopped<Time, End, S, T>(
    end: End,
    states: Seq<BasicTask<End, S, T>>,
    inputs: Seq<(Time, S::Input)>,
    outputs: Seq<TaskOutput<S::Output, End>>,
) where
    Time: Copy,
    S: SignalTrans<Time>,
    T: SignalTrans<Time, Input = S::Input, Output = Event<End>>,
    S::Input: Clone,
    End: Clone,

    requires
        clone_is_exact::<End>(),
        is_run(states, inputs, outputs),
        states[0] == BasicTask::<End, S, T>::Stopped(end),
    ensures
        forall|i: int|
            0 <= i < outputs.len() ==> outputs[i] == TaskOutput::<S::Output, End>::Stopped(end),
        forall|i: int| 0 <= i < states.len() ==> states[i] == BasicTask::<End, S, T>::Stopped(end),
{
    lemma_stopped_task_rests::<Time, End, S, T>(end);
    lemma_rest_is_forever(
        BasicTask::<End, S, T>::Stopped(end),
        TaskOutput::<S::Output, End>::Stopped(end),
        states,
        inputs,
        outputs,
    );
}

/// The step on which a task returns `Stopped(end)` leaves it at rest with
/// that output.
pub proof fn lemma_task_stop_is_final<Time, End, S, T>(
    task: BasicTask<End, S, T>,
    delta: Time,
    input: S::Input,
    next: BasicTask<End, S, T>,
    end: End,
) where
    Time: Copy,
    S: SignalTrans<Time>,
    T: SignalTrans<Time, Input = S::Input, Output = Event<End>>,
    S::Input: Clone,
    End: Clone,

    requires
        clone_is_exact::<End>(),
        task.steps_to(delta, input, next, TaskOutput::Stopped(end)),
    ensures
        next == BasicTask::<End, S, T>::Stopped(end),
        rests_with::<Time, BasicTask<End, S, T>>(next, TaskOutput::Stopped(end)),
{
}

/// A task with an added stop condition that has stopped stays stopped: from
/// `Stopped(end)` every step returns `Stopped(end)` and leaves the state as
/// it is.
pub proof fn lemma_stopped_add_stop_rests<Time, End, S, T>(end: End) where
    Time: Copy,
    S: SignalTrans<Time>,
    S::Output: Outcome<End = End>,
    T: SignalTrans<Time, Input = S::Input, Output = Event<End>>,
    S::Input: Clone,
    End: Clone,

    requires
        clone_is_exact::<End>(),
    ensures
        rests_with::<Time, AddStop<End, S, T>>(AddStop::Stopped(end), TaskOutput::Stopped(end)),
{
}

/// Once a task with an added stop condition has stopped with `end`, it
/// returns `Stopped(end)` for ever: on every step of every run from
/// `Stopped(end)`, whatever the deltas and inputs.
pub proof fn lemma_stopped_add_stop_stays_stopped<Time, End, S, T>(
    end: End,
    states: Seq<AddStop<End, S, T>>,
    inputs: Seq<(Time, S::Input)>,
    outputs: Seq<TaskOutput<<S::Output as Outcome>::Out, End>>,
) where
    Time: Copy,
    S: SignalTrans<Time>,
    S::Output: Outcome<End = End>,
    T: SignalTrans<Time, Input = S::Input, Output = Event<End>>,
    S::Input: Clone,
    End: Clone,

    requires
        clone_is_exact::<End>(),
        is_run(states, inputs, outputs),
        states[0] == AddStop::<End, S, T>::Stopped(end),
    ensures
        forall|i: int|
            0 <= i < outputs.len() ==> outputs[i] == TaskOutput::<
                <S::Output as Outcome>::Out,
                End,
            >::Stopped(end),
        forall|i: int| 0 <= i < states.len() ==> states[i] == AddStop::<End, S, T>::Stopped(end),
{
    lemma_stopped_add_stop_rests::<Time, End, S, T>(end);
    lemma_rest_is_forever(
        AddStop::<End, S, T>::Stopped(end),
        TaskOutput::<<S::Output as Outcome>::Out, End>::Stopped(end),
        states,
        inputs,
        outputs,
    );
}

/// The step on which a task with an added stop condition returns
/// `Stopped(end)` leaves it at rest with that output, whichever of the two
/// stopped it.
pub proof fn lemma_add_stop_is_final<Time, End, S, T>(
    task: AddStop<End, S, T>,
    delta: Time,
    input: S::Input,
    next: AddStop<End, S, T>,
    end: End,
) where
    Time: Copy,
    S: SignalTrans<Time>,
    S::Output: Outcome<End = End>,
    T: SignalTrans<Time, Input = S::Input, Output = Event<End>>,
    S::Input: Clone,
    End: Clone,

    requires
        clone_is_exact::<End>(),
        task.steps_to(delta, input, next, TaskOutput::Stopped(end)),
    ensures
        next == AddStop::<End, S, T>::Stopped(end),
        rests_with::<Time, AddStop<End, S, T>>(next, TaskOutput::Stopped(end)),
{
}

/// Two tasks in sequence are at rest once both are: where `first` rests with
/// an outcome that says it has stopped and `second` rests with `second_out`, the
/// sequence rests with `second_out`.
pub proof fn lemma_sequence_rests<Time, S, T>(
    seq: SeqTask<S, T>,
    first_out: S::Output,
    second_out: T::Output,
) where
    Time: Copy,
    S: SignalTrans<Time>,
    S::Output: Outcome,
    T: SignalTrans<Time, Input = S::Input>,
    T::Output: Outcome<Out = <S::Output as Outcome>::Out>,
    S::Input: Clone,

    requires
        rests_with(seq.first, first_out),
        first_out.outcome() is Stopped,
        rests_with(seq.second, second_out),
    ensures
        rests_with(seq, second_out.outcome()),
{
    <T::Output as Outcome>::lemma_outcome_exact();
    assert forall|delta: Time, input: S::Input| #[trigger] seq.can_step(delta, input) by {
        assert(seq.second.can_step(delta, input));
    }
    assert forall|
        delta: Time,
        input: S::Input,
        next: SeqTask<S, T>,
        output: TaskOutput<<T::Output as Outcome>::Out, <T::Output as Outcome>::End>,
    | #[trigger] seq.steps_to(delta, input, next, output) implies next == seq && output
        == second_out.outcome() by {
        let (copy, first_val) = choose|copy: S::Input, first_val: S::Output|
            cloned(input, copy) && #[trigger] seq.first.steps_to(
                delta,
                copy,
                next.first,
                first_val,
            ) && match first_val.outcome() {
                TaskOutput::Running(out) => next.second == seq.second && output
                    == TaskOutput::<
                    <T::Output as Outcome>::Out,
                    <T::Output as Outcome>::End,
                >::Running(out),
                TaskOutput::Stopped(_) => seq.second.steps_to(
                    delta,
                    input,
                    next.second,
                    <T::Output as Outcome>::from_outcome(output),
                ),
            };
        assert(first_val == first_out);
        assert(<T::Output as Outcome>::from_outcome(output).outcome() == output);
    }
}

} // verus!
