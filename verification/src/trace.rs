use crate::basic::{Compose, Identity};
use crate::sf::SignalTrans;
use vstd::prelude::*;

verus! {

/// Whether step `i` of a recorded run is a step of the transformer: from
/// `states[i]`, on `inputs[i]`, to `states[i + 1]` with `outputs[i]`.
pub open spec fn step_at<Time, S: SignalTrans<Time>>(
    states: Seq<S>,
    inputs: Seq<(Time, S::Input)>,
    outputs: Seq<S::Output>,
    i: int,
) -> bool {
    states[i].steps_to(inputs[i].0, inputs[i].1, states[i + 1], outputs[i])
}

/// Whether `states`, `inputs` and `outputs` record a run: a driver that
/// starts in `states[0]` and feeds the deltas and inputs in order may pass
/// through these states and see these outputs.
pub open spec fn is_run<Time, S: SignalTrans<Time>>(
    states: Seq<S>,
    inputs: Seq<(Time, S::Input)>,
    outputs: Seq<S::Output>,
) -> bool {
    &&& states.len() == inputs.len() + 1
    &&& outputs.len() == inputs.len()
    &&& forall|i: int| 0 <= i < inputs.len() ==> #[trigger] step_at(states, inputs, outputs, i)
}

/// Whether `s` is at rest with `out`: it may always be stepped, and every
/// step leaves it as it is and returns `out`.
pub open spec fn rests_with<Time, S: SignalTrans<Time>>(s: S, out: S::Output) -> bool {
    &&& forall|delta: Time, input: S::Input| #[trigger] s.can_step(delta, input)
    &&& forall|delta: Time, input: S::Input, next: S, output: S::Output| #[trigger]
        s.steps_to(delta, input, next, output) ==> next == s && output == out
}

/// Whether a clone of a `T` is always equal to the value it was cloned from.
pub open spec fn clone_is_exact<T: Clone>() -> bool {
    forall|a: T, b: T| #[trigger] cloned(a, b) ==> a == b
}

/// A transformer at rest stays at rest: however long a run from it is,
/// every state of the run is that state and every output is that output.
pub proof fn lemma_rest_is_forever<Time, S: SignalTrans<Time>>(
    s: S,
    out: S::Output,
    states: Seq<S>,
    inputs: Seq<(Time, S::Input)>,
    outputs: Seq<S::Output>,
)
    requires
        rests_with(s, out),
        is_run(states, inputs, outputs),
        states[0] == s,
    ensures
        forall|i: int| 0 <= i < states.len() ==> states[i] == s,
        forall|i: int| 0 <= i < outputs.len() ==> outputs[i] == out,
{
    assert forall|i: int| 0 <= i < states.len() implies states[i] == s by {
        lemma_rest_reaches(s, out, states, inputs, outputs, i);
    }
    assert forall|i: int| 0 <= i < outputs.len() implies outputs[i] == out by {
        lemma_rest_reaches(s, out, states, inputs, outputs, i);
        assert(step_at(states, inputs, outputs, i));
    }
}

proof fn lemma_rest_reaches<Time, S: SignalTrans<Time>>(
    s: S,
    out: S::Output,
    states: Seq<S>,
    inputs: Seq<(Time, S::Input)>,
    outputs: Seq<S::Output>,
    i: int,
)
    requires
        rests_with(s, out),
        is_run(states, inputs, outputs),
        states[0] == s,
        0 <= i < states.len(),
    ensures
        states[i] == s,
    decreases i,
{
    if i > 0 {
        lemma_rest_reaches(s, out, states, inputs, outputs, i - 1);
        assert(step_at(states, inputs, outputs, i - 1));
    }
}

/// What follows step `k` of a run is itself a run, from `states[k]`.
pub proof fn lemma_run_suffix<Time, S: SignalTrans<Time>>(
    states: Seq<S>,
    inputs: Seq<(Time, S::Input)>,
    outputs: Seq<S::Output>,
    k: int,
)
    requires
        is_run(states, inputs, outputs),
        0 <= k <= inputs.len(),
    ensures
        is_run(states.skip(k), inputs.skip(k), outputs.skip(k)),
{
    assert forall|i: int| 0 <= i < inputs.skip(k).len() implies #[trigger] step_at(
        states.skip(k),
        inputs.skip(k),
        outputs.skip(k),
        i,
    ) by {
        assert(step_at(states, inputs, outputs, k + i));
    }
}

/// One step of `identity` followed by `x` is one step of `x`.
pub proof fn lemma_identity_then_step<Time: Copy, X: SignalTrans<Time>>(
    c: Compose<Identity<X::Input>, X>,
    delta: Time,
    input: X::Input,
    next: Compose<Identity<X::Input>, X>,
    output: X::Output,
)
    ensures
        c.can_step(delta, input) <==> c.right.can_step(delta, input),
        c.steps_to(delta, input, next, output) <==> next.left == c.left && c.right.steps_to(
            delta,
            input,
            next.right,
            output,
        ),
{
    assert(c.left.steps_to(delta, input, c.left, input));
    if next.left == c.left && c.right.steps_to(delta, input, next.right, output) {
        assert(c.left.steps_to(delta, input, next.left, input));
    }
}

/// One step of `x` followed by `identity` is one step of `x`.
pub proof fn lemma_then_identity_step<Time: Copy, X: SignalTrans<Time>>(
    c: Compose<X, Identity<X::Output>>,
    delta: Time,
    input: X::Input,
    next: Compose<X, Identity<X::Output>>,
    output: X::Output,
)
    ensures
        c.can_step(delta, input) <==> c.left.can_step(delta, input),
        c.steps_to(delta, input, next, output) <==> next.right == c.right && c.left.steps_to(
            delta,
            input,
            next.left,
            output,
        ),
{
    if next.right == c.right && c.left.steps_to(delta, input, next.left, output) {
        assert(c.right.steps_to(delta, output, next.right, output));
    }
}

/// Composing with `identity` on the left changes no output: the runs of
/// `identity | x` are the runs of `x`, state by state, with the same inputs
/// and the same outputs.
pub proof fn lemma_identity_then_run<Time: Copy, X: SignalTrans<Time>>(
    states: Seq<Compose<Identity<X::Input>, X>>,
    inputs: Seq<(Time, X::Input)>,
    outputs: Seq<X::Output>,
)
    requires
        states.len() == inputs.len() + 1,
    ensures
        is_run(states, inputs, outputs) <==> is_run(
            states.map_values(|c: Compose<Identity<X::Input>, X>| c.right),
            inputs,
            outputs,
        ),
{
    let inner = states.map_values(|c: Compose<Identity<X::Input>, X>| c.right);
    if is_run(states, inputs, outputs) {
        assert forall|i: int| 0 <= i < inputs.len() implies #[trigger] step_at(
            inner,
            inputs,
            outputs,
            i,
        ) by {
            assert(step_at(states, inputs, outputs, i));
            lemma_identity_then_step(states[i], inputs[i].0, inputs[i].1, states[i + 1], outputs[i]);
        }
    }
    if is_run(inner, inputs, outputs) {
        assert forall|i: int| 0 <= i < inputs.len() implies #[trigger] step_at(
            states,
            inputs,
            outputs,
            i,
        ) by {
            assert(step_at(inner, inputs, outputs, i));
            lemma_identity_then_step(states[i], inputs[i].0, inputs[i].1, states[i + 1], outputs[i]);
        }
    }
}

/// Composing with `identity` on the right changes no output: the runs of
/// `x | identity` are the runs of `x`, state by state, with the same inputs
/// and the same outputs.
pub proof fn lemma_then_identity_run<Time: Copy, X: SignalTrans<Time>>(
    states: Seq<Compose<X, Identity<X::Output>>>,
    inputs: Seq<(Time, X::Input)>,
    outputs: Seq<X::Output>,
)
    requires
        states.len() == inputs.len() + 1,
    ensures
        is_run(states, inputs, outputs) <==> is_run(
            states.map_values(|c: Compose<X, Identity<X::Output>>| c.left),
            inputs,
            outputs,
        ),
{
    let inner = states.map_values(|c: Compose<X, Identity<X::Output>>| c.left);
    if is_run(states, inputs, outputs) {
        assert forall|i: int| 0 <= i < inputs.len() implies #[trigger] step_at(
            inner,
            inputs,
            outputs,
            i,
        ) by {
            assert(step_at(states, inputs, outputs, i));
            lemma_then_identity_step(states[i], inputs[i].0, inputs[i].1, states[i + 1], outputs[i]);
        }
    }
    if is_run(inner, inputs, outputs) {
        assert forall|i: int| 0 <= i < inputs.len() implies #[trigger] step_at(
            states,
            inputs,
            outputs,
            i,
        ) by {
            assert(step_at(inner, inputs, outputs, i));
            lemma_then_identity_step(states[i], inputs[i].0, inputs[i].1, states[i + 1], outputs[i]);
        }
    }
}

} // verus!
