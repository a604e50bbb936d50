use vstd::prelude::*;

verus! {

/// A function value with a contract: `admits` is its precondition and
/// `yields` relates the arguments to each result that a call may return.
///
/// Every closure and function item of two or three arguments is `Callable` on
/// the tuple of its arguments, with the contract that it was declared with.
pub trait Callable<Args, Out> {
    spec fn admits(&self, args: Args) -> bool;

    spec fn yields(&self, args: Args, out: Out) -> bool;

    fn call(&self, args: Args) -> (out: Out)
        requires
            self.admits(args),
        ensures
            self.yields(args, out),
    ;
}

/// Whether `g` may be called exactly where `pre` holds and may return exactly
/// the results that `post` relates to the arguments.
pub open spec fn has_contract<Args, Out, G: Callable<Args, Out>>(
    g: G,
    pre: spec_fn(Args) -> bool,
    post: spec_fn(Args, Out) -> bool,
) -> bool {
    &&& forall|args: Args| #[trigger] g.admits(args) == pre(args)
    &&& forall|args: Args, out: Out| #[trigger] g.yields(args, out) == post(args, out)
}

impl<T, A, R, F: Fn(T, A) -> R> Callable<(T, A), R> for F {
    open spec fn admits(&self, args: (T, A)) -> bool {
        call_requires(*self, args)
    }

    open spec fn yields(&self, args: (T, A), out: R) -> bool {
        call_ensures(*self, args, out)
    }

    fn call(&self, args: (T, A)) -> (out: R) {
        self(args.0, args.1)
    }
}

impl<T, A, B, R, F: Fn(T, A, B) -> R> Callable<(T, A, B), R> for F {
    open spec fn admits(&self, args: (T, A, B)) -> bool {
        call_requires(*self, args)
    }

    open spec fn yields(&self, args: (T, A, B), out: R) -> bool {
        call_ensures(*self, args, out)
    }

    fn call(&self, args: (T, A, B)) -> (out: R) {
        self(args.0, args.1, args.2)
    }
}

/// A function of the input alone, called with a time delta that it ignores.
pub struct Pure1<F>(pub F);

impl<T, A, R, F: Fn(A) -> R> Callable<(T, A), R> for Pure1<F> {
    open spec fn admits(&self, args: (T, A)) -> bool {
        call_requires(self.0, (args.1,))
    }

    open spec fn yields(&self, args: (T, A), out: R) -> bool {
        call_ensures(self.0, (args.1,), out)
    }

    fn call(&self, args: (T, A)) -> (out: R) {
        (self.0)(args.1)
    }
}

/// A function of the delta and two values, called with the values as a pair.
pub struct Timed2<F>(pub F);

impl<T, A, B, R, F: Fn(T, A, B) -> R> Callable<(T, (A, B)), R> for Timed2<F> {
    open spec fn admits(&self, args: (T, (A, B))) -> bool {
        call_requires(self.0, (args.0, args.1.0, args.1.1))
    }

    open spec fn yields(&self, args: (T, (A, B)), out: R) -> bool {
        call_ensures(self.0, (args.0, args.1.0, args.1.1), out)
    }

    fn call(&self, args: (T, (A, B))) -> (out: R) {
        let (delta, (a, b)) = args;
        (self.0)(delta, a, b)
    }
}

/// A function of two values, called with a delta that it ignores and the
/// values as a pair.
pub struct Pure2<F>(pub F);

impl<T, A, B, R, F: Fn(A, B) -> R> Callable<(T, (A, B)), R> for Pure2<F> {
    open spec fn admits(&self, args: (T, (A, B))) -> bool {
        call_requires(self.0, (args.1.0, args.1.1))
    }

    open spec fn yields(&self, args: (T, (A, B)), out: R) -> bool {
        call_ensures(self.0, (args.1.0, args.1.1), out)
    }

    fn call(&self, args: (T, (A, B))) -> (out: R) {
        let (_, (a, b)) = args;
        (self.0)(a, b)
    }
}

/// A function of the delta and three values, called with the values as a
/// triple.
pub struct Timed3<F>(pub F);

impl<T, A, B, C, R, F: Fn(T, A, B, C) -> R> Callable<(T, (A, B, C)), R> for Timed3<F> {
    open spec fn admits(&self, args: (T, (A, B, C))) -> bool {
        call_requires(self.0, (args.0, args.1.0, args.1.1, args.1.2))
    }

    open spec fn yields(&self, args: (T, (A, B, C)), out: R) -> bool {
        call_ensures(self.0, (args.0, args.1.0, args.1.1, args.1.2), out)
    }

    fn call(&self, args: (T, (A, B, C))) -> (out: R) {
        let (delta, (a, b, c)) = args;
        (self.0)(delta, a, b, c)
    }
}

/// A function of three values, called with a delta that it ignores and the
/// values as a triple.
pub struct Pure3<F>(pub F);

impl<T, A, B, C, R, F: Fn(A, B, C) -> R> Callable<(T, (A, B, C)), R> for Pure3<F> {
    open spec fn admits(&self, args: (T, (A, B, C))) -> bool {
        call_requires(self.0, (args.1.0, args.1.1, args.1.2))
    }

    open spec fn yields(&self, args: (T, (A, B, C)), out: R) -> bool {
        call_ensures(self.0, (args.1.0, args.1.1, args.1.2), out)
    }

    fn call(&self, args: (T, (A, B, C))) -> (out: R) {
        let (_, (a, b, c)) = args;
        (self.0)(a, b, c)
    }
}

/// A function of the delta and four values, called with the values as a
/// quadruple.
pub struct Timed4<F>(pub F);

impl<T, A, B, C, D, R, F: Fn(T, A, B, C, D) -> R> Callable<(T, (A, B, C, D)), R> for Timed4<F> {
    open spec fn admits(&self, args: (T, (A, B, C, D))) -> bool {
        call_requires(self.0, (args.0, args.1.0, args.1.1, args.1.2, args.1.3))
    }

    open spec fn yields(&self, args: (T, (A, B, C, D)), out: R) -> bool {
        call_ensures(self.0, (args.0, args.1.0, args.1.1, args.1.2, args.1.3), out)
    }

    fn call(&self, args: (T, (A, B, C, D))) -> (out: R) {
        let (delta, (a, b, c, d)) = args;
        (self.0)(delta, a, b, c, d)
    }
}

/// A function of four values, called with a delta that it ignores and the
/// values as a quadruple.
pub struct Pure4<F>(pub F);

impl<T, A, B, C, D, R, F: Fn(A, B, C, D) -> R> Callable<(T, (A, B, C, D)), R> for Pure4<F> {
    open spec fn admits(&self, args: (T, (A, B, C, D))) -> bool {
        call_requires(self.0, (args.1.0, args.1.1, args.1.2, args.1.3))
    }

    open spec fn yields(&self, args: (T, (A, B, C, D)), out: R) -> bool {
        call_ensures(self.0, (args.1.0, args.1.1, args.1.2, args.1.3), out)
    }

    fn call(&self, args: (T, (A, B, C, D))) -> (out: R) {
        let (_, (a, b, c, d)) = args;
        (self.0)(a, b, c, d)
    }
}

/// Hands a value out twice: a clone of it first, then the value itself.
pub struct Duplicate;

impl<T, A: Clone> Callable<(T, A), (A, A)> for Duplicate {
    open spec fn admits(&self, args: (T, A)) -> bool {
        true
    }

    open spec fn yields(&self, args: (T, A), out: (A, A)) -> bool {
        cloned(args.1, out.0) && out.1 == args.1
    }

    fn call(&self, args: (T, A)) -> (out: (A, A)) {
        let (_, a) = args;
        (a.clone(), a)
    }
}

} // verus!
