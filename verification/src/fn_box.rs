//! A boxed function that can be called once: what a new thread runs. The
//! arguments come as a tuple: `()` for none, `(a,)` for one, `(a, b)` for
//! two.
use vstd::prelude::*;

verus! {

/// A function behind a box, called once by value with the arguments `Args`
/// and giving an `R`.
pub trait FnBox<Args, R> {
    /// Whether the function may be called with `args`.
    spec fn can_call(&self, args: Args) -> bool;

    /// Whether `r` is a result the function may give for `args`.
    spec fn gives(&self, args: Args, r: R) -> bool;

    /// Calls the function with `args`, consuming it.
    fn call_box(self: Box<Self>, args: Args) -> (r: R)
        requires
            self.can_call(args),
        ensures
            self.gives(args, r),
    ;
}

impl<R, F: FnOnce() -> R> FnBox<(), R> for F {
    open spec fn can_call(&self, args: ()) -> bool {
        call_requires(*self, ())
    }

    open spec fn gives(&self, args: (), r: R) -> bool {
        call_ensures(*self, (), r)
    }

    fn call_box(self: Box<Self>, args: ()) -> (r: R) {
        let f = *self;
        f()
    }
}

impl<A, R, F: FnOnce(A) -> R> FnBox<(A,), R> for F {
    open spec fn can_call(&self, args: (A,)) -> bool {
        call_requires(*self, args)
    }

    open spec fn gives(&self, args: (A,), r: R) -> bool {
        call_ensures(*self, args, r)
    }

    fn call_box(self: Box<Self>, args: (A,)) -> (r: R) {
        let f = *self;
        f(args.0)
    }
}

impl<A, B, R, F: FnOnce(A, B) -> R> FnBox<(A, B), R> for F {
    open spec fn can_call(&self, args: (A, B)) -> bool {
        call_requires(*self, args)
    }

    open spec fn gives(&self, args: (A, B), r: R) -> bool {
        call_ensures(*self, args, r)
    }

    fn call_box(self: Box<Self>, args: (A, B)) -> (r: R) {
        let f = *self;
        f(args.0, args.1)
    }
}

/// Calling a boxed function of no arguments is calling the function: it
/// may be called exactly when the function may, and gives what the function
/// gives.
pub proof fn law_boxed_call_is_the_call<R, F: FnOnce() -> R>(f: F, r: R)
    ensures
        <F as FnBox<(), R>>::can_call(&f, ()) == call_requires(f, ()),
        <F as FnBox<(), R>>::gives(&f, (), r) == call_ensures(f, (), r),
{
}

/// Calling a boxed function of one argument with `(a,)` is calling the
/// function with `a`: it may be called exactly when the function may, and
/// gives what the function gives.
pub proof fn law_boxed_call_with_one_argument_is_the_call<A, R, F: FnOnce(A) -> R>(f: F, args: (A,), r: R)
    ensures
        <F as FnBox<(A,), R>>::can_call(&f, args) == call_requires(f, args),
        <F as FnBox<(A,), R>>::gives(&f, args, r) == call_ensures(f, args, r),
{
}

/// Calling a boxed function of two arguments with `(a, b)` is calling the
/// function with `a` and `b`, in that order: it may be called exactly when
/// the function may, and gives what the function gives.
pub proof fn law_boxed_call_with_two_arguments_is_the_call<A, B, R, F: FnOnce(A, B) -> R>(
    f: F,
    args: (A, B),
    r: R,
)
    ensures
        <F as FnBox<(A, B), R>>::can_call(&f, args) == call_requires(f, args),
        <F as FnBox<(A, B), R>>::gives(&f, args, r) == call_ensures(f, args, r),
{
}

} // verus!
