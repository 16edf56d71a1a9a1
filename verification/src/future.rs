//! The interface of futures and the adaptor that maps their value.
use vstd::prelude::*;
use crate::future_value::{
    FutureValue,
    FutureValueInner,
    FutureValues,
    FutureTask,
    continuation_attached,
    continuation_dispatches,
};
use crate::task_queue::TaskQueue;

verus! {

/// A value that becomes available later; the continuation receives it.
pub trait Future {
    type Item;

    /// Attaches the continuation that receives the value.
    fn and_then<G: FnOnce(Self::Item)>(self, g: G);
}

/// A future whose value passes through `f` first.
pub struct MapFuture<Fut, F> {
    pub future: Fut,
    pub f: F,
}

/// Adaptors of futures.
pub trait FutureExt: Future + Sized {
    /// The future of this one's value passed through `f`.
    fn map<F>(self, f: F) -> (m: MapFuture<Self, F>)
        ensures
            m.future == self,
            m.f == f,
    {
        MapFuture { future: self, f }
    }
}

impl<Fut: Future> FutureExt for Fut {
}

/// The continuation of a mapped future: `g` receives the value passed
/// through `f`.
pub struct MapThen<F, G> {
    pub f: F,
    pub g: G,
}

impl<A, F> MapFuture<FutureValue<A>, F> {
    /// Attaches `g` to the mapped future: the same as attaching, with the
    /// inner future's `and_then`, the continuation `MapThen { f, g }`, which
    /// `run_map_then` runs as `g(f(value))`.
    pub fn and_then<H, G>(
        self,
        values: &mut FutureValues<A, MapThen<F, G>>,
        queue: &mut TaskQueue<FutureTask<H, MapThen<F, G>, A>>,
        g: G,
    )
        requires
            0 <= self.future.slot_spec() < old(values)@.len(),
            old(values)@[self.future.slot_spec()].future_alive,
            continuation_dispatches(old(values)@[self.future.slot_spec()]) ==> !old(queue).is_locked(),
        ensures
            continuation_attached(
                old(values)@,
                final(values)@,
                *old(queue),
                *final(queue),
                self.future.slot_spec(),
                MapThen { f: self.f, g },
            ),
    {
        let MapFuture { future, f } = self;
        future.and_then(values, queue, MapThen { f, g });
    }
}

/// Runs the continuation of a mapped future with the inner future's
/// value: `f` maps it, and `g` receives the result.
pub fn run_map_then<A, B, F: FnOnce(A) -> B, G: FnOnce(B)>(step: MapThen<F, G>, value: A)
    requires
        call_requires(step.f, (value,)),
        forall|b: B| call_ensures(step.f, (value,), b) ==> call_requires(step.g, (b,)),
    ensures
        exists|b: B| call_ensures(step.f, (value,), b) && call_ensures(step.g, (b,), ()),
{
    let MapThen { f, g } = step;
    let b = f(value);
    g(b);
}

} // verus!
