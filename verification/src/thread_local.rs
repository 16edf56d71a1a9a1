//! Thread-local values that are computed on first use.
use vstd::prelude::*;

verus! {

/// A lazily initialized value: `init` computes it the first time it is
/// needed, and later uses find it ready.
pub struct Key<T, I> {
    pub value: Option<T>,
    pub init: I,
}

impl<T, I: Fn() -> T> Key<T, I> {
    /// A key whose value is not computed yet.
    pub fn new(init: I) -> (k: Key<T, I>)
        ensures
            k.value is None,
            k.init == init,
    {
        Key { value: None, init }
    }

    /// Computes the value with `init` and stores it.
    pub fn init(&mut self)
        requires
            call_requires(old(self).init, ()),
        ensures
            final(self).value is Some,
            call_ensures(old(self).init, (), final(self).value->Some_0),
            final(self).init == old(self).init,
    {
        let value = (self.init)();
        self.value = Some(value);
    }

    /// Hands the value to `f`, computing it first when this is its first
    /// use.
    pub fn with<R, F: FnOnce(&T) -> R>(&mut self, f: F) -> (r: R)
        requires
            old(self).value is None ==> call_requires(old(self).init, ()),
            forall|v: T| call_requires(f, (&v,)),
        ensures
            final(self).value is Some,
            final(self).init == old(self).init,
            old(self).value is Some ==> final(self).value == old(self).value,
            old(self).value is None ==> call_ensures(old(self).init, (), final(self).value->Some_0),
            call_ensures(f, (&final(self).value->Some_0,), r),
    {
        if self.value.is_none() {
            self.init();
        }
        f(self.value.as_ref().unwrap())
    }
}

} // verus!
