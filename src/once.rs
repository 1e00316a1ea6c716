//! A value computed on first demand by a stored method.
use vstd::prelude::*;

verus! {

/// Holds a method and, once it has been run, the value it produced.
pub struct OnceLockMethod<T, F> {
    inner: Option<T>,
    method: F,
}

impl<T, F: Fn() -> T> OnceLockMethod<T, F> {
    /// The stored value, if the method has run.
    pub closed spec fn value(&self) -> Option<T> {
        self.inner
    }

    /// The method that produces the value.
    pub closed spec fn producer(&self) -> F {
        self.method
    }

    /// A lock with no value yet, producing it with `method` when asked.
    pub fn new(method: F) -> (r: Self)
        ensures
            r.value() is None,
            r.producer() == method,
    {
        OnceLockMethod { inner: None, method }
    }

    /// Runs the method and stores what it returns, replacing any value.
    pub fn init(&mut self)
        requires
            call_requires(old(self).producer(), ()),
        ensures
            final(self).producer() == old(self).producer(),
            final(self).value() is Some,
            call_ensures(old(self).producer(), (), final(self).value()->0),
    {
        let v = (self.method)();
        self.inner = Some(v);
    }

    /// A copy of the stored value, or `None` before the method has run.
    pub fn get(&self) -> (r: Option<T>) where T: Clone
        ensures
            r is Some <==> self.value() is Some,
            r is Some ==> cloned(self.value()->0, r->0),
    {
        match &self.inner {
            Some(v) => Some(v.clone()),
            None => None,
        }
    }

    /// A copy of the stored value, which must be there.
    pub fn get_unsafe(&self) -> (r: T) where T: Clone
        requires
            self.value() is Some,
        ensures
            cloned(self.value()->0, r),
    {
        self.inner.as_ref().unwrap().clone()
    }

    /// Affirms that the method has not run yet.
    pub fn unwrap_none(&self) -> (r: bool)
        requires
            self.value() is None,
        ensures
            r,
    {
        self.inner.is_none()
    }

    /// The stored value, running the method first if it has not run yet.
    pub fn get_or_init(&mut self) -> (r: T) where T: Clone
        requires
            old(self).value() is None ==> call_requires(old(self).producer(), ()),
        ensures
            final(self).producer() == old(self).producer(),
            final(self).value() is Some,
            old(self).value() is Some ==> final(self).value() == old(self).value(),
            old(self).value() is None ==> call_ensures(
                old(self).producer(),
                (),
                final(self).value()->0,
            ),
            cloned(final(self).value()->0, r),
    {
        if self.inner.is_none() {
            self.init();
        }
        self.get_unsafe()
    }
}

} // verus!
