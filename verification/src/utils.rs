//! Small helpers.

use vstd::prelude::*;

verus! {

/// A function that is run once, at the latest when it is dropped.
pub struct RunOnDrop<F> {
    pub func: Option<F>,
}

impl<F: FnOnce()> RunOnDrop<F> {
    /// A function that is still to be run.
    pub fn new(func: F) -> (r: RunOnDrop<F>)
        ensures
            r.func == Some(func),
    {
        RunOnDrop { func: Some(func) }
    }

    /// Runs the function, unless it was run already. Returns whether it did.
    pub fn run(&mut self) -> (r: bool)
        requires
            old(self).func matches Some(func) ==> call_requires(func, ()),
        ensures
            final(self).func is None,
            r == (old(self).func is Some),
            old(self).func matches Some(func) ==> call_ensures(func, (), ()),
    {
        match self.func.take() {
            Some(func) => {
                func();
                true
            },
            None => false,
        }
    }
}

} // verus!
