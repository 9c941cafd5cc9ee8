//! Select over two or three producers of outputs, taking only what is ready and
//! preferring the producers in order.
//!
//! The library holds the decisions of a selector: which producers to poll, what
//! each of them has produced and not yet handed out, which output a poll
//! returns, and whether the task has to be woken again. Polling the producers'
//! futures, storing wakers and running the task are left to the caller, which
//! hands the outcome of each poll back in.
use vstd::multiset::Multiset;
use vstd::prelude::*;

pub mod select2;
pub mod select3;

verus! {

/// The output that a producer has made ready and that the selector has not
/// handed out yet.
pub struct Backlog<T> {
    output: Option<T>,
}

impl<T> View for Backlog<T> {
    type V = Option<T>;

    closed spec fn view(&self) -> Option<T> {
        self.output
    }
}

impl<T> Backlog<T> {
    /// An empty backlog.
    pub fn new() -> (b: Self)
        ensures
            b@ is None,
    {
        Backlog { output: None }
    }

    /// Whether an output waits to be handed out.
    pub fn has_backlog(&self) -> (r: bool)
        ensures
            r == self@ is Some,
    {
        self.output.is_some()
    }

    /// Records the outcome of a poll of the producer: a ready output is kept,
    /// a pending poll leaves the backlog empty.
    pub fn store(&mut self, polled: Option<T>)
        ensures
            final(self)@ == polled,
    {
        self.output = polled;
    }

    /// Takes the waiting output, leaving the backlog empty.
    pub fn take_backlog(&mut self) -> (out: T)
        requires
            old(self)@ is Some,
        ensures
            old(self)@ == Some(out),
            final(self)@ is None,
    {
        self.output.take().unwrap()
    }

    /// Takes the waiting output if there is one.
    pub fn try_take_backlog(&mut self) -> (out: Option<T>)
        ensures
            out == old(self)@,
            final(self)@ is None,
    {
        self.output.take()
    }
}

/// What a selector hands back from a poll: the output it returns, if any, and
/// whether the task has to be polled again because more outputs wait.
pub struct Taken<T> {
    pub output: Option<T>,
    pub wake: bool,
}

/// The outputs that a poll hands out: none or one.
pub open spec fn handed_out<T>(output: Option<T>) -> Multiset<T> {
    match output {
        Some(x) => Multiset::singleton(x),
        None => Multiset::empty(),
    }
}

} // verus!
