use vstd::prelude::*;

use crate::error::{internal, Error};

verus! {

/// The outcome rule of the "run all" combinators: tasks finish one by one,
/// each with an error (a task never ends well); the first user error is the
/// result, at once, without waiting for the other tasks; when every task has
/// stopped without a user error, the result is an internal error.
pub struct Supervisor {
    remaining: usize,
}

impl Supervisor {
    /// How many tasks are still running.
    pub closed spec fn running(self) -> nat {
        self.remaining as nat
    }

    /// Supervises `n` running tasks.
    pub fn new(n: usize) -> (r: Self)
        ensures
            r.running() == n,
    {
        Supervisor { remaining: n }
    }

    /// How many tasks are still running.
    pub fn remaining(&self) -> (r: usize)
        ensures
            r == self.running(),
    {
        self.remaining
    }

    /// One task finished with `outcome`. Returns the combinator's result when
    /// it is decided: the outcome itself if it is a user error, whatever the
    /// other tasks are doing; an internal error if this was the last task
    /// running; nothing yet otherwise.
    pub fn on_finished(&mut self, outcome: Error) -> (r: Option<Error>)
        requires
            old(self).running() > 0,
        ensures
            outcome is User ==> r == Some(outcome) && final(self).running() == old(self).running(),
            outcome is Internal ==> final(self).running() == old(self).running() - 1,
            outcome is Internal ==> (r is Some <==> final(self).running() == 0),
            outcome is Internal ==> (r matches Some(e) ==> e is Internal),
    {
        match outcome {
            Error::User(e) => Some(Error::User(e)),
            Error::Internal(_) => {
                self.remaining = self.remaining - 1;
                if self.remaining == 0 {
                    Some(internal("no user errors reported, but all tasks failed"))
                } else {
                    None
                }
            },
        }
    }
}

/// The outcome of a task that ran as a unit of its own: what it returned, or
/// the error that its abrupt end (a panic, a cancellation) left. The abrupt end
/// is an internal error; a returned error keeps its tag.
pub fn join_outcome(joined: Result<Error, anyhow::Error>) -> (r: Error)
    ensures
        joined matches Ok(e) ==> r == e,
        joined matches Err(j) ==> r == Error::Internal(j),
{
    match joined {
        Ok(e) => e,
        Err(j) => Error::Internal(j),
    }
}

} // verus!
