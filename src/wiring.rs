use vstd::prelude::*;

verus! {

/// One of two values, used where a task is in one of two phases.
pub enum Either<A, B> {
    A(A),
    B(B),
}

/// A value that can stand as a producer body.
pub trait IntoPoller<P> {
    fn into(self) -> P;
}

impl<P> IntoPoller<P> for P {
    fn into(self) -> P {
        self
    }
}

/// A value that can stand as a consumer handler.
pub trait IntoPusher<P> {
    fn into(self) -> P;
}

impl<P> IntoPusher<P> for P {
    fn into(self) -> P {
        self
    }
}

/// The consumer end of a channel before a handler is attached to it.
pub struct EmptyPusher;

/// A transform applied to each item as it is received.
pub trait MapFn<F: Send, I>: Fn(F) -> I + Send + Sync + 'static {}

impl<F: Send, I, T: Fn(F) -> I + Send + Sync + 'static> MapFn<F, I> for T {}

} // verus!
