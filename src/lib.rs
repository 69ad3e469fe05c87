//! Composition of long-running producer and consumer tasks into pipelines.
//!
//! The library holds the decisions of the runtime as verified state machines:
//! the restart-on-update engine of stateful nodes, the drop policy of broadcast
//! fan-out, the step rules of plain producers and consumers, and the outcome
//! rules of the supervision combinators. The asynchronous plumbing that runs
//! them lives with the application.

mod channel;
mod deferred;
mod error;
mod fanout;
mod later;
mod node;
mod restart;
mod supervise;
mod wiring;

pub use channel::Offer;
pub use deferred::{
    run, signal_of, Defer, DeferFuture, EngineView, Signal, StateCheck, Step, Undefer, UndeferFuture,
};
pub use error::Error;
pub use fanout::{
    answers, answers_at, broadcast_step, delivered, drained_answers, fan_out, fanned, kept,
    lemma_all_closed_leaves_none, lemma_none_closed_keeps_all,
    lemma_slow_subscriber_drops_only_its_own, offered_once, queue_answer, retain_open, subscribe,
    subscribers, undrained_answers, Subscriber, SUBSCRIBER_CAPACITY,
};
pub use later::Later;
pub use node::{
    body_failed, fold_states, lemma_consumer_sees_sent_in_order, pipe, ready_values, take_state,
    take_states, Latest, Pipe, PushDriver, State,
};
pub use restart::{lemma_running_is_current, lemma_superseded_never_launched};
pub use supervise::{join_outcome, Supervisor};
pub use wiring::{Either, EmptyPusher, IntoPoller, IntoPusher, MapFn};
