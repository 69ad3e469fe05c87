use async_channel::Receiver as ChannelReceiver;
use vstd::prelude::*;

use crate::channel::{try_receive, waiting};
use crate::deferred::{Defer, StateCheck, Undefer};
use crate::error::{internal, Error};

verus! {

/// A value that folds incoming state updates into itself; how (replace,
/// accumulate, ...) is its own policy, which `updated` states.
pub trait State<T>: Sized {
    /// The value after `state` is folded into it.
    spec fn updated(self, state: T) -> Self;

    fn update(&mut self, state: T)
        ensures
            *final(self) == old(self).updated(state),
    ;
}

/// A state cell with the default policy: an update replaces the state
/// outright. It holds no state until the first update.
pub struct Latest<T> {
    pub value: Option<T>,
}

impl<T> Latest<T> {
    /// A cell that holds no state yet.
    pub fn new() -> (r: Self)
        ensures
            r.value is None,
    {
        Latest { value: None }
    }

    /// The state held, if any.
    pub fn get(&self) -> (r: Option<&T>)
        ensures
            r == match self.value {
                Some(v) => Some(&v),
                None => None::<&T>,
            },
    {
        self.value.as_ref()
    }
}

impl<T> State<T> for Latest<T> {
    open spec fn updated(self, state: T) -> Self {
        Latest { value: Some(state) }
    }

    fn update(&mut self, state: T) {
        self.value = Some(state);
    }
}

impl<T: Copy> Defer for Latest<T> {
    /// An execution of a bare state cell is a snapshot of its state.
    type Future = Option<T>;

    open spec fn built(&self) -> Option<T> {
        self.value
    }

    fn into_fut(&self) -> (r: Option<T>) {
        self.value
    }
}

impl<T: Copy> Undefer for Latest<T> {
    type State = T;

    open spec fn merged(self, state: T) -> Self {
        Latest { value: Some(state) }
    }

    fn update(&mut self, state: T) {
        self.value = Some(state);
    }
}

/// The failure of a producer body: a producer only ever ends by failing, and
/// what its body raised is a user error.
pub fn body_failed(e: anyhow::Error) -> (r: Error)
    ensures
        r == Error::User(e),
{
    Error::User(e)
}

/// The step rule of a consumer: take one item at a time from the input
/// channel and hand it to the handler; wait for the handler before taking the
/// next item. A closed input channel is an internal error; a failing handler
/// is a user error.
pub struct PushDriver<T> {
    busy: bool,
    handed: Ghost<Seq<T>>,
}

impl<T> PushDriver<T> {
    /// Whether a handler call is in flight.
    pub closed spec fn is_busy(self) -> bool {
        self.busy
    }

    /// The items handed to the handler so far, in order.
    pub closed spec fn handed(self) -> Seq<T> {
        self.handed@
    }

    /// A consumer that has taken nothing yet.
    pub fn new() -> (r: Self)
        ensures
            !r.is_busy(),
            r.handed() == Seq::<T>::empty(),
    {
        PushDriver { busy: false, handed: Ghost(Seq::empty()) }
    }

    /// Whether a handler call is in flight.
    pub fn busy(&self) -> (r: bool)
        ensures
            r == self.is_busy(),
    {
        self.busy
    }

    /// What a receive on the input channel gave: an item, which goes to the
    /// handler, or `None` for a closed and drained channel, which ends the
    /// consumer with an internal error.
    pub fn on_received(&mut self, received: Option<T>) -> (r: Result<T, Error>)
        requires
            !old(self).is_busy(),
        ensures
            received matches Some(item) ==> r == Ok::<T, Error>(item) && final(self).is_busy()
                && final(self).handed() == old(self).handed().push(item),
            received is None ==> (r matches Err(e) && e is Internal) && *final(self) == *old(self),
    {
        match received {
            Some(item) => {
                self.busy = true;
                self.handed = Ghost(self.handed@.push(item));
                Ok(item)
            },
            None => Err(internal("receiving on a closed channel")),
        }
    }

    /// What the handler returned for the item in flight: success lets the
    /// next item be taken; a failure ends the consumer with that user error.
    pub fn on_handled(&mut self, handled: Result<(), anyhow::Error>) -> (r: Result<(), Error>)
        requires
            old(self).is_busy(),
        ensures
            final(self).handed() == old(self).handed(),
            handled is Ok ==> r is Ok && !final(self).is_busy(),
            handled matches Err(e) ==> r == Err::<(), Error>(Error::User(e)),
    {
        match handled {
            Ok(()) => {
                self.busy = false;
                Ok(())
            },
            Err(e) => Err(Error::User(e)),
        }
    }
}

/// A body after the state values `vals` are folded into it, in order.
pub open spec fn fold_states<T, P: State<T>>(body: P, vals: Seq<T>) -> P
    decreases vals.len(),
{
    if vals.len() == 0 {
        body
    } else {
        fold_states(body, vals.drop_last()).updated(vals.last())
    }
}

/// The values that a sequence of looks at a state channel found, in order.
pub open spec fn ready_values<T>(looks: Seq<StateCheck<T>>) -> Seq<T>
    decreases looks.len(),
{
    if looks.len() == 0 {
        seq![]
    } else {
        let rest = ready_values(looks.drop_last());
        match looks.last() {
            StateCheck::Ready(v) => rest.push(v),
            _ => rest,
        }
    }
}

/// Applies one look at a state channel to `body`: a value found is folded in
/// and the looking goes on (`None`); otherwise it stops, with whether the
/// channel may still deliver.
pub fn take_state<T, P: State<T>>(body: &mut P, check: StateCheck<T>) -> (r: Option<bool>)
    ensures
        check matches StateCheck::Ready(s) ==> r is None && *final(body) == old(body).updated(s),
        check is Empty ==> r == Some(true) && *final(body) == *old(body),
        check is Closed ==> r == Some(false) && *final(body) == *old(body),
{
    match check {
        StateCheck::Ready(s) => {
            body.update(s);
            None
        },
        StateCheck::Empty => Some(true),
        StateCheck::Closed => Some(false),
    }
}

/// Looks at `srx` without suspending and folds each value found into `body`,
/// in the order they were sent. It stops at a look that finds the channel
/// empty or closed, or after as many values as were waiting when it began
/// plus one. Returns whether the state channel may still deliver; a closed
/// state channel is no failure: the body keeps its last state. A channel
/// already known closed is not looked at. What each look finds depends on the
/// senders of the channel: whatever it was, the body is the fold of the values
/// found, only the last look may have found no value, and the result is false
/// exactly when that look found the channel closed.
pub fn take_states<T, P: State<T>>(body: &mut P, srx: &ChannelReceiver<T>, open: bool) -> (r: bool)
    ensures
        !open ==> !r && *final(body) == *old(body),
        open ==> (exists|looks: Seq<StateCheck<T>>|
            {
                &&& looks.len() >= 1
                &&& forall|k: int| 0 <= k < looks.len() - 1 ==> #[trigger] looks[k] is Ready
                &&& *final(body) == fold_states(*old(body), ready_values(looks))
                &&& (r <==> !(looks.last() is Closed))
            }),
{
    if !open {
        return false;
    }
    let n = waiting(srx);
    let mut i: usize = 0;
    let ghost mut looks: Seq<StateCheck<T>> = seq![];
    loop
        invariant
            open,
            i <= n,
            looks.len() == i,
            forall|k: int| 0 <= k < looks.len() ==> #[trigger] looks[k] is Ready,
            *body == fold_states(*old(body), ready_values(looks)),
        decreases n - i,
    {
        let c = try_receive(srx);
        let ghost g = c;
        let ghost before = looks;
        proof {
            looks = looks.push(g);
            assert(looks.drop_last() =~= before);
        }
        match take_state(body, c) {
            None => {
                proof {
                    let v = g->Ready_0;
                    assert(ready_values(looks) == ready_values(before).push(v));
                    assert(ready_values(before).push(v).drop_last() =~= ready_values(before));
                    assert(*body == fold_states(*old(body), ready_values(looks)));
                    assert(looks.last() is Ready);
                }
            },
            Some(still_open) => {
                assert(ready_values(looks) == ready_values(before));
                return still_open;
            },
        }
        if i == n {
            return true;
        }
        i = i + 1;
    }
}

/// A model of a producer and a consumer joined by a first-in first-out
/// channel (the consumer handing on each item it receives, as `PushDriver`
/// does), after a run: what waits in the channel, what the consumer handed to its handler,
/// and how many of the producer's items were sent.
pub struct Pipe<T> {
    pub queue: Seq<T>,
    pub handed: Seq<T>,
    pub sent: nat,
}

/// The state of a pipe after a schedule of moves: `true` is a send of the
/// producer's next item (none once all `items` are sent), `false` a receive
/// by the consumer, which hands the item at the front of the channel to its
/// handler (none while the channel is empty: the consumer waits).
pub open spec fn pipe<T>(items: Seq<T>, schedule: Seq<bool>) -> Pipe<T>
    decreases schedule.len(),
{
    if schedule.len() == 0 {
        Pipe { queue: seq![], handed: seq![], sent: 0 }
    } else {
        let p = pipe(items, schedule.drop_last());
        if schedule.last() {
            if p.sent < items.len() {
                Pipe { queue: p.queue.push(items[p.sent as int]), sent: p.sent + 1, ..p }
            } else {
                p
            }
        } else if p.queue.len() > 0 {
            Pipe { queue: p.queue.drop_first(), handed: p.handed.push(p.queue[0]), ..p }
        } else {
            p
        }
    }
}

/// A consumer sees what the producer sent, in order.
///
/// This is stated over the `pipe` model of a channel and a consumer.
///
/// Under any schedule of sends and receives, the items handed to the consumer
/// followed by those still in the channel are exactly the items sent so far,
/// in the order sent. So once all `items` are sent and the channel is
/// drained, the consumer has seen exactly `items`, as calling the producer
/// directly and recording its outputs would give.
pub proof fn lemma_consumer_sees_sent_in_order<T>(items: Seq<T>, schedule: Seq<bool>)
    ensures
        pipe(items, schedule).sent <= items.len(),
        pipe(items, schedule).handed + pipe(items, schedule).queue == items.take(
            pipe(items, schedule).sent as int,
        ),
        pipe(items, schedule).sent == items.len() && pipe(items, schedule).queue.len() == 0
            ==> pipe(items, schedule).handed == items,
    decreases schedule.len(),
{
    if schedule.len() > 0 {
        let p = pipe(items, schedule.drop_last());
        lemma_consumer_sees_sent_in_order(items, schedule.drop_last());
        let q = pipe(items, schedule);
        if schedule.last() {
            if p.sent < items.len() {
                assert(q.handed + q.queue =~= (p.handed + p.queue).push(items[p.sent as int]));
                assert(items.take(p.sent as int).push(items[p.sent as int]) =~= items.take(
                    (p.sent + 1) as int,
                ));
            }
        } else if p.queue.len() > 0 {
            assert(q.handed + q.queue =~= p.handed + p.queue);
        }
    }
    let q = pipe(items, schedule);
    if q.sent == items.len() && q.queue.len() == 0 {
        assert(q.handed + q.queue =~= q.handed);
        assert(items.take(items.len() as int) =~= items);
    }
}

} // verus!
