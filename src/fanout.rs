use async_channel::Receiver as ChannelReceiver;
use async_channel::Sender as ChannelSender;
use vstd::prelude::*;

use crate::channel::{bounded_channel, try_offer, Offer};
use crate::error::{internal, Error};

verus! {

/// How many items each subscriber of a broadcast may hold before it misses
/// items.
pub const SUBSCRIBER_CAPACITY: usize = 10;

/// The sending end of one subscriber of a broadcast, with the capacity its
/// channel was made with and, as a record for proofs, every item offered to
/// it so far.
#[verifier::reject_recursive_types(T)]
pub struct Subscriber<T> {
    tx: ChannelSender<T>,
    capacity: usize,
    offered: Ghost<Seq<T>>,
}

impl<T> Subscriber<T> {
    /// The sending end of the subscriber's channel.
    pub closed spec fn tx(self) -> ChannelSender<T> {
        self.tx
    }

    /// The capacity the subscriber's channel was made with.
    pub closed spec fn capacity_spec(self) -> nat {
        self.capacity as nat
    }

    /// Every item offered to the subscriber so far, in order.
    pub closed spec fn offered(self) -> Seq<T> {
        self.offered@
    }

    /// A subscriber on a fresh channel of capacity `SUBSCRIBER_CAPACITY`,
    /// with the receiving end of that channel.
    pub fn fresh() -> (r: (Self, ChannelReceiver<T>))
        ensures
            r.0.capacity_spec() == SUBSCRIBER_CAPACITY,
            r.0.offered() == Seq::<T>::empty(),
    {
        let (tx, rx) = bounded_channel(SUBSCRIBER_CAPACITY);
        (Subscriber { tx, capacity: SUBSCRIBER_CAPACITY, offered: Ghost(Seq::empty()) }, rx)
    }

    /// The capacity the subscriber's channel was made with.
    pub fn capacity(&self) -> (r: usize)
        ensures
            r == self.capacity_spec(),
    {
        self.capacity
    }

    /// The sending end of the subscriber's channel.
    pub fn sender(&self) -> (r: &ChannelSender<T>)
        ensures
            *r == self.tx(),
    {
        &self.tx
    }

    /// Offers `item` without suspending; the answer depends on the other ends
    /// of the channel.
    pub fn offer(&mut self, item: T) -> (r: Offer)
        ensures
            final(self).tx() == old(self).tx(),
            final(self).capacity_spec() == old(self).capacity_spec(),
            final(self).offered() == old(self).offered().push(item),
    {
        self.offered = Ghost(self.offered@.push(item));
        try_offer(&self.tx, item)
    }
}

/// Subscriber `after` is `before` offered one more item, a clone of `item`.
pub open spec fn offered_once<T: Clone>(before: Subscriber<T>, after: Subscriber<T>, item: T) -> bool {
    &&& after.tx() == before.tx()
    &&& after.capacity_spec() == before.capacity_spec()
    &&& after.offered().len() == before.offered().len() + 1
    &&& after.offered().drop_last() == before.offered()
    &&& cloned(item, after.offered().last())
}

/// The subscribers `after` are `before` after one fan-out of `item`: each was
/// offered one clone of `item`, in order, and those whose answer was `Closed`
/// were dropped.
pub open spec fn fanned<T: Clone>(before: Seq<Subscriber<T>>, after: Seq<Subscriber<T>>, item: T) -> bool {
    exists|sent: Seq<Subscriber<T>>, offers: Seq<Offer>|
        {
            &&& sent.len() == before.len()
            &&& offers.len() == before.len()
            &&& forall|i: int|
                0 <= i < before.len() ==> #[trigger] offered_once(before[i], sent[i], item)
            &&& after == kept(sent, offers)
        }
}

/// Fresh subscribers for a broadcast, `k` of them, each on a channel of
/// capacity `SUBSCRIBER_CAPACITY` with nothing offered yet: the sending
/// sides, which the broadcast keeps, and the receiving ends, in the same
/// order.
pub fn subscribers<T>(k: usize) -> (r: (Vec<Subscriber<T>>, Vec<ChannelReceiver<T>>))
    ensures
        r.0@.len() == k,
        r.1@.len() == k,
        forall|i: int|
            0 <= i < k ==> (#[trigger] r.0@[i]).capacity_spec() == SUBSCRIBER_CAPACITY
                && r.0@[i].offered() == Seq::<T>::empty(),
{
    let mut txs: Vec<Subscriber<T>> = Vec::new();
    let mut rxs: Vec<ChannelReceiver<T>> = Vec::new();
    let mut i: usize = 0;
    while i < k
        invariant
            i <= k,
            txs@.len() == i,
            rxs@.len() == i,
            forall|j: int|
                0 <= j < i ==> (#[trigger] txs@[j]).capacity_spec() == SUBSCRIBER_CAPACITY
                    && txs@[j].offered() == Seq::<T>::empty(),
        decreases k - i,
    {
        let (tx, rx) = Subscriber::fresh();
        txs.push(tx);
        rxs.push(rx);
        i = i + 1;
    }
    (txs, rxs)
}

/// Adds one fresh subscriber to a broadcast, at the end, and returns the
/// receiving end of its channel.
pub fn subscribe<T>(subs: &mut Vec<Subscriber<T>>) -> (r: ChannelReceiver<T>)
    ensures
        final(subs)@.len() == old(subs)@.len() + 1,
        final(subs)@.drop_last() == old(subs)@,
        final(subs)@.last().capacity_spec() == SUBSCRIBER_CAPACITY,
        final(subs)@.last().offered() == Seq::<T>::empty(),
{
    let (tx, rx) = Subscriber::fresh();
    subs.push(tx);
    proof {
        assert(subs@.drop_last() =~= old(subs)@);
    }
    rx
}

/// The subscribers that stay after one fan-out: every one whose send did not
/// find its channel closed, in their order. A full subscriber stays.
pub open spec fn kept<X>(subs: Seq<X>, offers: Seq<Offer>) -> Seq<X>
    decreases subs.len(),
{
    if subs.len() == 0 {
        seq![]
    } else {
        let head = if offers[0] == Offer::Closed {
            seq![]
        } else {
            seq![subs[0]]
        };
        head + kept(subs.skip(1), offers.skip(1))
    }
}

/// Drops the subscribers whose send found a closed channel, keeping the
/// order of the others. The broadcast fails with an internal error exactly
/// when no subscriber is left.
pub fn retain_open<X>(subs: &mut Vec<X>, offers: &Vec<Offer>) -> (r: Result<(), Error>)
    requires
        old(subs)@.len() == offers@.len(),
    ensures
        final(subs)@ == kept(old(subs)@, offers@),
        r is Ok <==> final(subs)@.len() > 0,
        r matches Err(e) ==> e is Internal,
{
    let ghost orig = subs@;
    let mut i: usize = subs.len();
    assert(orig.skip(orig.len() as int) =~= seq![]);
    assert(subs@ =~= orig.take(i as int) + kept(orig.skip(i as int), offers@.skip(i as int)));
    while i > 0
        invariant
            i <= orig.len(),
            orig.len() == offers@.len(),
            subs@ == orig.take(i as int) + kept(orig.skip(i as int), offers@.skip(i as int)),
        decreases i,
    {
        let j: usize = i - 1;
        let ghost tail = kept(orig.skip(i as int), offers@.skip(i as int));
        assert(orig.skip(j as int).skip(1) =~= orig.skip(i as int));
        assert(offers@.skip(j as int).skip(1) =~= offers@.skip(i as int));
        assert(orig.skip(j as int)[0] == orig[j as int]);
        assert(offers@.skip(j as int)[0] == offers@[j as int]);
        if offers[j] == Offer::Closed {
            subs.remove(j);
            assert(subs@ =~= orig.take(j as int) + tail);
        } else {
            assert(subs@ =~= orig.take(j as int) + (seq![orig[j as int]] + tail));
        }
        i = j;
    }
    assert(orig.take(0) + kept(orig.skip(0), offers@.skip(0)) =~= kept(orig, offers@)) by {
        assert(orig.skip(0) =~= orig);
        assert(offers@.skip(0) =~= offers@);
    }
    if subs.len() == 0 {
        Err(internal("no receivers remain"))
    } else {
        Ok(())
    }
}

/// Offers one clone of `item` to every subscriber, in order, without
/// suspending, then drops the subscribers whose channel was found closed. A
/// full subscriber misses the item and stays. The broadcast fails with an
/// internal error exactly when no subscriber is left. Which subscriber finds
/// what depends on the other ends of the channels.
pub fn fan_out<T: Clone>(subs: &mut Vec<Subscriber<T>>, item: &T) -> (r: Result<(), Error>)
    ensures
        fanned(old(subs)@, final(subs)@, *item),
        r is Ok <==> final(subs)@.len() > 0,
        r matches Err(e) ==> e is Internal,
{
    let ghost before = subs@;
    let mut sent: Vec<Subscriber<T>> = Vec::new();
    let mut offers: Vec<Offer> = Vec::new();
    while subs.len() > 0
        invariant
            sent@.len() + subs@.len() == before.len(),
            offers@.len() == sent@.len(),
            subs@ == before.skip(sent@.len() as int),
            forall|i: int|
                0 <= i < sent@.len() ==> #[trigger] offered_once(before[i], sent@[i], *item),
        decreases subs@.len(),
    {
        let ghost k = sent@.len() as int;
        let mut s = subs.remove(0);
        assert(s == before[k]);
        let v = item.clone();
        let o = s.offer(v);
        assert(offered_once(before[k], s, *item)) by {
            assert(s.offered().drop_last() =~= before[k].offered());
        }
        sent.push(s);
        offers.push(o);
        assert(subs@ =~= before.skip(k + 1));
    }
    let ghost sent_seq = sent@;
    let ghost offer_seq = offers@;
    *subs = sent;
    let r = retain_open(subs, &offers);
    assert(fanned(before, subs@, *item)) by {
        assert(sent_seq.len() == before.len());
    }
    r
}

/// One step of a broadcast: what the receive from the producer's own channel
/// gave. An item is offered to every subscriber as `fan_out` does; a closed
/// channel (the producer let go of its sender) ends the broadcast with an
/// internal error and leaves the subscribers as they were.
pub fn broadcast_step<T: Clone>(
    subs: &mut Vec<Subscriber<T>>,
    received: Option<T>,
) -> (r: Result<(), Error>)
    ensures
        received is None ==> (r matches Err(e) && e is Internal) && final(subs)@ == old(subs)@,
        received matches Some(item) ==> fanned(old(subs)@, final(subs)@, item),
        received is Some ==> (r is Ok <==> final(subs)@.len() > 0),
        r matches Err(e) ==> e is Internal,
{
    match received {
        Some(item) => fan_out(subs, &item),
        None => Err(internal("the producer's channel is closed")),
    }
}

/// When every subscriber's channel is found closed, none is left: the
/// broadcast ends with an internal error on that item.
pub proof fn lemma_all_closed_leaves_none<X>(subs: Seq<X>, offers: Seq<Offer>)
    requires
        subs.len() == offers.len(),
        forall|k: int| 0 <= k < offers.len() ==> #[trigger] offers[k] == Offer::Closed,
    ensures
        kept(subs, offers).len() == 0,
    decreases subs.len(),
{
    if subs.len() > 0 {
        assert(offers[0] == Offer::Closed);
        let o = offers.skip(1);
        assert forall|k: int| 0 <= k < o.len() implies #[trigger] o[k] == Offer::Closed by {
            assert(o[k] == offers[k + 1]);
        }
        lemma_all_closed_leaves_none(subs.skip(1), o);
    }
}

/// A model of a bounded queue: what a queue of capacity `cap` that holds
/// `len` items answers to a non-suspending send while its receiver is alive.
pub open spec fn queue_answer(len: nat, cap: nat) -> Offer {
    if len < cap {
        Offer::Delivered
    } else {
        Offer::Full
    }
}

/// The answers of a subscriber of capacity `cap` that is never drained, to
/// `n` items in a row: before the `k`-th item it holds `min(k, cap)` items.
pub open spec fn undrained_answers(n: nat, cap: nat) -> Seq<Offer> {
    Seq::new(n, |k: int| queue_answer(if k < cap { k as nat } else { cap }, cap))
}

/// The answers of a subscriber of capacity `cap` that is drained after every
/// item, to `n` items in a row: before each item it holds none.
pub open spec fn drained_answers(n: nat, cap: nat) -> Seq<Offer> {
    Seq::new(n, |k: int| queue_answer(0, cap))
}

/// The items that reach a subscriber: those its queue took, in order.
pub open spec fn delivered<T>(items: Seq<T>, answers: Seq<Offer>) -> Seq<T>
    decreases items.len(),
{
    if items.len() == 0 {
        seq![]
    } else {
        let rest = delivered(items.drop_last(), answers.drop_last());
        if answers.last() == Offer::Delivered {
            rest.push(items.last())
        } else {
            rest
        }
    }
}

proof fn lemma_undrained<T>(items: Seq<T>, cap: nat)
    ensures
        delivered(items, undrained_answers(items.len(), cap)) == items.take(
            if items.len() < cap {
                items.len() as int
            } else {
                cap as int
            },
        ),
    decreases items.len(),
{
    let n = items.len();
    if n == 0 {
        assert(items.take(0) =~= seq![]);
    } else {
        let p = items.drop_last();
        lemma_undrained(p, cap);
        assert(undrained_answers(n, cap).drop_last() =~= undrained_answers((n - 1) as nat, cap));
        if n - 1 < cap {
            assert(p.take((n - 1) as int).push(items.last()) =~= items.take(n as int));
        } else {
            assert(p.take(cap as int) =~= items.take(cap as int));
        }
    }
}

proof fn lemma_drained<T>(items: Seq<T>, cap: nat)
    requires
        cap > 0,
    ensures
        delivered(items, drained_answers(items.len(), cap)) == items,
    decreases items.len(),
{
    let n = items.len();
    if n == 0 {
        assert(items =~= seq![]);
    } else {
        let p = items.drop_last();
        lemma_drained(p, cap);
        assert(drained_answers(n, cap).drop_last() =~= drained_answers((n - 1) as nat, cap));
        assert(p.push(items.last()) =~= items);
    }
}

/// Where no subscriber's channel is found closed, every subscriber stays, in
/// order.
pub proof fn lemma_none_closed_keeps_all<X>(subs: Seq<X>, offers: Seq<Offer>)
    requires
        subs.len() == offers.len(),
        forall|k: int| 0 <= k < offers.len() ==> #[trigger] offers[k] != Offer::Closed,
    ensures
        kept(subs, offers) == subs,
    decreases subs.len(),
{
    if subs.len() == 0 {
        assert(subs =~= seq![]);
    } else {
        assert(offers[0] != Offer::Closed);
        let o = offers.skip(1);
        assert forall|k: int| 0 <= k < o.len() implies #[trigger] o[k] != Offer::Closed by {
            assert(o[k] == offers[k + 1]);
        }
        lemma_none_closed_keeps_all(subs.skip(1), o);
        assert(seq![subs[0]] + subs.skip(1) =~= subs);
    }
}

/// The answers of a subscriber of capacity `cap` to `n` items in a row: one
/// drained after every item, or one never drained.
pub open spec fn answers(drained: bool, n: nat, cap: nat) -> Seq<Offer> {
    if drained {
        drained_answers(n, cap)
    } else {
        undrained_answers(n, cap)
    }
}

/// The answers of all subscribers to the `k`-th of `n` items, in subscriber
/// order, where subscriber `i` is drained after every item iff `drained[i]`.
pub open spec fn answers_at(drained: Seq<bool>, n: nat, cap: nat, k: int) -> Seq<Offer> {
    Seq::new(drained.len(), |i: int| answers(drained[i], n, cap)[k])
}

/// A slow subscriber loses items only for itself.
///
/// This is stated over a model of bounded queues (`queue_answer`): `fan_out`
/// offers every item to every subscriber in order (`fanned`), and the model
/// says which of those offers a queue of capacity `cap` takes. Broadcast
/// `items` to subscribers `subs` of capacity `cap`, where
/// subscriber `i` is drained after every item if `drained[i]` holds and never
/// drained otherwise. Every subscriber stays subscribed through every item (a
/// full queue is no reason to drop one); a drained subscriber receives every
/// item in order; one never drained receives only the first `cap` items (all
/// of them if there are fewer), the later ones being dropped for it alone.
pub proof fn lemma_slow_subscriber_drops_only_its_own<T, X>(
    items: Seq<T>,
    cap: nat,
    subs: Seq<X>,
    drained: Seq<bool>,
)
    requires
        cap > 0,
        drained.len() == subs.len(),
    ensures
        forall|k: int|
            0 <= k < items.len() ==> #[trigger] kept(subs, answers_at(drained, items.len(), cap, k))
                == subs,
        forall|i: int|
            0 <= i < subs.len() && #[trigger] drained[i] ==> delivered(
                items,
                answers(drained[i], items.len(), cap),
            ) == items,
        forall|i: int|
            0 <= i < subs.len() && !#[trigger] drained[i] ==> delivered(
                items,
                answers(drained[i], items.len(), cap),
            ) == items.take(
                if items.len() < cap {
                    items.len() as int
                } else {
                    cap as int
                },
            ),
{
    lemma_undrained(items, cap);
    lemma_drained(items, cap);
    assert forall|k: int| 0 <= k < items.len() implies #[trigger] kept(
        subs,
        answers_at(drained, items.len(), cap, k),
    ) == subs by {
        let o = answers_at(drained, items.len(), cap, k);
        assert forall|i: int| 0 <= i < o.len() implies #[trigger] o[i] != Offer::Closed by {
            assert(o[i] == answers(drained[i], items.len(), cap)[k]);
        }
        lemma_none_closed_keeps_all(subs, o);
    }
}

} // verus!
