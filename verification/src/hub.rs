//! The broadcast hub: one publisher, any number of subscribers.
//!
//! The snapshots travel through a bounded broadcast channel of tokio, which
//! retains the last [`HUB_CAPACITY`] of them and never makes the publisher
//! wait: a subscriber that has fallen behind what the channel retains is
//! told how many snapshots it missed and goes on from the oldest retained
//! one.
//!
//! The hub adds two things. It keeps the snapshot that was published last,
//! and every new subscriber is handed that one first, before anything that
//! comes through the channel. And it numbers the snapshots in the order in
//! which they are published; a subscriber hands on a snapshot only if its
//! number is higher than that of every snapshot it has handed on before.
//! So no subscriber ever sees a snapshot after a later one, whatever the
//! channel does. That the channel loses nothing it retains, and hands each
//! snapshot on as it was published, is the channel's own matter and is not
//! proved here.

use crate::state::{WinState, WinStateView};
use tokio::sync::broadcast::error::TryRecvError;
use tokio::sync::broadcast::{Receiver, Sender};
use vstd::prelude::*;

verus! {

/// How many snapshots the channel retains for subscribers that are behind.
pub const HUB_CAPACITY: usize = 32;

/// The sending side of tokio's broadcast channel. Nothing inside it is
/// visible here.
#[verifier::external_type_specification]
#[verifier::external_body]
#[verifier::reject_recursive_types(T)]
pub struct ExSender<T>(tokio::sync::broadcast::Sender<T>);

/// A receiving side of tokio's broadcast channel. Nothing inside it is
/// visible here.
#[verifier::external_type_specification]
#[verifier::external_body]
#[verifier::reject_recursive_types(T)]
pub struct ExReceiver<T>(tokio::sync::broadcast::Receiver<T>);

/// What a subscriber is handed when it asks for its next snapshot.
#[derive(Debug)]
pub enum Delivery {
    /// The snapshot with the number `seq`.
    Snapshot { seq: u64, state: WinState },
    /// The subscriber fell behind: `missed` snapshots are gone for it, and
    /// it goes on from the oldest that the channel retains.
    Lagged { missed: u64 },
    /// The channel gave the snapshot with the number `seq` after a later
    /// one; it was dropped.
    Stale { seq: u64 },
    /// Nothing was published since the subscriber's last snapshot.
    Idle,
    /// The hub is gone, and nothing is left to hand over.
    Closed,
}

/// What a [`Delivery`] is, as mathematics.
pub enum DeliveryView {
    Snapshot { seq: nat, state: WinStateView },
    Lagged { missed: nat },
    Stale { seq: nat },
    Idle,
    Closed,
}

impl View for Delivery {
    type V = DeliveryView;

    open spec fn view(&self) -> DeliveryView {
        match *self {
            Delivery::Snapshot { seq, state } => DeliveryView::Snapshot {
                seq: seq as nat,
                state: state@,
            },
            Delivery::Lagged { missed } => DeliveryView::Lagged { missed: missed as nat },
            Delivery::Stale { seq } => DeliveryView::Stale { seq: seq as nat },
            Delivery::Idle => DeliveryView::Idle,
            Delivery::Closed => DeliveryView::Closed,
        }
    }
}

/// `tokio::sync::broadcast::Sender::new`: the sending side of a new channel
/// that retains `capacity` values, rounded up to a power of two. The call
/// panics on a capacity of zero or of more than half of `usize::MAX`, which
/// `requires` leaves out. Nothing is stated of the result.
#[verifier::external_body]
fn open_channel(capacity: usize) -> (r: Sender<(u64, WinState)>)
    requires
        0 < capacity <= usize::MAX / 2,
{
    Sender::new(capacity)
}

/// `tokio::sync::broadcast::Sender::send`: hands the numbered snapshot to
/// every receiver that is subscribed at that moment, and returns how many
/// there were. With no receiver the value is dropped and the call fails,
/// which is `None` here. How many receivers there are is not known here:
/// all that is stated is that a success has reached at least one.
#[verifier::external_body]
fn send(sender: &Sender<(u64, WinState)>, seq: u64, state: WinState) -> (r: Option<usize>)
    ensures
        r is Some ==> r->0 >= 1,
{
    sender.send((seq, state)).ok()
}

/// `tokio::sync::broadcast::Sender::subscribe`: a new receiver, which gets
/// the values that are sent after this call. Nothing is stated of the
/// result. The call panics once a quarter of `usize::MAX` receivers are
/// alive at the same time, which no machine has the memory for.
#[verifier::external_body]
fn new_receiver(sender: &Sender<(u64, WinState)>) -> (r: Receiver<(u64, WinState)>) {
    sender.subscribe()
}

/// `tokio::sync::broadcast::Receiver::try_recv`: the next value for this
/// receiver if there is one, without waiting. What comes back depends on
/// what was sent through the channel, which is not known here, so nothing
/// is stated of it.
#[verifier::external_body]
fn receive(receiver: &mut Receiver<(u64, WinState)>) -> (r: Delivery) {
    match receiver.try_recv() {
        Ok((seq, state)) => Delivery::Snapshot { seq, state },
        Err(TryRecvError::Empty) => Delivery::Idle,
        Err(TryRecvError::Lagged(missed)) => Delivery::Lagged { missed },
        Err(TryRecvError::Closed) => Delivery::Closed,
    }
}

/// What a [`BroadcastHub`] is, as mathematics.
pub struct HubView {
    /// The snapshot that was published last, or the one the hub began with.
    pub latest: WinStateView,
    /// The number of `latest`: how many snapshots were published.
    pub published: nat,
}

impl HubView {
    /// The hub after `state` was published: it is the latest, and has the
    /// next number.
    pub open spec fn published(self, state: WinStateView) -> HubView {
        HubView { latest: state, published: self.published + 1 }
    }

    /// The subscriber that joins now: the latest snapshot awaits it, under
    /// its number.
    pub open spec fn joining(self) -> SubscriberView {
        SubscriberView { greeting: Some(self.latest), last: self.published }
    }
}

/// What a [`Subscriber`] is, as mathematics.
pub struct SubscriberView {
    /// The snapshot that was the latest when the subscriber joined, as long
    /// as it has not been handed on.
    pub greeting: Option<WinStateView>,
    /// The highest number of a snapshot handed on so far; before the first,
    /// the number of the greeting.
    pub last: nat,
}

/// What becomes of what the channel gave, for a subscriber whose highest
/// number so far is `last`: a snapshot that does not come after it is
/// dropped, and everything else is handed on as it is.
pub open spec fn in_order(last: nat, received: DeliveryView) -> DeliveryView {
    match received {
        DeliveryView::Snapshot { seq, state } => if seq > last {
            received
        } else {
            DeliveryView::Stale { seq }
        },
        _ => received,
    }
}

impl SubscriberView {
    /// What the subscriber hands on when the channel would give
    /// `received`: its greeting first, and the channel is not asked;
    /// afterwards what the channel gives, kept in order.
    pub open spec fn hands_on(self, received: DeliveryView) -> DeliveryView {
        match self.greeting {
            Some(first) => DeliveryView::Snapshot { seq: self.last, state: first },
            None => in_order(self.last, received),
        }
    }

    /// The subscriber after it has handed `handed` on.
    pub open spec fn after(self, handed: DeliveryView) -> SubscriberView {
        match handed {
            DeliveryView::Snapshot { seq, .. } => SubscriberView { greeting: None, last: seq },
            _ => SubscriberView { greeting: None, last: self.last },
        }
    }
}

/// The broadcast hub.
pub struct BroadcastHub {
    latest: WinState,
    published: u64,
    sender: Sender<(u64, WinState)>,
}

/// One subscriber's end of the hub.
pub struct Subscriber {
    greeting: Option<WinState>,
    last: u64,
    receiver: Receiver<(u64, WinState)>,
}

impl View for BroadcastHub {
    type V = HubView;

    closed spec fn view(&self) -> HubView {
        HubView { latest: self.latest@, published: self.published as nat }
    }
}

impl View for Subscriber {
    type V = SubscriberView;

    closed spec fn view(&self) -> SubscriberView {
        SubscriberView {
            greeting: match self.greeting {
                Some(state) => Some(state@),
                None => None,
            },
            last: self.last as nat,
        }
    }
}

/// What the channel gave, kept in order after the number `last`.
pub fn keep_in_order(last: u64, received: Delivery) -> (r: Delivery)
    ensures
        r@ == in_order(last as nat, received@),
{
    match received {
        Delivery::Snapshot { seq, state } => {
            if seq > last {
                Delivery::Snapshot { seq, state }
            } else {
                Delivery::Stale { seq }
            }
        },
        other => other,
    }
}

impl BroadcastHub {
    /// A hub that begins with the snapshot `initial`: a subscriber that
    /// joins before anything is published is handed that.
    pub fn new(initial: WinState) -> (r: BroadcastHub)
        ensures
            r@ == (HubView { latest: initial@, published: 0 }),
    {
        BroadcastHub { latest: initial, published: 0, sender: open_channel(HUB_CAPACITY) }
    }

    /// The snapshot that was published last, or the one the hub began with.
    pub fn latest(&self) -> (r: WinState)
        ensures
            r@ == self@.latest,
    {
        self.latest.clone()
    }

    /// How many snapshots were published.
    pub fn published_count(&self) -> (r: u64)
        ensures
            r == self@.published,
    {
        self.published
    }

    /// Publishes `state`: it becomes the latest snapshot, gets the next
    /// number, and is handed to the channel, which never waits for a
    /// subscriber. The result is the number of subscribers that the channel
    /// had at that moment.
    pub fn publish(&mut self, state: WinState) -> (reached: usize)
        requires
            old(self)@.published < u64::MAX,
        ensures
            final(self)@ == old(self)@.published(state@),
    {
        self.latest = state.clone();
        self.published = self.published + 1;
        match send(&self.sender, self.published, state) {
            Some(reached) => reached,
            None => 0,
        }
    }

    /// A new subscriber. It is handed the latest snapshot first, and after
    /// it what is published from now on.
    pub fn subscribe(&self) -> (r: Subscriber)
        ensures
            r@ == self@.joining(),
    {
        let receiver = new_receiver(&self.sender);
        Subscriber { greeting: Some(self.latest.clone()), last: self.published, receiver }
    }
}

impl Subscriber {
    /// What the subscriber is handed next. The first time that is the
    /// snapshot that was the latest when it joined, and the channel is not
    /// asked. Every later time it is what the channel gives, kept in order:
    /// a snapshot comes with a number higher than every number before.
    pub fn poll(&mut self) -> (r: Delivery)
        ensures
            match old(self)@.greeting {
                Some(first) => r@ == (DeliveryView::Snapshot {
                    seq: old(self)@.last,
                    state: first,
                }),
                None => r@ matches DeliveryView::Snapshot { seq, .. } ==> seq > old(self)@.last,
            },
            final(self)@ == old(self)@.after(r@),
    {
        match self.greeting.take() {
            Some(first) => Delivery::Snapshot { seq: self.last, state: first },
            None => {
                let handed = keep_in_order(self.last, receive(&mut self.receiver));
                if let Delivery::Snapshot { seq, .. } = &handed {
                    self.last = *seq;
                }
                handed
            },
        }
    }
}

/// The subscriber after it was polled once for each value of `run`, the
/// values being what the channel gives or would give. The first poll of a
/// new subscriber hands on its greeting and does not look at the channel.
pub open spec fn after_run(s: SubscriberView, run: Seq<DeliveryView>) -> SubscriberView
    decreases run.len(),
{
    if run.len() == 0 {
        s
    } else {
        let before = after_run(s, run.drop_last());
        before.after(before.hands_on(run.last()))
    }
}

/// The numbers of the snapshots that the subscriber hands on while the
/// channel gives `run`, in the order in which it hands them on.
pub open spec fn numbers_handed_on(s: SubscriberView, run: Seq<DeliveryView>) -> Seq<nat>
    decreases run.len(),
{
    if run.len() == 0 {
        Seq::empty()
    } else {
        let before = after_run(s, run.drop_last());
        let earlier = numbers_handed_on(s, run.drop_last());
        match before.hands_on(run.last()) {
            DeliveryView::Snapshot { seq, .. } => earlier.push(seq),
            _ => earlier,
        }
    }
}

/// Whatever the channel gives, a subscriber hands the snapshots on in the
/// order of their numbers, which is the order in which they were
/// published: each number is higher than the one before it, and none is
/// lower than the number that the subscriber began with.
pub proof fn lemma_handed_on_in_publication_order(s: SubscriberView, run: Seq<DeliveryView>)
    ensures
        forall|i: int, j: int|
            0 <= i < j < numbers_handed_on(s, run).len() ==> numbers_handed_on(s, run)[i]
                < numbers_handed_on(s, run)[j],
        forall|i: int|
            0 <= i < numbers_handed_on(s, run).len() ==> s.last <= #[trigger] numbers_handed_on(
                s,
                run,
            )[i] <= after_run(s, run).last,
        s.last <= after_run(s, run).last,
        s.greeting is None ==> forall|i: int|
            0 <= i < numbers_handed_on(s, run).len() ==> s.last < #[trigger] numbers_handed_on(
                s,
                run,
            )[i],
        s.greeting is None ==> after_run(s, run).greeting is None,
        s.greeting is Some && run.len() > 0 ==> numbers_handed_on(s, run).len() > 0
            && numbers_handed_on(s, run)[0] == s.last && after_run(s, run).greeting is None,
    decreases run.len(),
{
    if run.len() > 0 {
        let shorter = run.drop_last();
        lemma_handed_on_in_publication_order(s, shorter);
        let before = after_run(s, shorter);
        let earlier = numbers_handed_on(s, shorter);
        let all = numbers_handed_on(s, run);
        if before.greeting is Some {
            assert(shorter.len() == 0);
            assert(earlier.len() == 0);
        }
        match before.hands_on(run.last()) {
            DeliveryView::Snapshot { seq, .. } => {
                assert(all == earlier.push(seq));
                assert(before.last <= seq);
                assert(before.greeting is None ==> before.last < seq);
                assert forall|i: int, j: int| 0 <= i < j < all.len() implies all[i] < all[j] by {
                    if j < earlier.len() {
                        assert(earlier[i] < earlier[j]);
                    } else {
                        assert(earlier[i] <= before.last);
                    }
                }
                assert forall|i: int| 0 <= i < all.len() implies s.last <= #[trigger] all[i]
                    <= after_run(s, run).last by {
                    if i < earlier.len() {
                        assert(earlier[i] <= before.last);
                    }
                }
                if s.greeting is None {
                    assert forall|i: int| 0 <= i < all.len() implies s.last < #[trigger] all[i] by {
                        if i < earlier.len() {
                            assert(s.last < earlier[i]);
                        }
                    }
                }
            },
            _ => {
                assert(all == earlier);
            },
        }
    }
}

/// Any two subscribers see the snapshots in the same relative order,
/// whatever the channel gives to each: where both hand on the same two
/// snapshots, the one that the first subscriber hands on earlier is also
/// the one that the second hands on earlier.
pub proof fn lemma_subscribers_agree_on_order(
    a: SubscriberView,
    run_a: Seq<DeliveryView>,
    b: SubscriberView,
    run_b: Seq<DeliveryView>,
    i: int,
    j: int,
    k: int,
    l: int,
)
    requires
        0 <= i < j < numbers_handed_on(a, run_a).len(),
        0 <= k < numbers_handed_on(b, run_b).len(),
        0 <= l < numbers_handed_on(b, run_b).len(),
        numbers_handed_on(a, run_a)[i] == numbers_handed_on(b, run_b)[k],
        numbers_handed_on(a, run_a)[j] == numbers_handed_on(b, run_b)[l],
    ensures
        k < l,
{
    lemma_handed_on_in_publication_order(a, run_a);
    lemma_handed_on_in_publication_order(b, run_b);
    if l < k {
        assert(numbers_handed_on(b, run_b)[l] < numbers_handed_on(b, run_b)[k]);
    }
}

/// A new subscriber starts from the current record: whatever the channel
/// gives, the first that it hands on is the snapshot that was the latest
/// when it joined, under that snapshot's number, and every snapshot that it
/// hands on afterwards has a higher number, so that it was published
/// later.
pub proof fn lemma_new_subscriber_starts_from_the_current_record(
    h: HubView,
    run: Seq<DeliveryView>,
)
    requires
        run.len() > 0,
    ensures
        h.joining().hands_on(run[0]) == (DeliveryView::Snapshot {
            seq: h.published,
            state: h.latest,
        }),
        numbers_handed_on(h.joining(), run)[0] == h.published,
        forall|i: int|
            0 < i < numbers_handed_on(h.joining(), run).len() ==> h.published
                < #[trigger] numbers_handed_on(h.joining(), run)[i],
        forall|state: WinStateView| (#[trigger] h.published(state)).joining().greeting == Some(state),
{
    lemma_handed_on_in_publication_order(h.joining(), run);
    assert(run.drop_last().len() == 0 ==> after_run(h.joining(), run.drop_last()) == h.joining());
}

/// What the loop that drains a subscriber to the wire does next.
#[derive(Debug)]
pub enum OutboundStep {
    /// Write this snapshot to the wire, then ask again.
    Send(WinState),
    /// Ask again at once: the subscriber has missed snapshots, or one was
    /// dropped, and it goes on with those that are retained, down to the
    /// newest.
    Again,
    /// Nothing is there: wait for the next publication, then ask again.
    Wait,
    /// The loop ends.
    Stop,
}

/// What an [`OutboundStep`] is, as mathematics.
pub enum OutboundStepView {
    Send(WinStateView),
    Again,
    Wait,
    Stop,
}

impl View for OutboundStep {
    type V = OutboundStepView;

    open spec fn view(&self) -> OutboundStepView {
        match *self {
            OutboundStep::Send(state) => OutboundStepView::Send(state@),
            OutboundStep::Again => OutboundStepView::Again,
            OutboundStep::Wait => OutboundStepView::Wait,
            OutboundStep::Stop => OutboundStepView::Stop,
        }
    }
}

/// What follows from a delivery: a snapshot is sent on, a lag or a dropped
/// snapshot is passed over, an idle channel is waited for, and a closed
/// one ends the loop.
pub open spec fn step_after(delivery: DeliveryView) -> OutboundStepView {
    match delivery {
        DeliveryView::Snapshot { state, .. } => OutboundStepView::Send(state),
        DeliveryView::Lagged { .. } => OutboundStepView::Again,
        DeliveryView::Stale { .. } => OutboundStepView::Again,
        DeliveryView::Idle => OutboundStepView::Wait,
        DeliveryView::Closed => OutboundStepView::Stop,
    }
}

/// What the outbound loop does with what its subscriber was handed.
pub fn outbound_step(delivery: Delivery) -> (r: OutboundStep)
    ensures
        r@ == step_after(delivery@),
{
    match delivery {
        Delivery::Snapshot { state, .. } => OutboundStep::Send(state),
        Delivery::Lagged { .. } => OutboundStep::Again,
        Delivery::Stale { .. } => OutboundStep::Again,
        Delivery::Idle => OutboundStep::Wait,
        Delivery::Closed => OutboundStep::Stop,
    }
}

} // verus!
