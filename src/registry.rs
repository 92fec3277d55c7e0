//! The subscriber registry: one bounded channel per network subscriber, with fan-out and
//! pruning of subscribers whose receiving end has gone away.
use tokio::sync::mpsc::{Receiver, Sender};
use tokio::sync::mpsc::error::TrySendError;
use vstd::prelude::*;

verus! {

/// How many messages may wait in one subscriber's channel before further ones are dropped.
pub const SUBSCRIBER_CAPACITY: usize = 10;

/// One participant's voice as sent to subscribers: little-endian PCM bytes.
#[derive(Clone, Debug)]
pub struct VoiceMessage {
    pub steam_id: u64,
    pub audio_data: Vec<u8>,
}

/// What became of one attempt to hand a message to a subscriber.
#[derive(Clone, Copy, Debug, PartialEq, Eq, Structural)]
pub enum Delivery {
    /// The message is in the subscriber's channel.
    Delivered,
    /// The channel was full; the message was dropped for this subscriber only.
    Full,
    /// The receiving end is gone; the subscriber leaves the registry.
    Closed,
}

#[verifier::external_type_specification]
#[verifier::external_body]
#[verifier::reject_recursive_types(T)]
pub struct ExSender<T>(Sender<T>);

#[verifier::external_type_specification]
#[verifier::external_body]
#[verifier::reject_recursive_types(T)]
pub struct ExReceiver<T>(Receiver<T>);

/// Relies on tokio::sync::mpsc::channel, which panics on a capacity of zero or one above
/// its semaphore's limit.
#[verifier::external_body]
fn open_channel(capacity: usize) -> (Sender<VoiceMessage>, Receiver<VoiceMessage>)
    requires
        0 < capacity <= SUBSCRIBER_CAPACITY,
{
    tokio::sync::mpsc::channel(capacity)
}

/// Relies on tokio::sync::mpsc::Sender::is_closed; the answer depends on the receiving
/// side, so nothing is stated of it.
#[verifier::external_body]
fn channel_is_closed(s: &Sender<VoiceMessage>) -> bool {
    s.is_closed()
}

/// Relies on tokio::sync::mpsc::Sender::try_send, which never waits: it queues the
/// message, or reports a full or a closed channel.
#[verifier::external_body]
fn try_deliver(s: &Sender<VoiceMessage>, m: VoiceMessage) -> Delivery {
    match s.try_send(m) {
        Ok(()) => Delivery::Delivered,
        Err(TrySendError::Full(_)) => Delivery::Full,
        Err(TrySendError::Closed(_)) => Delivery::Closed,
    }
}

/// The items of `s` whose flag in `drop` is false, in their order.
pub open spec fn kept<T>(s: Seq<T>, drop: Seq<bool>) -> Seq<T>
    decreases s.len(),
{
    if s.len() == 0 {
        Seq::empty()
    } else {
        let rest = kept(s.drop_last(), drop.drop_last());
        if drop.last() {
            rest
        } else {
            rest.push(s.last())
        }
    }
}

proof fn lemma_kept_len<T>(s: Seq<T>, drop: Seq<bool>)
    ensures
        kept(s, drop).len() <= s.len(),
    decreases s.len(),
{
    if s.len() > 0 {
        lemma_kept_len(s.drop_last(), drop.drop_last());
    }
}

/// How many of the flags are set.
pub open spec fn count_set(flags: Seq<bool>) -> nat
    decreases flags.len(),
{
    if flags.len() == 0 {
        0
    } else {
        count_set(flags.drop_last()) + if flags.last() {
            1nat
        } else {
            0nat
        }
    }
}

/// Pruning by outcome loses exactly the subscribers found closed: the registry shrinks by
/// their number, and where none was closed every subscriber stays, in order.
pub proof fn lemma_pruning_drops_only_closed<T>(s: Seq<T>, closed: Seq<bool>)
    requires
        closed.len() == s.len(),
    ensures
        kept(s, closed).len() == s.len() - count_set(closed),
        count_set(closed) == 0 ==> kept(s, closed) == s,
    decreases s.len(),
{
    if s.len() > 0 {
        lemma_pruning_drops_only_closed(s.drop_last(), closed.drop_last());
        assert(s.drop_last().push(s.last()) =~= s);
    }
}

/// For each outcome, whether it means that the subscriber is gone.
pub open spec fn closed_flags(outcomes: Seq<Delivery>) -> Seq<bool> {
    Seq::new(outcomes.len(), |i: int| outcomes[i] == Delivery::Closed)
}

pub struct SubscriberRegistry {
    subscribers: Vec<Sender<VoiceMessage>>,
}

impl View for SubscriberRegistry {
    type V = Seq<Sender<VoiceMessage>>;

    closed spec fn view(&self) -> Seq<Sender<VoiceMessage>> {
        self.subscribers@
    }
}

impl SubscriberRegistry {
    pub fn new() -> (r: Self)
        ensures
            r@ == Seq::<Sender<VoiceMessage>>::empty(),
    {
        SubscriberRegistry { subscribers: Vec::new() }
    }

    pub fn len(&self) -> (r: usize)
        ensures
            r == self@.len(),
    {
        self.subscribers.len()
    }

    /// Adds a subscriber at the end and returns the stream of what it will receive.
    pub fn register(&mut self) -> (r: Receiver<VoiceMessage>)
        ensures
            final(self)@.len() == old(self)@.len() + 1,
            final(self)@.subrange(0, old(self)@.len() as int) == old(self)@,
    {
        let (tx, rx) = open_channel(SUBSCRIBER_CAPACITY);
        self.subscribers.push(tx);
        proof {
            assert(self@.subrange(0, old(self)@.len() as int) =~= old(self)@);
        }
        rx
    }

    /// Removes the subscribers flagged in `closed`, keeping the others in order.
    pub fn remove_flagged(&mut self, closed: &Vec<bool>)
        requires
            closed@.len() == old(self)@.len(),
        ensures
            final(self)@ == kept(old(self)@, closed@),
    {
        let ghost orig = self.subscribers@;
        let n = closed.len();
        let mut i: usize = 0;
        let mut j: usize = 0;
        while j < n
            invariant
                n == closed@.len(),
                n == orig.len(),
                j <= n,
                i == kept(orig.subrange(0, j as int), closed@.subrange(0, j as int)).len(),
                self.subscribers@ == kept(
                    orig.subrange(0, j as int),
                    closed@.subrange(0, j as int),
                ) + orig.subrange(j as int, n as int),
            decreases n - j,
        {
            let ghost before = kept(orig.subrange(0, j as int), closed@.subrange(0, j as int));
            proof {
                lemma_kept_len(orig.subrange(0, j as int), closed@.subrange(0, j as int));
                assert(orig.subrange(0, j + 1).drop_last() =~= orig.subrange(0, j as int));
                assert(closed@.subrange(0, j + 1).drop_last() =~= closed@.subrange(0, j as int));
            }
            if closed[j] {
                self.subscribers.remove(i);
                assert(self.subscribers@ =~= before + orig.subrange(j + 1, n as int));
            } else {
                assert(self.subscribers@ =~= before.push(orig[j as int]) + orig.subrange(
                    j + 1,
                    n as int,
                ));
                i = i + 1;
            }
            j = j + 1;
        }
        assert(orig.subrange(0, n as int) =~= orig);
        assert(closed@.subrange(0, n as int) =~= closed@);
        assert(self.subscribers@ =~= kept(orig, closed@));
    }

    /// Drops every subscriber whose channel reports closed. Returns, for each subscriber
    /// that was there before, whether it was dropped.
    pub fn prune(&mut self) -> (closed: Vec<bool>)
        ensures
            closed@.len() == old(self)@.len(),
            final(self)@ == kept(old(self)@, closed@),
    {
        let n = self.subscribers.len();
        let mut closed: Vec<bool> = Vec::with_capacity(n);
        let mut k: usize = 0;
        while k < n
            invariant
                n == self.subscribers@.len(),
                self.subscribers@ == old(self)@,
                k <= n,
                closed@.len() == k,
            decreases n - k,
        {
            let c = channel_is_closed(&self.subscribers[k]);
            closed.push(c);
            k = k + 1;
        }
        self.remove_flagged(&closed);
        closed
    }

    /// Offers `msg` to every subscriber without waiting. A subscriber whose channel is
    /// closed leaves the registry; one whose channel is full misses this message only.
    /// Returns the outcome for each subscriber that was there before, in order.
    pub fn broadcast(&mut self, msg: &VoiceMessage) -> (outcomes: Vec<Delivery>)
        ensures
            outcomes@.len() == old(self)@.len(),
            final(self)@ == kept(old(self)@, closed_flags(outcomes@)),
    {
        let n = self.subscribers.len();
        let mut outcomes: Vec<Delivery> = Vec::with_capacity(n);
        let mut closed: Vec<bool> = Vec::with_capacity(n);
        let mut k: usize = 0;
        while k < n
            invariant
                n == self.subscribers@.len(),
                self.subscribers@ == old(self)@,
                k <= n,
                outcomes@.len() == k,
                closed@ == closed_flags(outcomes@),
            decreases n - k,
        {
            let d = if channel_is_closed(&self.subscribers[k]) {
                Delivery::Closed
            } else {
                try_deliver(&self.subscribers[k], msg.clone())
            };
            outcomes.push(d);
            closed.push(d == Delivery::Closed);
            assert(closed@ =~= closed_flags(outcomes@));
            k = k + 1;
        }
        self.remove_flagged(&closed);
        outcomes
    }
}

} // verus!
