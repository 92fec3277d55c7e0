//! The outbound queue: audio waiting to be delivered into the game session.
use std::collections::VecDeque;
use vstd::prelude::*;

verus! {

/// Compressed audio for one in-game client.
#[derive(Clone, Debug)]
pub struct VoicePacket {
    pub client_index: i32,
    pub audio_data: Vec<u8>,
}

/// First in, first out: entries leave in the order in which they were pushed.
pub struct OutboundQueue {
    pending: VecDeque<VoicePacket>,
}

/// The queue after `p` is pushed onto `q`.
pub open spec fn after_push(q: Seq<VoicePacket>, p: VoicePacket) -> Seq<VoicePacket> {
    q.push(p)
}

/// What one pump hands to the host: every entry, oldest first.
pub open spec fn pump_output(q: Seq<VoicePacket>) -> Seq<VoicePacket> {
    q
}

impl View for OutboundQueue {
    type V = Seq<VoicePacket>;

    closed spec fn view(&self) -> Seq<VoicePacket> {
        self.pending@
    }
}

impl OutboundQueue {
    pub fn new() -> (r: Self)
        ensures
            r@ == Seq::<VoicePacket>::empty(),
    {
        OutboundQueue { pending: VecDeque::new() }
    }

    pub fn len(&self) -> (r: usize)
        ensures
            r == self@.len(),
    {
        self.pending.len()
    }

    /// Appends audio for `client_index` at the back.
    pub fn push(&mut self, client_index: i32, audio_data: Vec<u8>)
        ensures
            final(self)@ == after_push(
                old(self)@,
                VoicePacket { client_index, audio_data },
            ),
    {
        self.pending.push_back(VoicePacket { client_index, audio_data });
    }

    /// Takes every entry out, oldest first, leaving the queue empty.
    pub fn drain(&mut self) -> (r: Vec<VoicePacket>)
        ensures
            r@ == pump_output(old(self)@),
            final(self)@ == Seq::<VoicePacket>::empty(),
    {
        let ghost orig = self.pending@;
        let n = self.pending.len();
        let mut out: Vec<VoicePacket> = Vec::with_capacity(n);
        let mut i: usize = 0;
        while i < n
            invariant
                n == orig.len(),
                i <= n,
                self.pending@ == orig.subrange(i as int, n as int),
                out@ == orig.subrange(0, i as int),
            decreases n - i,
        {
            let p = self.pending.pop_front();
            match p {
                Some(x) => {
                    out.push(x);
                },
                None => {},
            }
            assert(out@ =~= orig.subrange(0, i + 1));
            assert(self.pending@ =~= orig.subrange(i + 1, n as int));
            i = i + 1;
        }
        assert(out@ =~= orig);
        assert(self.pending@ =~= Seq::<VoicePacket>::empty());
        out
    }
}

/// Two pushes onto an empty queue followed by one pump hand the host the first entry,
/// then the second; onto any queue, they come after what was already waiting.
pub proof fn lemma_queue_fifo(q: Seq<VoicePacket>, a: VoicePacket, b: VoicePacket)
    ensures
        pump_output(after_push(after_push(q, a), b)) == q + seq![a, b],
        pump_output(after_push(after_push(Seq::empty(), a), b)) == seq![a, b],
{
    assert(q.push(a).push(b) =~= q + seq![a, b]);
    assert(Seq::<VoicePacket>::empty().push(a).push(b) =~= seq![a, b]);
}

} // verus!
