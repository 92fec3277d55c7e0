//! The relay's decisions between the game tick, the codec and the network: which packets
//! are transcoded, how buffers become codec frames and back, and the per-tick pump.
use tokio::sync::mpsc::Receiver;
use vstd::prelude::*;
use crate::frame::{frames_needed, join_frames, joined, padded_frame, split_padded};
use crate::pcm::{le_bytes_of, pcm_from_le_bytes, pcm_to_le_bytes, samples_of};
use crate::queue::{OutboundQueue, VoicePacket, pump_output};
use crate::registry::{Delivery, SubscriberRegistry, VoiceMessage, closed_flags, kept};

verus! {

/// Codec sample rate, in Hz.
pub const SAMPLE_RATE: i32 = 22050;

/// PCM samples in one codec frame.
pub const FRAME_SAMPLES: usize = 512;

/// Compressed bytes in one codec frame.
pub const FRAME_BYTES: usize = 64;

/// Participant slots, each with its own decoder and encoder.
pub const MAX_PARTICIPANTS: usize = 64;

/// Frame `k` of inbound compressed audio, zero-padded.
pub open spec fn compressed_frame(audio: Seq<u8>, k: int) -> Seq<u8> {
    padded_frame(audio, k, FRAME_BYTES as nat, 0)
}

/// Frame `k` of PCM to be encoded, padded with silence.
pub open spec fn pcm_frame(pcm: Seq<i16>, k: int) -> Seq<i16> {
    padded_frame(pcm, k, FRAME_SAMPLES as nat, 0)
}

/// Whether an inbound game packet goes through the codec: it is not empty and its slot
/// has a codec pair. Otherwise it is handed back unchanged and nothing is broadcast.
pub open spec fn transcodes(slot: usize, audio: Seq<u8>) -> bool {
    audio.len() > 0 && slot < MAX_PARTICIPANTS
}

/// Splits an inbound game packet into the compressed frames to decode for `slot`, or
/// returns `None` where the packet passes through untouched.
pub fn recv_frames(slot: usize, audio: &Vec<u8>) -> (r: Option<Vec<Vec<u8>>>)
    requires
        audio@.len() + FRAME_BYTES <= usize::MAX,
    ensures
        r is None <==> !transcodes(slot, audio@),
        r matches Some(frames) ==> {
            &&& frames@.len() == frames_needed(audio@.len(), FRAME_BYTES as nat)
            &&& forall|k: int|
                0 <= k < frames@.len() ==> #[trigger] frames@[k]@ == compressed_frame(audio@, k)
        },
{
    if audio.len() == 0 || slot >= MAX_PARTICIPANTS {
        None
    } else {
        Some(split_padded(audio, FRAME_BYTES, 0))
    }
}

/// The PCM of decoded frames laid end to end; a frame that failed to decode is silence.
pub fn decoded_pcm(decoded: &Vec<Option<Vec<i16>>>) -> (r: Vec<i16>)
    requires
        decoded@.len() * FRAME_SAMPLES <= usize::MAX,
    ensures
        r@ == joined(decoded@, FRAME_SAMPLES as nat, 0),
{
    join_frames(decoded, FRAME_SAMPLES, 0)
}

/// Cuts PCM into the frames to encode, the last one padded with silence.
pub fn encode_frames(pcm: &Vec<i16>) -> (r: Vec<Vec<i16>>)
    requires
        pcm@.len() + FRAME_SAMPLES <= usize::MAX,
    ensures
        r@.len() == frames_needed(pcm@.len(), FRAME_SAMPLES as nat),
        forall|k: int| 0 <= k < r@.len() ==> #[trigger] r@[k]@ == pcm_frame(pcm@, k),
{
    split_padded(pcm, FRAME_SAMPLES, 0)
}

/// Encoded frames laid end to end, `FRAME_BYTES` each; a frame that failed to encode is
/// zeros.
pub fn encoded_audio(encoded: &Vec<Option<Vec<u8>>>) -> (r: Vec<u8>)
    requires
        encoded@.len() * FRAME_BYTES <= usize::MAX,
    ensures
        r@ == joined(encoded@, FRAME_BYTES as nat, 0),
{
    join_frames(encoded, FRAME_BYTES, 0)
}

/// Sends a participant's decoded PCM, as little-endian bytes, to every subscriber.
pub fn broadcast_voice(registry: &mut SubscriberRegistry, steam_id: u64, pcm: &Vec<i16>) -> (r:
    Vec<Delivery>)
    requires
        2 * pcm@.len() <= usize::MAX,
    ensures
        r@.len() == old(registry)@.len(),
        final(registry)@ == kept(old(registry)@, closed_flags(r@)),
{
    let audio_data = pcm_to_le_bytes(pcm);
    let msg = VoiceMessage { steam_id, audio_data };
    registry.broadcast(&msg)
}

/// The per-tick pump: takes everything waiting for the game, oldest first, and drops the
/// subscribers whose channel has closed.
pub fn on_gameframe(queue: &mut OutboundQueue, registry: &mut SubscriberRegistry) -> (r: Vec<
    VoicePacket,
>)
    ensures
        r@ == pump_output(old(queue)@),
        final(queue)@ == Seq::<VoicePacket>::empty(),
        exists|closed: Seq<bool>|
            closed.len() == old(registry)@.len() && final(registry)@ == #[trigger] kept(
                old(registry)@,
                closed,
            ),
{
    let out = queue.drain();
    let closed = registry.prune();
    assert(closed@.len() == old(registry)@.len() && registry@ == kept(old(registry)@, closed@));
    out
}

/// The network-facing service: publishers send PCM for in-game clients, subscribers
/// receive every participant's voice.
pub struct VoiceServiceImpl {}

impl VoiceServiceImpl {
    pub fn new() -> (r: Self) {
        VoiceServiceImpl {  }
    }

    /// Reads one published packet as little-endian PCM and cuts it into the frames to
    /// encode, or returns `None` for an empty packet, which is skipped.
    pub fn publish_frames(&self, audio: &Vec<u8>) -> (r: Option<Vec<Vec<i16>>>)
        requires
            audio@.len() + 2 * FRAME_SAMPLES <= usize::MAX,
        ensures
            r is None <==> audio@.len() == 0,
            r matches Some(frames) ==> {
                &&& frames@.len() == frames_needed(samples_of(audio@).len(), FRAME_SAMPLES as nat)
                &&& forall|k: int|
                    0 <= k < frames@.len() ==> #[trigger] frames@[k]@ == pcm_frame(
                        samples_of(audio@),
                        k,
                    )
            },
    {
        if audio.len() == 0 {
            None
        } else {
            let pcm = pcm_from_le_bytes(audio);
            Some(encode_frames(&pcm))
        }
    }

    /// Puts the encoded frames of one published packet at the back of the queue for
    /// `client_index`.
    pub fn deliver_published(
        &self,
        queue: &mut OutboundQueue,
        client_index: i32,
        encoded: &Vec<Option<Vec<u8>>>,
    )
        requires
            encoded@.len() * FRAME_BYTES <= usize::MAX,
        ensures
            final(queue)@.len() == old(queue)@.len() + 1,
            final(queue)@.subrange(0, old(queue)@.len() as int) == old(queue)@,
            final(queue)@.last().client_index == client_index,
            final(queue)@.last().audio_data@ == joined(encoded@, FRAME_BYTES as nat, 0),
    {
        let audio_data = encoded_audio(encoded);
        queue.push(client_index, audio_data);
        assert(queue@.subrange(0, old(queue)@.len() as int) =~= old(queue)@);
    }

    /// Registers a new subscriber and returns the stream it will receive.
    pub fn subscribe(&self, registry: &mut SubscriberRegistry) -> (r: Receiver<VoiceMessage>)
        ensures
            final(registry)@.len() == old(registry)@.len() + 1,
            final(registry)@.subrange(0, old(registry)@.len() as int) == old(registry)@,
    {
        registry.register()
    }
}

/// The PCM broadcast for an inbound packet of `len` bytes, one decoded result for each of
/// its padded frames, is `FRAME_SAMPLES * 2` bytes per frame, however the codec fared.
pub proof fn lemma_broadcast_length(len: nat, decoded: Seq<Option<Vec<i16>>>)
    requires
        decoded.len() == frames_needed(len, FRAME_BYTES as nat),
    ensures
        le_bytes_of(joined(decoded, FRAME_SAMPLES as nat, 0)).len() == ((len + 63) / 64) * 512
            * 2,
{
}

} // verus!
