use voice_relay::bridge::{
    broadcast_voice, decoded_pcm, encode_frames, encoded_audio, on_gameframe, recv_frames,
    VoiceServiceImpl, FRAME_BYTES, FRAME_SAMPLES, MAX_PARTICIPANTS,
};
use voice_relay::lifecycle::{Lifecycle, LifecycleError, LifecycleEvent, RelayState};
use voice_relay::pcm::{pcm_from_le_bytes, pcm_to_le_bytes};
use voice_relay::queue::OutboundQueue;
use voice_relay::registry::{Delivery, SubscriberRegistry, VoiceMessage, SUBSCRIBER_CAPACITY};

#[test]
fn samples_read_little_endian() {
    assert_eq!(pcm_from_le_bytes(&vec![0x34, 0x12, 0xff, 0xff, 0x00, 0x80]), vec![0x1234, -1, i16::MIN]);
}

#[test]
fn odd_trailing_byte_is_completed_with_zero() {
    assert_eq!(pcm_from_le_bytes(&vec![0x01, 0x02, 0x05]), vec![0x0201, 5]);
    assert_eq!(pcm_from_le_bytes(&vec![]), Vec::<i16>::new());
}

#[test]
fn samples_written_little_endian() {
    assert_eq!(pcm_to_le_bytes(&vec![-2, 0x1234, i16::MAX]), vec![0xfe, 0xff, 0x34, 0x12, 0xff, 0x7f]);
}

#[test]
fn bytes_survive_a_round_trip() {
    let bytes: Vec<u8> = (0..=255u8).collect();
    assert_eq!(pcm_to_le_bytes(&pcm_from_le_bytes(&bytes)), bytes);
}

#[test]
fn empty_packet_passes_through() {
    assert!(recv_frames(0, &vec![]).is_none());
}

#[test]
fn slot_out_of_range_passes_through() {
    assert!(recv_frames(MAX_PARTICIPANTS, &vec![1, 2, 3]).is_none());
    assert!(recv_frames(usize::MAX, &vec![1; 64]).is_none());
    assert!(recv_frames(MAX_PARTICIPANTS - 1, &vec![1; 64]).is_some());
}

#[test]
fn unaligned_packet_is_padded_to_whole_frames() {
    let audio: Vec<u8> = (0..65u32).map(|i| (i % 251) as u8 + 1).collect();
    let frames = recv_frames(3, &audio).unwrap();
    assert_eq!(frames.len(), 2);
    assert_eq!(frames[0], audio[0..64].to_vec());
    let mut last = vec![0u8; FRAME_BYTES];
    last[0] = audio[64];
    assert_eq!(frames[1], last);
}

#[test]
fn broadcast_pcm_length_follows_frame_count() {
    for len in [1usize, 63, 64, 65, 130] {
        let audio = vec![7u8; len];
        let frames = recv_frames(0, &audio).unwrap();
        let decoded: Vec<Option<Vec<i16>>> = frames.iter().map(|_| None).collect();
        let pcm = decoded_pcm(&decoded);
        let bytes = pcm_to_le_bytes(&pcm);
        assert_eq!(bytes.len(), ((len + 63) / 64) * FRAME_SAMPLES * 2);
    }
}

#[test]
fn failed_and_short_frames_read_as_silence() {
    let decoded = vec![Some(vec![5i16; FRAME_SAMPLES]), None, Some(vec![9i16, 8])];
    let pcm = decoded_pcm(&decoded);
    assert_eq!(pcm.len(), 3 * FRAME_SAMPLES);
    assert!(pcm[..FRAME_SAMPLES].iter().all(|&s| s == 5));
    assert!(pcm[FRAME_SAMPLES..2 * FRAME_SAMPLES].iter().all(|&s| s == 0));
    assert_eq!(pcm[2 * FRAME_SAMPLES], 9);
    assert_eq!(pcm[2 * FRAME_SAMPLES + 1], 8);
    assert!(pcm[2 * FRAME_SAMPLES + 2..].iter().all(|&s| s == 0));
}

#[test]
fn encoded_frames_are_laid_end_to_end() {
    let encoded = vec![Some(vec![1u8; FRAME_BYTES]), None, Some(vec![2u8; FRAME_BYTES + 3])];
    let out = encoded_audio(&encoded);
    assert_eq!(out.len(), 3 * FRAME_BYTES);
    assert!(out[..FRAME_BYTES].iter().all(|&b| b == 1));
    assert!(out[FRAME_BYTES..2 * FRAME_BYTES].iter().all(|&b| b == 0));
    assert!(out[2 * FRAME_BYTES..].iter().all(|&b| b == 2));
}

#[test]
fn pcm_is_cut_into_padded_frames() {
    let pcm: Vec<i16> = (0..513).map(|i| i as i16 + 1).collect();
    let frames = encode_frames(&pcm);
    assert_eq!(frames.len(), 2);
    assert_eq!(frames[0], pcm[..512].to_vec());
    assert_eq!(frames[1][0], 513);
    assert!(frames[1][1..].iter().all(|&s| s == 0));
}

#[test]
fn published_packet_becomes_frames() {
    let svc = VoiceServiceImpl::new();
    assert!(svc.publish_frames(&vec![]).is_none());
    let audio = vec![0x01u8; 1026];
    let frames = svc.publish_frames(&audio).unwrap();
    assert_eq!(frames.len(), 2);
    assert!(frames[0].iter().all(|&s| s == 0x0101));
    assert_eq!(frames[1][0], 0x0101);
    assert!(frames[1][1..].iter().all(|&s| s == 0));
}

#[test]
fn queue_is_first_in_first_out() {
    let mut q = OutboundQueue::new();
    let mut reg = SubscriberRegistry::new();
    q.push(4, vec![1, 2]);
    q.push(9, vec![3]);
    let out = on_gameframe(&mut q, &mut reg);
    assert_eq!(out.len(), 2);
    assert_eq!((out[0].client_index, out[0].audio_data.clone()), (4, vec![1, 2]));
    assert_eq!((out[1].client_index, out[1].audio_data.clone()), (9, vec![3]));
    assert_eq!(q.len(), 0);
    assert!(on_gameframe(&mut q, &mut reg).is_empty());
}

#[test]
fn published_audio_is_queued_for_its_client() {
    let svc = VoiceServiceImpl::new();
    let mut q = OutboundQueue::new();
    svc.deliver_published(&mut q, 7, &vec![Some(vec![3u8; FRAME_BYTES]), None]);
    let out = q.drain();
    assert_eq!(out.len(), 1);
    assert_eq!(out[0].client_index, 7);
    let mut expected = vec![3u8; FRAME_BYTES];
    expected.extend(vec![0u8; FRAME_BYTES]);
    assert_eq!(out[0].audio_data, expected);
}

#[test]
fn tick_prunes_closed_subscribers() {
    let mut q = OutboundQueue::new();
    let mut reg = SubscriberRegistry::new();
    let rx1 = reg.register();
    let rx2 = reg.register();
    assert_eq!(reg.len(), 2);
    drop(rx1);
    on_gameframe(&mut q, &mut reg);
    assert_eq!(reg.len(), 1);
    drop(rx2);
    assert_eq!(reg.prune(), vec![true]);
    assert_eq!(reg.len(), 0);
}

#[test]
fn broadcast_reaches_every_live_subscriber() {
    let mut reg = SubscriberRegistry::new();
    let mut a = reg.register();
    let b = reg.register();
    let mut c = reg.register();
    drop(b);
    let msg = VoiceMessage { steam_id: 5, audio_data: vec![1, 2, 3] };
    let outcomes = reg.broadcast(&msg);
    assert_eq!(outcomes, vec![Delivery::Delivered, Delivery::Closed, Delivery::Delivered]);
    assert_eq!(reg.len(), 2);
    for rx in [&mut a, &mut c] {
        let got = rx.try_recv().unwrap();
        assert_eq!((got.steam_id, got.audio_data), (5, vec![1, 2, 3]));
    }
}

#[test]
fn full_subscriber_misses_message_but_stays() {
    let mut reg = SubscriberRegistry::new();
    let mut slow = reg.register();
    let mut fast = reg.register();
    let msg = VoiceMessage { steam_id: 1, audio_data: vec![0] };
    for _ in 0..SUBSCRIBER_CAPACITY {
        assert_eq!(reg.broadcast(&msg), vec![Delivery::Delivered, Delivery::Delivered]);
        fast.try_recv().unwrap();
    }
    assert_eq!(reg.broadcast(&msg), vec![Delivery::Full, Delivery::Delivered]);
    assert_eq!(reg.len(), 2);
    assert!(fast.try_recv().is_ok());
    for _ in 0..SUBSCRIBER_CAPACITY {
        slow.try_recv().unwrap();
    }
    assert!(slow.try_recv().is_err());
}

#[test]
fn subscribe_registers_a_channel() {
    let svc = VoiceServiceImpl::new();
    let mut reg = SubscriberRegistry::new();
    let mut rx = svc.subscribe(&mut reg);
    assert_eq!(reg.len(), 1);
    reg.broadcast(&VoiceMessage { steam_id: 2, audio_data: vec![] });
    assert_eq!(rx.try_recv().unwrap().steam_id, 2);
}

#[test]
fn silent_packet_broadcasts_pcm_silence() {
    let mut reg = SubscriberRegistry::new();
    let mut rx = reg.register();
    let frames = recv_frames(0, &vec![0u8; 64]).unwrap();
    assert_eq!(frames.len(), 1);
    let decoded = vec![Some(vec![0i16; FRAME_SAMPLES])];
    let pcm = decoded_pcm(&decoded);
    assert_eq!(broadcast_voice(&mut reg, 42, &pcm), vec![Delivery::Delivered]);
    let got = rx.try_recv().unwrap();
    assert_eq!(got.steam_id, 42);
    assert_eq!(got.audio_data, vec![0u8; FRAME_SAMPLES * 2]);
    let encoded = encoded_audio(&vec![Some(vec![0u8; FRAME_BYTES])]);
    assert_eq!(encoded.len(), 64);
}

#[test]
fn lifecycle_restarts_cleanly() {
    let mut l = Lifecycle::new();
    assert_eq!(l.state(), RelayState::Stopped);
    assert_eq!(l.apply(LifecycleEvent::Init), Ok(()));
    assert_eq!(l.apply(LifecycleEvent::Init), Err(LifecycleError::AlreadyRunning));
    assert_eq!(l.apply(LifecycleEvent::Started), Ok(()));
    assert!(l.is_running());
    assert_eq!(l.apply(LifecycleEvent::Shutdown), Ok(()));
    assert_eq!(l.apply(LifecycleEvent::Joined), Ok(()));
    assert_eq!(l.state(), RelayState::Stopped);
    assert_eq!(l.apply(LifecycleEvent::Init), Ok(()));
    assert_eq!(l.state(), RelayState::Starting);
}

#[test]
fn lifecycle_refuses_out_of_turn() {
    let mut l = Lifecycle::new();
    assert_eq!(l.apply(LifecycleEvent::Shutdown), Err(LifecycleError::NotRunning));
    assert_eq!(l.apply(LifecycleEvent::Started), Err(LifecycleError::OutOfOrder));
    assert_eq!(l.apply(LifecycleEvent::Joined), Err(LifecycleError::OutOfOrder));
    assert_eq!(l.state(), RelayState::Stopped);
    assert_eq!(l.apply(LifecycleEvent::Init), Ok(()));
    assert_eq!(l.apply(LifecycleEvent::StartFailed), Ok(()));
    assert_eq!(l.state(), RelayState::Stopped);
}
