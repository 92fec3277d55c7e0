//! Relay of voice audio between a game session and network subscribers: codec framing,
//! the outbound queue, the subscriber registry, the runtime lifecycle and the tick pump.
pub mod pcm;
pub mod frame;
pub mod queue;
pub mod registry;
pub mod lifecycle;
pub mod bridge;
