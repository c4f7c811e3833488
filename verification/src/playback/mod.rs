//! Playback: the per-player state, the streaming controller state machine,
//! and the decisions that keep synchronised players together.
pub mod player;
pub mod streaming;
pub mod sync;
