//! Core of a real-time voice-conversion pipeline.
//!
//! Microphone audio is buffered in a bounded ring buffer, drained in
//! fixed-size chunks, sent to a remote conversion service one chunk at a
//! time, and the converted audio is buffered again for playback.  This
//! crate holds the verified parts of that pipeline: the ring buffer with
//! its drop-oldest overflow policy, the byte codec for sample chunks, the
//! classification of service responses, and the orchestrator state machine
//! that drives one streaming session.  Device and network I/O live outside
//! the library and communicate with it through plain events and actions.

mod codec;
mod laws;
mod orchestrator;
mod ring_buffer;
mod session;

pub use codec::decode_samples;
pub use codec::decoded;
pub use codec::encode_samples;
pub use codec::encoded;
pub use codec::lemma_codec_round_trip;
pub use codec::lemma_decoded_append_word;
pub use codec::lemma_encoded_len;
pub use codec::lemma_encoded_push;
pub use codec::lemma_word_round_trip;
pub use codec::word_bytes;
pub use codec::word_of_bytes;
pub use laws::actions_of;
pub use laws::apply_events;
pub use laws::exhaustion_events;
pub use laws::lemma_apply_events_concat;
pub use laws::lemma_clean_cycle_resets_once;
pub use laws::lemma_recovery_exhausted;
pub use laws::lemma_recovery_within_limit;
pub use laws::lemma_session_resets_concat;
pub use laws::lemma_step_preserves_wf;
pub use laws::lemma_stopped_is_final;
pub use laws::probe_failures;
pub use laws::recover_actions;
pub use laws::recovery_actions;
pub use laws::recovery_events;
pub use laws::resumed;
pub use laws::round_events;
pub use laws::rounds_events;
pub use laws::session_resets;
pub use laws::stopped_at_limit;
pub use orchestrator::Action;
pub use orchestrator::ActionModel;
pub use orchestrator::Config;
pub use orchestrator::Event;
pub use orchestrator::EventModel;
pub use orchestrator::Model;
pub use orchestrator::Orchestrator;
pub use orchestrator::Phase;
pub use orchestrator::fail_model;
pub use orchestrator::init_model;
pub use orchestrator::model_wf;
pub use orchestrator::next_seq_number;
pub use orchestrator::silence;
pub use orchestrator::step_model;
pub use ring_buffer::BufferOp;
pub use ring_buffer::RingBuffer;
pub use ring_buffer::apply_op;
pub use ring_buffer::apply_ops;
pub use ring_buffer::lemma_ops_len_bounded;
pub use ring_buffer::lemma_push_overflow_keeps_newest;
pub use ring_buffer::lemma_push_take_round_trip;
pub use ring_buffer::push_result;
pub use session::Chunk;
pub use session::ErrorKind;
pub use session::SessionParams;
pub use session::classify_response;
