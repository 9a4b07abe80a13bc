//! Runtime core of a push-to-talk voice-assistant appliance.
//!
//! The library holds the verified logic of the appliance: the protocol
//! values exchanged over TCP and between tasks, the orchestrator state
//! machine with its generation-based cancellation, the chat session
//! history, the voice-input chunking pipeline and voice-activity
//! tracker, the speech-recognition buffering task, and the voice-output
//! stream state with its prebuffer and frame-alignment policy.
//! Everything that touches a device, a socket or a clock lives outside
//! and hands the library plain values.

pub mod config;
pub mod gpio;
pub mod protocol;
pub mod session;
pub mod text;
pub mod engine;
pub mod orchestrator;
pub mod speech_rec;
pub mod voice_input;
pub mod voice_output;
