//! Tagged command, event and reply values exchanged over the TCP line
//! protocol and between the long-lived tasks.

use vstd::prelude::*;

verus! {

/// The orchestrator's externally observable mode.
#[derive(Debug, Clone, Copy, PartialEq, Eq, Structural)]
pub enum RuntimeState {
    Idle,
    Listening,
    Processing,
    Speaking,
}

impl RuntimeState {
    /// The wire spelling of the state, as it appears in status replies.
    pub fn as_str(&self) -> (r: &'static str)
        ensures
            self is Idle ==> r@ == "Idle"@,
            self is Listening ==> r@ == "Listening"@,
            self is Processing ==> r@ == "Processing"@,
            self is Speaking ==> r@ == "Speaking"@,
    {
        match self {
            RuntimeState::Idle => "Idle",
            RuntimeState::Listening => "Listening",
            RuntimeState::Processing => "Processing",
            RuntimeState::Speaking => "Speaking",
        }
    }
}

/// The externally observable triple published on every change.
#[derive(Debug, Clone, Copy, PartialEq, Eq, Structural)]
pub struct StatusSnapshot {
    pub state: RuntimeState,
    pub mic_muted: bool,
    pub lid_open: bool,
}

/// A chunked playback format: raw interleaved signed-16 PCM, or MP3.
#[derive(Debug, Clone, Copy, PartialEq, Eq, Structural)]
pub enum AudioStreamFormat {
    Pcm { sample_rate: u32, channels: u16 },
    Mp3,
}

/// A complete audio buffer handed to voice output in one piece.
#[derive(Debug, Clone)]
pub enum AudioOutput {
    Pcm { data: Vec<u8>, sample_rate: u32, channels: u16 },
    Mp3 { data: Vec<u8> },
}

/// A command from a TCP client, a GPIO edge, or an internal sender.
#[derive(Debug, Clone)]
pub enum ClientCommand {
    Ping,
    Status,
    Text { text: String },
    VoiceFile { path: String },
    AudioFile { path: String },
    AudioStreamStart { format: AudioStreamFormat },
    AudioStreamChunk { data: Vec<u8> },
    AudioStreamEnd,
    ButtonPress,
    ButtonRelease,
    LidOpen,
    LidClose,
}

/// The synchronous reply written back on the TCP connection.
#[derive(Debug, Clone)]
pub enum ServerReply {
    Okay { message: String },
    Status { status: StatusSnapshot },
    Error { message: String },
}

/// What the voice-input task broadcasts.
#[derive(Debug, Clone)]
pub enum VoiceInputEvent {
    VadSpeech,
    VadSilence,
    AudioChunk(Vec<u8>),
    AudioEnded,
}

/// What the speech-recognition task broadcasts.
#[derive(Debug, Clone)]
pub enum SpeechRecEvent {
    Text { text: String, is_final: bool },
}

/// What voice output broadcasts when a playback drains naturally.
#[derive(Debug, Clone, Copy, PartialEq, Eq, Structural)]
pub enum VoiceOutputEvent {
    Finished,
}

/// Commands the orchestrator sends to voice input.
#[derive(Debug, Clone)]
pub enum VoiceInputCommand {
    StartListening,
    StopListening,
    InjectAudioFile { path: String },
    Shutdown,
}

/// Commands the orchestrator sends to speech recognition.
#[derive(Debug, Clone)]
pub enum SpeechRecCommand {
    AudioChunk(Vec<u8>),
    AudioEnded,
    Reset,
    Shutdown,
}

/// Commands the orchestrator sends to voice output.
#[derive(Debug, Clone)]
pub enum VoiceOutputCommand {
    PlayText { text: String },
    PlayAudioFile { path: String },
    PlayAudio { audio: AudioOutput },
    StartStream { format: AudioStreamFormat },
    StreamChunk { data: Vec<u8> },
    EndStream,
    Stop,
    Shutdown,
}

} // verus!
