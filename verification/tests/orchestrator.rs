use alicepi::engine::{EngineAudio, EngineError, EngineResponse};
use alicepi::orchestrator::{
    connection_reply, stream_forward_step, stream_step_command, Action, Orchestrator, StreamStep,
};
use alicepi::protocol::{
    AudioStreamFormat, ClientCommand, RuntimeState, ServerReply, SpeechRecCommand,
    SpeechRecEvent, StatusSnapshot, VoiceInputCommand, VoiceInputEvent, VoiceOutputCommand,
};
use alicepi::session::{ChatRole, CLOUD_MESSAGE_PLACEHOLDER};

fn published(actions: &[Action]) -> Vec<StatusSnapshot> {
    actions
        .iter()
        .filter_map(|a| match a {
            Action::PublishStatus(s) => Some(*s),
            _ => None,
        })
        .collect()
}

#[test]
fn ping_is_accepted_and_changes_nothing() {
    let mut o = Orchestrator::new(60_000);
    let out = o.handle_client_command(ClientCommand::Ping, 0);
    assert!(out.is_empty());
    assert!(matches!(o.state, RuntimeState::Idle));

    let status = StatusSnapshot { state: o.state, mic_muted: o.mic_muted, lid_open: o.lid_open };
    let (reply, forward) = connection_reply(ClientCommand::Ping, status);
    match reply {
        ServerReply::Okay { message } => assert_eq!(message, "accepted"),
        other => panic!("unexpected reply: {:?}", other),
    }
    assert!(matches!(forward, Some(ClientCommand::Ping)));

    let (reply, forward) = connection_reply(ClientCommand::Status, status);
    assert!(matches!(reply, ServerReply::Status { .. }));
    assert!(forward.is_none());
}

#[test]
fn full_conversation_walks_the_status_trace() {
    // Button press, final transcript, engine success, finished playback:
    // the published snapshots walk Idle -> Listening -> Processing ->
    // Speaking without ever repeating a neighbour.
    let mut o = Orchestrator::new(60_000);
    let mut trace: Vec<StatusSnapshot> = vec![StatusSnapshot {
        state: o.state,
        mic_muted: o.mic_muted,
        lid_open: o.lid_open,
    }];

    let out = o.handle_client_command(ClientCommand::ButtonPress, 1_000);
    trace.extend(published(&out));
    assert!(matches!(o.state, RuntimeState::Listening));
    assert!(!o.mic_muted);
    assert!(out.iter().any(|a| matches!(a, Action::ToVoiceInput(VoiceInputCommand::StartListening))));

    let out = o.handle_speech_event(
        SpeechRecEvent::Text { text: "hello".to_string(), is_final: true },
        2_000,
    );
    trace.extend(published(&out));
    assert!(matches!(o.state, RuntimeState::Processing));
    assert_eq!(o.session.history().len(), 1);
    let generation = match out.last() {
        Some(Action::CallEngine { generation, text, .. }) => {
            assert_eq!(text, "hello");
            *generation
        }
        other => panic!("expected an engine call, got {:?}", other),
    };

    let response = EngineResponse {
        assistant_text: Some("Hi there.".to_string()),
        audio: EngineAudio::Full(alicepi::protocol::AudioOutput::Pcm {
            data: vec![0, 0],
            sample_rate: 22_050,
            channels: 1,
        }),
    };
    let out = o.handle_engine_response(generation, Ok(response));
    trace.extend(published(&out));
    assert!(matches!(o.state, RuntimeState::Speaking));
    assert_eq!(o.session.history().len(), 2);
    assert!(matches!(o.session.history()[1].role, ChatRole::Assistant));
    assert_eq!(o.session.history()[1].content, "Hi there.");
    assert!(out.iter().any(|a| matches!(a, Action::ToVoiceOutput(VoiceOutputCommand::PlayAudio { .. }))));

    // Voice output drains; the loop maps Finished to an idle transition.
    let out = o.handle_client_command(ClientCommand::ButtonRelease, 3_000);
    trace.extend(published(&out));
    assert!(matches!(o.state, RuntimeState::Idle));

    let states: Vec<RuntimeState> = trace.iter().map(|s| s.state).collect();
    assert_eq!(
        states,
        vec![
            RuntimeState::Idle,
            RuntimeState::Idle,       // unmuted while still idle
            RuntimeState::Listening,
            RuntimeState::Processing,
            RuntimeState::Speaking,
            RuntimeState::Speaking,   // muted while still speaking
            RuntimeState::Idle,
        ]
    );
    for pair in trace.windows(2) {
        assert_ne!(pair[0], pair[1]);
    }
}

#[test]
fn stale_engine_response_is_dropped() {
    // Cancellation mid-processing: a button press bumps the generation,
    // so the late engine response must not touch the session.
    let mut o = Orchestrator::new(60_000);
    o.handle_client_command(ClientCommand::ButtonPress, 0);
    let out = o.handle_client_command(
        ClientCommand::Text { text: "question".to_string() },
        1_000,
    );
    let generation = match out.last() {
        Some(Action::CallEngine { generation, .. }) => *generation,
        other => panic!("expected an engine call, got {:?}", other),
    };
    let history_before = o.session.history().len();

    let out = o.handle_client_command(ClientCommand::ButtonPress, 2_000);
    assert!(out.iter().any(|a| matches!(a, Action::ToVoiceOutput(VoiceOutputCommand::Stop))));
    assert!(out.iter().any(|a| matches!(a, Action::ToSpeechRec(SpeechRecCommand::Reset))));

    let response = EngineResponse {
        assistant_text: Some("too late".to_string()),
        audio: EngineAudio::Stream { format: AudioStreamFormat::Mp3 },
    };
    let out = o.handle_engine_response(generation, Ok(response));
    assert!(out.is_empty());
    assert_eq!(o.session.history().len(), history_before);
}

#[test]
fn lid_close_quiesces_everything() {
    let mut o = Orchestrator::new(60_000);
    o.handle_client_command(ClientCommand::ButtonPress, 0);
    let before = o.generation;
    let out = o.handle_client_command(ClientCommand::LidClose, 1_000);
    assert!(matches!(o.state, RuntimeState::Idle));
    assert!(o.mic_muted);
    assert!(!o.lid_open);
    assert_ne!(o.generation, before);
    assert!(out.iter().any(|a| matches!(a, Action::ToVoiceOutput(VoiceOutputCommand::Stop))));

    // With the lid closed, text input is discarded.
    let out = o.handle_client_command(ClientCommand::Text { text: "x".to_string() }, 2_000);
    assert!(out.is_empty());
    assert_eq!(o.session.history().len(), 0);
}

#[test]
fn lid_open_starts_a_fresh_session() {
    let mut o = Orchestrator::new(60_000);
    let out = o.handle_client_command(ClientCommand::Text { text: "a".to_string() }, 0);
    assert!(!out.is_empty());
    assert_eq!(o.session.history().len(), 1);
    let id = o.session.id().to_string();
    o.handle_client_command(ClientCommand::LidClose, 1);
    o.handle_client_command(ClientCommand::LidOpen, 2);
    assert!(o.lid_open);
    assert_eq!(o.session.history().len(), 0);
    assert_ne!(o.session.id(), id);
}

#[test]
fn session_rollover_by_timeout_between_texts() {
    // With a one-second timeout, a second text after more than a second
    // lands in a fresh session holding only the new exchange.
    let mut o = Orchestrator::new(1_000);
    o.handle_client_command(ClientCommand::Text { text: "a".to_string() }, 10_000);
    let first_id = o.session.id().to_string();
    assert_eq!(o.session.history().len(), 1);
    let out = o.handle_client_command(ClientCommand::Text { text: "b".to_string() }, 11_500);
    assert_ne!(o.session.id(), first_id);
    assert_eq!(o.session.history().len(), 1);
    assert_eq!(o.session.history()[0].content, "b");
    match out.last() {
        Some(Action::CallEngine { session_id, .. }) => assert_eq!(session_id, o.session.id()),
        other => panic!("expected an engine call, got {:?}", other),
    }
}

#[test]
fn audio_only_reply_stores_the_placeholder() {
    let mut o = Orchestrator::new(60_000);
    o.handle_client_command(ClientCommand::Text { text: "q".to_string() }, 0);
    let response = EngineResponse {
        assistant_text: None,
        audio: EngineAudio::Stream { format: AudioStreamFormat::Mp3 },
    };
    let out = o.handle_engine_response(o.generation, Ok(response));
    assert_eq!(o.session.history().len(), 2);
    assert_eq!(o.session.history()[1].content, CLOUD_MESSAGE_PLACEHOLDER);
    assert!(out.iter().any(|a| matches!(a, Action::ForwardEngineStream { .. })));
}

#[test]
fn engine_error_returns_to_idle() {
    let mut o = Orchestrator::new(60_000);
    o.handle_client_command(ClientCommand::Text { text: "q".to_string() }, 0);
    let out = o.handle_engine_response(
        o.generation,
        Err(EngineError::CloudRequest("503".to_string())),
    );
    assert!(matches!(o.state, RuntimeState::Idle));
    assert_eq!(o.session.history().len(), 1);
    assert_eq!(published(&out).len(), 1);
}

#[test]
fn voice_events_feed_speech_recognition() {
    let mut o = Orchestrator::new(60_000);
    let out = o.handle_voice_event(VoiceInputEvent::AudioChunk(vec![1, 2]));
    assert!(matches!(
        out.as_slice(),
        [Action::ToSpeechRec(SpeechRecCommand::AudioChunk(c))] if c == &vec![1, 2]
    ));
    let out = o.handle_voice_event(VoiceInputEvent::AudioEnded);
    assert!(matches!(out.as_slice(), [Action::ToSpeechRec(SpeechRecCommand::AudioEnded)]));
    let out = o.handle_voice_event(VoiceInputEvent::VadSpeech);
    assert!(out.is_empty());
}

#[test]
fn partial_transcripts_are_informational() {
    let mut o = Orchestrator::new(60_000);
    let out = o.handle_speech_event(
        SpeechRecEvent::Text { text: "par".to_string(), is_final: false },
        0,
    );
    assert!(out.is_empty());
    assert!(matches!(o.state, RuntimeState::Idle));
}

#[test]
fn stream_forwarding_rechecks_the_generation() {
    let step = stream_forward_step(7, 7, Some(Ok(vec![1, 2, 3])));
    assert!(matches!(&step, StreamStep::Forward(b) if b == &vec![1, 2, 3]));
    assert!(matches!(
        stream_step_command(step),
        VoiceOutputCommand::StreamChunk { data } if data == vec![1, 2, 3]
    ));

    assert!(matches!(stream_forward_step(8, 7, Some(Ok(vec![1]))), StreamStep::Abort));
    assert!(matches!(stream_forward_step(7, 7, None), StreamStep::Finish));
    assert!(matches!(
        stream_forward_step(7, 7, Some(Err(EngineError::CloudRequest("eof".to_string())))),
        StreamStep::Abort
    ));
    assert!(matches!(stream_step_command(StreamStep::Finish), VoiceOutputCommand::EndStream));
    assert!(matches!(stream_step_command(StreamStep::Abort), VoiceOutputCommand::Stop));
}
