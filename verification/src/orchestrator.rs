//! The central state machine: routes client commands, voice events,
//! transcripts and engine completions, and enforces generation-based
//! cancellation.
//!
//! The orchestrator here is pure: each handler takes one input and the
//! current time and returns the list of [`Action`]s to perform.  The
//! surrounding loop owns the channels, performs the actions, and feeds
//! results back in.  Status snapshots are published as actions, once
//! per change of any observable field.

use vstd::prelude::*;

use crate::engine::{EngineError, EngineAudio, EngineResponse};
use crate::protocol::{
    AudioStreamFormat, ClientCommand, RuntimeState, SpeechRecCommand, SpeechRecEvent,
    StatusSnapshot, VoiceInputCommand, VoiceInputEvent, VoiceOutputCommand,
};
use crate::session::{
    appends_message, rollover_due, ChatMessage, ChatRole, SessionManager,
    CLOUD_MESSAGE_PLACEHOLDER,
};

verus! {

/// One effect the surrounding loop must perform on the orchestrator's
/// behalf, in order.
#[derive(Debug, Clone)]
pub enum Action {
    /// Publish a new status snapshot on the last-value channel.
    PublishStatus(StatusSnapshot),
    /// Send a command to the voice-input task.
    ToVoiceInput(VoiceInputCommand),
    /// Send a command to the speech-recognition task.
    ToSpeechRec(SpeechRecCommand),
    /// Send a command to the voice-output task.
    ToVoiceOutput(VoiceOutputCommand),
    /// Spawn one engine request tagged with the captured generation;
    /// the session history at spawn time travels with the session id.
    CallEngine { generation: u64, text: String, session_id: String },
    /// Spawn a forwarder that feeds the engine's byte stream to voice
    /// output, rechecking the generation at every chunk.
    ForwardEngineStream { generation: u64, format: AudioStreamFormat },
}

/// The orchestrator's owned state.  The surrounding loop is its sole
/// driver; nothing else mutates these fields.
pub struct Orchestrator {
    pub state: RuntimeState,
    pub mic_muted: bool,
    pub lid_open: bool,
    /// Cancellation token: bumped on every cancel, captured by every
    /// spawned request; stale work is discarded on mismatch.
    pub generation: u64,
    pub session: SessionManager,
    pub session_timeout_ms: u64,
}

/// The observable triple of an orchestrator state.
pub open spec fn status_of(o: Orchestrator) -> StatusSnapshot {
    StatusSnapshot { state: o.state, mic_muted: o.mic_muted, lid_open: o.lid_open }
}

/// The generation counter advances with wraparound, as an atomic
/// fetch-add would.
pub open spec fn wrapping_inc(g: u64) -> u64 {
    if g == u64::MAX {
        0
    } else {
        (g + 1) as u64
    }
}

/// The snapshots published by an action list, in order.
pub open spec fn snapshots_of(actions: Seq<Action>) -> Seq<StatusSnapshot>
    decreases actions.len(),
{
    if actions.len() == 0 {
        Seq::empty()
    } else {
        let rest = snapshots_of(actions.drop_last());
        match actions.last() {
            Action::PublishStatus(s) => rest.push(s),
            _ => rest,
        }
    }
}

/// A single publication when `cond` holds, nothing otherwise.
pub open spec fn publish_if(cond: bool, s: StatusSnapshot) -> Seq<Action> {
    if cond {
        seq![Action::PublishStatus(s)]
    } else {
        Seq::empty()
    }
}

/// The fan-out of a cancellation: stop playback, reset the
/// recognizer's buffer, stop listening — after the generation bump.
pub open spec fn cancel_actions() -> Seq<Action> {
    seq![
        Action::ToVoiceOutput(VoiceOutputCommand::Stop),
        Action::ToSpeechRec(SpeechRecCommand::Reset),
        Action::ToVoiceInput(VoiceInputCommand::StopListening),
    ]
}

impl Orchestrator {
    /// The initial state: idle, muted, lid open, a fresh session.
    pub fn new(session_timeout_ms: u64) -> (r: Orchestrator)
        ensures
            r.state == RuntimeState::Idle,
            r.mic_muted,
            r.lid_open,
            r.generation == 0,
            crate::session::is_fresh_session(r.session),
            r.session_timeout_ms == session_timeout_ms,
    {
        Orchestrator {
            state: RuntimeState::Idle,
            mic_muted: true,
            lid_open: true,
            generation: 0,
            session: SessionManager::new(),
            session_timeout_ms,
        }
    }

    /// Push the current status onto the action list.
    fn publish_status(&self, out: &mut Vec<Action>)
        ensures
            final(out)@ == old(out)@.push(Action::PublishStatus(status_of(*self))),
    {
        out.push(Action::PublishStatus(StatusSnapshot {
            state: self.state,
            mic_muted: self.mic_muted,
            lid_open: self.lid_open,
        }));
    }

    /// Change the runtime state, publishing on an actual change.
    fn set_state(&mut self, next: RuntimeState, out: &mut Vec<Action>)
        ensures
            *final(self) == (Orchestrator { state: next, ..*old(self) }),
            old(self).state == next ==> final(out)@ == old(out)@,
            old(self).state != next ==> final(out)@ == old(out)@.push(
                Action::PublishStatus(status_of(*final(self))),
            ),
    {
        if self.state != next {
            self.state = next;
            self.publish_status(out);
        }
    }

    /// Change the mute flag, publishing on an actual change.
    fn set_mic_muted(&mut self, muted: bool, out: &mut Vec<Action>)
        ensures
            *final(self) == (Orchestrator { mic_muted: muted, ..*old(self) }),
            old(self).mic_muted == muted ==> final(out)@ == old(out)@,
            old(self).mic_muted != muted ==> final(out)@ == old(out)@.push(
                Action::PublishStatus(status_of(*final(self))),
            ),
    {
        if self.mic_muted != muted {
            self.mic_muted = muted;
            self.publish_status(out);
        }
    }

    /// Change the lid flag, publishing on an actual change.
    fn set_lid_open(&mut self, open: bool, out: &mut Vec<Action>)
        ensures
            *final(self) == (Orchestrator { lid_open: open, ..*old(self) }),
            old(self).lid_open == open ==> final(out)@ == old(out)@,
            old(self).lid_open != open ==> final(out)@ == old(out)@.push(
                Action::PublishStatus(status_of(*final(self))),
            ),
    {
        if self.lid_open != open {
            self.lid_open = open;
            self.publish_status(out);
        }
    }

    /// Bump the generation — first, so racing work observes the new
    /// value before the stops arrive — then fan out the stops.
    fn cancel_session(&mut self, out: &mut Vec<Action>)
        ensures
            *final(self) == (Orchestrator {
                generation: wrapping_inc(old(self).generation),
                ..*old(self)
            }),
            final(out)@ == old(out)@ + cancel_actions(),
    {
        self.generation = if self.generation == u64::MAX {
            0
        } else {
            self.generation + 1
        };
        out.push(Action::ToVoiceOutput(VoiceOutputCommand::Stop));
        out.push(Action::ToSpeechRec(SpeechRecCommand::Reset));
        out.push(Action::ToVoiceInput(VoiceInputCommand::StopListening));
        proof {
            assert(final(out)@ =~= old(out)@ + cancel_actions());
        }
    }
}

/// The handler changed nothing and performed nothing.
pub open spec fn no_op(o0: Orchestrator, o1: Orchestrator, out: Seq<Action>) -> bool {
    o1 == o0 && out == Seq::<Action>::empty()
}

/// What processing one piece of user text does: with the lid closed it
/// is discarded; otherwise the session may first roll over by
/// inactivity, the text is appended as a user message, the state
/// becomes `Processing`, and one engine call is spawned under the
/// current generation.
pub open spec fn text_processed(
    o0: Orchestrator,
    o1: Orchestrator,
    out: Seq<Action>,
    text: Seq<char>,
    now_ms: u64,
) -> bool {
    if !o0.lid_open {
        no_op(o0, o1, out)
    } else {
        let rolled = rollover_due(o0.session.spec_last_message_at(), now_ms, o0.session_timeout_ms);
        let base = if rolled {
            Seq::empty()
        } else {
            o0.session.spec_history()
        };
        &&& appends_message(base, o1.session.spec_history(), ChatRole::User, text)
        &&& o1.session.spec_last_message_at() == Option::Some(now_ms)
        &&& (rolled ==> o1.session.spec_id().len() == 36)
        &&& (!rolled ==> o1.session.spec_id() == o0.session.spec_id())
        &&& o1.state == RuntimeState::Processing
        &&& o1.mic_muted == o0.mic_muted
        &&& o1.lid_open == o0.lid_open
        &&& o1.generation == o0.generation
        &&& o1.session_timeout_ms == o0.session_timeout_ms
        &&& out.len() == (if o0.state != RuntimeState::Processing {
            2int
        } else {
            1int
        })
        &&& (o0.state != RuntimeState::Processing ==> out[0] == Action::PublishStatus(
            status_of(o1),
        ))
        &&& (out.last() matches Action::CallEngine { generation, text: t, session_id }
            && generation == o0.generation && t@ == text && session_id@ == o1.session.spec_id())
    }
}

/// A button press cancels in-flight work, unmutes, starts listening.
pub open spec fn button_press_handled(
    o0: Orchestrator,
    o1: Orchestrator,
    out: Seq<Action>,
) -> bool {
    let s1 = StatusSnapshot { state: o0.state, mic_muted: false, lid_open: o0.lid_open };
    let s2 = StatusSnapshot {
        state: RuntimeState::Listening,
        mic_muted: false,
        lid_open: o0.lid_open,
    };
    &&& o1 == (Orchestrator {
        state: RuntimeState::Listening,
        mic_muted: false,
        generation: wrapping_inc(o0.generation),
        ..o0
    })
    &&& out == cancel_actions() + publish_if(o0.mic_muted, s1) + publish_if(
        o0.state != RuntimeState::Listening,
        s2,
    ) + seq![Action::ToVoiceInput(VoiceInputCommand::StartListening)]
}

/// A button release mutes and returns to idle.
pub open spec fn button_release_handled(
    o0: Orchestrator,
    o1: Orchestrator,
    out: Seq<Action>,
) -> bool {
    let s1 = StatusSnapshot { state: o0.state, mic_muted: true, lid_open: o0.lid_open };
    let s2 = StatusSnapshot { state: RuntimeState::Idle, mic_muted: true, lid_open: o0.lid_open };
    &&& o1 == (Orchestrator { state: RuntimeState::Idle, mic_muted: true, ..o0 })
    &&& out == publish_if(!o0.mic_muted, s1) + publish_if(o0.state != RuntimeState::Idle, s2)
        + seq![Action::ToVoiceInput(VoiceInputCommand::StopListening)]
}

/// Opening the lid starts a fresh session.
pub open spec fn lid_open_handled(o0: Orchestrator, o1: Orchestrator, out: Seq<Action>) -> bool {
    let s1 = StatusSnapshot { state: o0.state, mic_muted: o0.mic_muted, lid_open: true };
    &&& o1.state == o0.state
    &&& o1.mic_muted == o0.mic_muted
    &&& o1.lid_open
    &&& o1.generation == o0.generation
    &&& o1.session_timeout_ms == o0.session_timeout_ms
    &&& crate::session::is_fresh_session(o1.session)
    &&& out == publish_if(!o0.lid_open, s1)
}

/// Closing the lid cancels everything and idles, muted.
pub open spec fn lid_close_handled(o0: Orchestrator, o1: Orchestrator, out: Seq<Action>) -> bool {
    let s1 = StatusSnapshot { state: o0.state, mic_muted: o0.mic_muted, lid_open: false };
    let s2 = StatusSnapshot { state: o0.state, mic_muted: true, lid_open: false };
    let s3 = StatusSnapshot { state: RuntimeState::Idle, mic_muted: true, lid_open: false };
    &&& o1 == (Orchestrator {
        state: RuntimeState::Idle,
        mic_muted: true,
        lid_open: false,
        generation: wrapping_inc(o0.generation),
        ..o0
    })
    &&& out == publish_if(o0.lid_open, s1) + cancel_actions() + publish_if(!o0.mic_muted, s2)
        + publish_if(o0.state != RuntimeState::Idle, s3)
}

/// What handling each client command does to the state and which
/// actions it emits, exactly.
pub open spec fn client_command_handled(
    o0: Orchestrator,
    o1: Orchestrator,
    out: Seq<Action>,
    cmd: ClientCommand,
    now_ms: u64,
) -> bool {
    match cmd {
        ClientCommand::Ping => no_op(o0, o1, out),
        ClientCommand::Status => no_op(o0, o1, out),
        ClientCommand::Text { text } => text_processed(o0, o1, out, text@, now_ms),
        ClientCommand::VoiceFile { path } => if !o0.mic_muted {
            o1 == o0 && out == seq![
                Action::ToVoiceInput(VoiceInputCommand::InjectAudioFile { path }),
            ]
        } else {
            no_op(o0, o1, out)
        },
        ClientCommand::AudioFile { path } => {
            let s = StatusSnapshot {
                state: RuntimeState::Speaking,
                mic_muted: o0.mic_muted,
                lid_open: o0.lid_open,
            };
            &&& o1 == (Orchestrator { state: RuntimeState::Speaking, ..o0 })
            &&& out == publish_if(o0.state != RuntimeState::Speaking, s) + seq![
                Action::ToVoiceOutput(VoiceOutputCommand::PlayAudioFile { path }),
            ]
        },
        ClientCommand::AudioStreamStart { format } => {
            let s = StatusSnapshot {
                state: RuntimeState::Speaking,
                mic_muted: o0.mic_muted,
                lid_open: o0.lid_open,
            };
            &&& o1 == (Orchestrator { state: RuntimeState::Speaking, ..o0 })
            &&& out == publish_if(o0.state != RuntimeState::Speaking, s) + seq![
                Action::ToVoiceOutput(VoiceOutputCommand::StartStream { format }),
            ]
        },
        ClientCommand::AudioStreamChunk { data } => o1 == o0 && out == seq![
            Action::ToVoiceOutput(VoiceOutputCommand::StreamChunk { data }),
        ],
        ClientCommand::AudioStreamEnd => o1 == o0 && out == seq![
            Action::ToVoiceOutput(VoiceOutputCommand::EndStream),
        ],
        ClientCommand::ButtonPress => button_press_handled(o0, o1, out),
        ClientCommand::ButtonRelease => button_release_handled(o0, o1, out),
        ClientCommand::LidOpen => lid_open_handled(o0, o1, out),
        ClientCommand::LidClose => lid_close_handled(o0, o1, out),
    }
}

impl Orchestrator {
    /// Append the text as a user message (rolling the session over
    /// first if it timed out), enter `Processing`, and spawn one
    /// engine request tagged with the current generation.
    pub fn process_text(&mut self, text: String, now_ms: u64) -> (out: Vec<Action>)
        ensures
            text_processed(*old(self), *final(self), out@, text@, now_ms),
    {
        let mut out: Vec<Action> = Vec::new();
        if !self.lid_open {
            proof {
                assert(out@ =~= Seq::<Action>::empty());
            }
            return out;
        }

        let rolled = self.session.maybe_rollover_at(now_ms, self.session_timeout_ms);
        proof {
            if rolled {
                assert(self.session.spec_history() =~= Seq::<ChatMessage>::empty());
            }
        }
        let for_session = text.clone();
        self.session.add_user_message_at(for_session, now_ms);
        self.set_state(RuntimeState::Processing, &mut out);
        let session_id = self.session.id().to_owned();
        out.push(Action::CallEngine { generation: self.generation, text, session_id });
        out
    }

    /// Dispatch one client command.
    pub fn handle_client_command(&mut self, cmd: ClientCommand, now_ms: u64) -> (out: Vec<Action>)
        ensures
            client_command_handled(*old(self), *final(self), out@, cmd, now_ms),
    {
        match cmd {
            ClientCommand::Ping => Vec::new(),
            ClientCommand::Status => Vec::new(),
            ClientCommand::Text { text } => self.process_text(text, now_ms),
            ClientCommand::VoiceFile { path } => {
                let mut out: Vec<Action> = Vec::new();
                if !self.mic_muted {
                    out.push(Action::ToVoiceInput(VoiceInputCommand::InjectAudioFile { path }));
                    proof {
                        assert(out@ =~= seq![
                            Action::ToVoiceInput(VoiceInputCommand::InjectAudioFile { path }),
                        ]);
                    }
                }
                out
            },
            ClientCommand::AudioFile { path } => {
                let mut out: Vec<Action> = Vec::new();
                self.set_state(RuntimeState::Speaking, &mut out);
                out.push(Action::ToVoiceOutput(VoiceOutputCommand::PlayAudioFile { path }));
                proof {
                    assert(out@ =~= publish_if(
                        old(self).state != RuntimeState::Speaking,
                        StatusSnapshot {
                            state: RuntimeState::Speaking,
                            mic_muted: old(self).mic_muted,
                            lid_open: old(self).lid_open,
                        },
                    ) + seq![Action::ToVoiceOutput(VoiceOutputCommand::PlayAudioFile { path })]);
                }
                out
            },
            ClientCommand::AudioStreamStart { format } => {
                let mut out: Vec<Action> = Vec::new();
                self.set_state(RuntimeState::Speaking, &mut out);
                out.push(Action::ToVoiceOutput(VoiceOutputCommand::StartStream { format }));
                proof {
                    assert(out@ =~= publish_if(
                        old(self).state != RuntimeState::Speaking,
                        StatusSnapshot {
                            state: RuntimeState::Speaking,
                            mic_muted: old(self).mic_muted,
                            lid_open: old(self).lid_open,
                        },
                    ) + seq![Action::ToVoiceOutput(VoiceOutputCommand::StartStream { format })]);
                }
                out
            },
            ClientCommand::AudioStreamChunk { data } => {
                let mut out: Vec<Action> = Vec::new();
                out.push(Action::ToVoiceOutput(VoiceOutputCommand::StreamChunk { data }));
                proof {
                    assert(out@ =~= seq![
                        Action::ToVoiceOutput(VoiceOutputCommand::StreamChunk { data }),
                    ]);
                }
                out
            },
            ClientCommand::AudioStreamEnd => {
                let mut out: Vec<Action> = Vec::new();
                out.push(Action::ToVoiceOutput(VoiceOutputCommand::EndStream));
                proof {
                    assert(out@ =~= seq![Action::ToVoiceOutput(VoiceOutputCommand::EndStream)]);
                }
                out
            },
            ClientCommand::ButtonPress => self.handle_button_press(),
            ClientCommand::ButtonRelease => self.handle_button_release(),
            ClientCommand::LidOpen => {
                let mut out: Vec<Action> = Vec::new();
                self.set_lid_open(true, &mut out);
                self.session.start_new();
                proof {
                    assert(out@ =~= publish_if(
                        !old(self).lid_open,
                        StatusSnapshot {
                            state: old(self).state,
                            mic_muted: old(self).mic_muted,
                            lid_open: true,
                        },
                    ));
                }
                out
            },
            ClientCommand::LidClose => {
                let mut out: Vec<Action> = Vec::new();
                self.set_lid_open(false, &mut out);
                self.cancel_session(&mut out);
                self.set_mic_muted(true, &mut out);
                self.set_state(RuntimeState::Idle, &mut out);
                proof {
                    let o0 = *old(self);
                    assert(out@ =~= publish_if(
                        o0.lid_open,
                        StatusSnapshot {
                            state: o0.state,
                            mic_muted: o0.mic_muted,
                            lid_open: false,
                        },
                    ) + cancel_actions() + publish_if(
                        !o0.mic_muted,
                        StatusSnapshot { state: o0.state, mic_muted: true, lid_open: false },
                    ) + publish_if(
                        o0.state != RuntimeState::Idle,
                        StatusSnapshot {
                            state: RuntimeState::Idle,
                            mic_muted: true,
                            lid_open: false,
                        },
                    ));
                }
                out
            },
        }
    }

    /// Cancel in-flight work, unmute the microphone, start listening.
    pub fn handle_button_press(&mut self) -> (out: Vec<Action>)
        ensures
            button_press_handled(*old(self), *final(self), out@),
    {
        let mut out: Vec<Action> = Vec::new();
        self.cancel_session(&mut out);
        self.set_mic_muted(false, &mut out);
        self.set_state(RuntimeState::Listening, &mut out);
        out.push(Action::ToVoiceInput(VoiceInputCommand::StartListening));
        proof {
            let o0 = *old(self);
            assert(out@ =~= cancel_actions() + publish_if(
                o0.mic_muted,
                StatusSnapshot { state: o0.state, mic_muted: false, lid_open: o0.lid_open },
            ) + publish_if(
                o0.state != RuntimeState::Listening,
                StatusSnapshot {
                    state: RuntimeState::Listening,
                    mic_muted: false,
                    lid_open: o0.lid_open,
                },
            ) + seq![Action::ToVoiceInput(VoiceInputCommand::StartListening)]);
        }
        out
    }

    /// Mute the microphone and return to idle.
    pub fn handle_button_release(&mut self) -> (out: Vec<Action>)
        ensures
            button_release_handled(*old(self), *final(self), out@),
    {
        let mut out: Vec<Action> = Vec::new();
        self.set_mic_muted(true, &mut out);
        self.set_state(RuntimeState::Idle, &mut out);
        out.push(Action::ToVoiceInput(VoiceInputCommand::StopListening));
        proof {
            let o0 = *old(self);
            assert(out@ =~= publish_if(
                !o0.mic_muted,
                StatusSnapshot { state: o0.state, mic_muted: true, lid_open: o0.lid_open },
            ) + publish_if(
                o0.state != RuntimeState::Idle,
                StatusSnapshot { state: RuntimeState::Idle, mic_muted: true, lid_open: o0.lid_open },
            ) + seq![Action::ToVoiceInput(VoiceInputCommand::StopListening)]);
        }
        out
    }
}

/// What handling a voice-input event does: audio chunks and ends of
/// utterance are forwarded to speech recognition; bare activity
/// markers are not.
pub open spec fn voice_event_handled(
    o0: Orchestrator,
    o1: Orchestrator,
    out: Seq<Action>,
    event: VoiceInputEvent,
) -> bool {
    &&& o1 == o0
    &&& out == match event {
        VoiceInputEvent::AudioChunk(chunk) => seq![
            Action::ToSpeechRec(SpeechRecCommand::AudioChunk(chunk)),
        ],
        VoiceInputEvent::AudioEnded => seq![Action::ToSpeechRec(SpeechRecCommand::AudioEnded)],
        VoiceInputEvent::VadSpeech => Seq::<Action>::empty(),
        VoiceInputEvent::VadSilence => Seq::<Action>::empty(),
    }
}

/// What handling one engine completion does.  A completion whose
/// captured generation no longer matches is dropped without any
/// effect.  A current error returns the machine to `Idle` with the
/// history untouched.  A current success appends exactly one
/// assistant message — the reply text, or the placeholder when the
/// engine returned only audio — enters `Speaking`, and dispatches the
/// audio.
pub open spec fn engine_response_handled(
    o0: Orchestrator,
    o1: Orchestrator,
    out: Seq<Action>,
    generation: u64,
    result: Result<EngineResponse, EngineError>,
) -> bool {
    if generation != o0.generation {
        no_op(o0, o1, out)
    } else {
        match result {
            Result::Err(_) => {
                let s = StatusSnapshot {
                    state: RuntimeState::Idle,
                    mic_muted: o0.mic_muted,
                    lid_open: o0.lid_open,
                };
                &&& o1 == (Orchestrator { state: RuntimeState::Idle, ..o0 })
                &&& out == publish_if(o0.state != RuntimeState::Idle, s)
            },
            Result::Ok(resp) => {
                let s = StatusSnapshot {
                    state: RuntimeState::Speaking,
                    mic_muted: o0.mic_muted,
                    lid_open: o0.lid_open,
                };
                let appended: Seq<char> = match resp.assistant_text {
                    Option::Some(t) => t@,
                    Option::None => CLOUD_MESSAGE_PLACEHOLDER@,
                };
                &&& appends_message(
                    o0.session.spec_history(),
                    o1.session.spec_history(),
                    ChatRole::Assistant,
                    appended,
                )
                &&& o1.session.spec_id() == o0.session.spec_id()
                &&& o1.state == RuntimeState::Speaking
                &&& o1.mic_muted == o0.mic_muted
                &&& o1.lid_open == o0.lid_open
                &&& o1.generation == o0.generation
                &&& o1.session_timeout_ms == o0.session_timeout_ms
                &&& out == publish_if(o0.state != RuntimeState::Speaking, s) + match resp.audio {
                    EngineAudio::Full(audio) => seq![
                        Action::ToVoiceOutput(VoiceOutputCommand::PlayAudio { audio }),
                    ],
                    EngineAudio::Stream { format } => seq![
                        Action::ForwardEngineStream { generation, format },
                    ],
                }
            },
        }
    }
}

impl Orchestrator {
    /// Forward audio from voice input to speech recognition.
    pub fn handle_voice_event(&mut self, event: VoiceInputEvent) -> (out: Vec<Action>)
        ensures
            voice_event_handled(*old(self), *final(self), out@, event),
    {
        let mut out: Vec<Action> = Vec::new();
        match event {
            VoiceInputEvent::AudioChunk(chunk) => {
                out.push(Action::ToSpeechRec(SpeechRecCommand::AudioChunk(chunk)));
                proof {
                    assert(out@ =~= seq![
                        Action::ToSpeechRec(SpeechRecCommand::AudioChunk(event->AudioChunk_0)),
                    ]);
                }
            },
            VoiceInputEvent::AudioEnded => {
                out.push(Action::ToSpeechRec(SpeechRecCommand::AudioEnded));
                proof {
                    assert(out@ =~= seq![Action::ToSpeechRec(SpeechRecCommand::AudioEnded)]);
                }
            },
            VoiceInputEvent::VadSpeech => {
                proof {
                    assert(out@ =~= Seq::<Action>::empty());
                }
            },
            VoiceInputEvent::VadSilence => {
                proof {
                    assert(out@ =~= Seq::<Action>::empty());
                }
            },
        }
        out
    }

    /// Act on final transcripts; partial ones are informational only.
    pub fn handle_speech_event(&mut self, event: SpeechRecEvent, now_ms: u64) -> (out: Vec<Action>)
        ensures
            (event matches SpeechRecEvent::Text { text, is_final } ==> (if is_final {
                text_processed(*old(self), *final(self), out@, text@, now_ms)
            } else {
                no_op(*old(self), *final(self), out@)
            })),
    {
        match event {
            SpeechRecEvent::Text { text, is_final } => {
                if is_final {
                    self.process_text(text, now_ms)
                } else {
                    let out: Vec<Action> = Vec::new();
                    proof {
                        assert(out@ =~= Seq::<Action>::empty());
                    }
                    out
                }
            },
        }
    }

    /// Act on one engine completion, discarding it if its generation
    /// is stale.
    pub fn handle_engine_response(
        &mut self,
        generation: u64,
        result: Result<EngineResponse, EngineError>,
    ) -> (out: Vec<Action>)
        ensures
            engine_response_handled(*old(self), *final(self), out@, generation, result),
    {
        let ghost given = result;
        let mut out: Vec<Action> = Vec::new();
        if generation != self.generation {
            proof {
                assert(out@ =~= Seq::<Action>::empty());
            }
            return out;
        }
        match result {
            Err(_) => {
                self.set_state(RuntimeState::Idle, &mut out);
                proof {
                    let o0 = *old(self);
                    assert(out@ =~= publish_if(
                        o0.state != RuntimeState::Idle,
                        StatusSnapshot {
                            state: RuntimeState::Idle,
                            mic_muted: o0.mic_muted,
                            lid_open: o0.lid_open,
                        },
                    ));
                }
                out
            },
            Ok(resp) => {
                match resp.assistant_text {
                    Some(t) => self.session.add_assistant_message(t),
                    None => self.session.add_assistant_placeholder(),
                }
                self.set_state(RuntimeState::Speaking, &mut out);
                match resp.audio {
                    EngineAudio::Full(audio) => {
                        out.push(Action::ToVoiceOutput(VoiceOutputCommand::PlayAudio { audio }));
                    },
                    EngineAudio::Stream { format } => {
                        out.push(Action::ForwardEngineStream { generation, format });
                    },
                }
                proof {
                    let o0 = *old(self);
                    let s = StatusSnapshot {
                        state: RuntimeState::Speaking,
                        mic_muted: o0.mic_muted,
                        lid_open: o0.lid_open,
                    };
                    match given {
                        Result::Ok(r0) => {
                            match r0.audio {
                                EngineAudio::Full(audio) => {
                                    assert(out@ =~= publish_if(
                                        o0.state != RuntimeState::Speaking,
                                        s,
                                    ) + seq![
                                        Action::ToVoiceOutput(
                                            VoiceOutputCommand::PlayAudio { audio },
                                        ),
                                    ]);
                                },
                                EngineAudio::Stream { format } => {
                                    assert(out@ =~= publish_if(
                                        o0.state != RuntimeState::Speaking,
                                        s,
                                    ) + seq![Action::ForwardEngineStream { generation, format }]);
                                },
                            }
                        },
                        Result::Err(_) => {},
                    }
                }
                out
            },
        }
    }
}

/// One decision of the engine-stream forwarder.
#[derive(Debug, Clone)]
pub enum StreamStep {
    /// Pass these bytes on to voice output.
    Forward(Vec<u8>),
    /// The stream ended; tell voice output to finish the stream.
    Finish,
    /// The work is stale or the stream failed; stop playback and stop
    /// forwarding.
    Abort,
}

/// The per-chunk decision of the forwarder spawned for a streamed
/// engine response: any chunk observed after the generation moved on
/// aborts playback; an error aborts; the end of the stream finishes
/// it; anything else is passed through.
pub fn stream_forward_step(
    current_generation: u64,
    captured_generation: u64,
    item: Option<Result<Vec<u8>, EngineError>>,
) -> (r: StreamStep)
    ensures
        current_generation != captured_generation ==> r is Abort,
        current_generation == captured_generation ==> match item {
            Option::None => r is Finish,
            Option::Some(Result::Ok(bytes)) => r == StreamStep::Forward(bytes),
            Option::Some(Result::Err(_)) => r is Abort,
        },
{
    if current_generation != captured_generation {
        return StreamStep::Abort;
    }
    match item {
        None => StreamStep::Finish,
        Some(Ok(bytes)) => StreamStep::Forward(bytes),
        Some(Err(_)) => StreamStep::Abort,
    }
}

/// The voice-output command that realizes one forwarder decision.
pub fn stream_step_command(step: StreamStep) -> (c: VoiceOutputCommand)
    ensures
        step matches StreamStep::Forward(bytes) ==> c == (VoiceOutputCommand::StreamChunk {
            data: bytes,
        }),
        step is Finish ==> c == VoiceOutputCommand::EndStream,
        step is Abort ==> c == VoiceOutputCommand::Stop,
{
    match step {
        StreamStep::Forward(bytes) => VoiceOutputCommand::StreamChunk { data: bytes },
        StreamStep::Finish => VoiceOutputCommand::EndStream,
        StreamStep::Abort => VoiceOutputCommand::Stop,
    }
}

/// A published trace is consistent with a step from status `prev` to
/// status `post`: no publication repeats its predecessor, and the
/// trace ends at `post` (or is empty with the status unchanged).
pub open spec fn status_trace_ok(
    prev: StatusSnapshot,
    snaps: Seq<StatusSnapshot>,
    post: StatusSnapshot,
) -> bool {
    &&& (forall|i: int|
        0 <= i < snaps.len() ==> #[trigger] snaps[i] != (if i == 0 {
            prev
        } else {
            snaps[i - 1]
        }))
    &&& if snaps.len() == 0 {
        post == prev
    } else {
        snaps.last() == post
    }
}

proof fn lemma_snapshots_of_concat(a: Seq<Action>, b: Seq<Action>)
    ensures
        snapshots_of(a + b) == snapshots_of(a) + snapshots_of(b),
    decreases b.len(),
{
    if b.len() == 0 {
        assert(a + b =~= a);
        assert(snapshots_of(a) + snapshots_of(b) =~= snapshots_of(a));
    } else {
        lemma_snapshots_of_concat(a, b.drop_last());
        assert((a + b).drop_last() =~= a + b.drop_last());
        assert((a + b).last() == b.last());
        match b.last() {
            Action::PublishStatus(s) => {
                assert(snapshots_of(b) == snapshots_of(b.drop_last()).push(s));
                assert(snapshots_of(a + b) == (snapshots_of(a) + snapshots_of(
                    b.drop_last(),
                )).push(s));
                assert((snapshots_of(a) + snapshots_of(b.drop_last())).push(s) =~= snapshots_of(a)
                    + snapshots_of(b.drop_last()).push(s));
            },
            _ => {
                assert(snapshots_of(b) == snapshots_of(b.drop_last()));
            },
        }
    }
}

proof fn lemma_snapshots_of_no_publish(s: Seq<Action>)
    requires
        forall|i: int| 0 <= i < s.len() ==> !(s[i] is PublishStatus),
    ensures
        snapshots_of(s) == Seq::<StatusSnapshot>::empty(),
    decreases s.len(),
{
    if s.len() > 0 {
        assert(!(s.last() is PublishStatus));
        lemma_snapshots_of_no_publish(s.drop_last());
    }
}

proof fn lemma_snapshots_of_publish_if(cond: bool, snap: StatusSnapshot)
    ensures
        snapshots_of(publish_if(cond, snap)) == (if cond {
            seq![snap]
        } else {
            Seq::<StatusSnapshot>::empty()
        }),
{
    if cond {
        let s = publish_if(cond, snap);
        assert(s.drop_last() =~= Seq::<Action>::empty());
        assert(snapshots_of(Seq::<Action>::empty()) == Seq::<StatusSnapshot>::empty());
        assert(snapshots_of(s) == snapshots_of(Seq::<Action>::empty()).push(snap));
        assert(snapshots_of(s) =~= seq![snap]);
    }
}

proof fn lemma_snapshots_of_singleton(a: Action)
    ensures
        snapshots_of(seq![a]) == (match a {
            Action::PublishStatus(s) => seq![s],
            _ => Seq::<StatusSnapshot>::empty(),
        }),
{
    let s = seq![a];
    assert(s.drop_last() =~= Seq::<Action>::empty());
    assert(snapshots_of(Seq::<Action>::empty()) == Seq::<StatusSnapshot>::empty());
    match a {
        Action::PublishStatus(snap) => {
            assert(snapshots_of(s) == snapshots_of(Seq::<Action>::empty()).push(snap));
            assert(snapshots_of(s) =~= seq![snap]);
        },
        _ => {},
    }
}

proof fn lemma_snapshots_of_cancel()
    ensures
        snapshots_of(cancel_actions()) == Seq::<StatusSnapshot>::empty(),
{
    lemma_snapshots_of_no_publish(cancel_actions());
}

/// Consecutive-distinct traces compose: a step from `prev` to `mid`
/// followed by a step from `mid` to `post` publishes one
/// consecutive-distinct trace from `prev` to `post`.
#[verifier::rlimit(50)]
pub proof fn lemma_status_trace_compose(
    prev: StatusSnapshot,
    s1: Seq<StatusSnapshot>,
    mid: StatusSnapshot,
    s2: Seq<StatusSnapshot>,
    post: StatusSnapshot,
)
    requires
        status_trace_ok(prev, s1, mid),
        status_trace_ok(mid, s2, post),
    ensures
        status_trace_ok(prev, s1 + s2, post),
{
    let s = s1 + s2;
    assert forall|i: int| 0 <= i < s.len() implies #[trigger] s[i] != (if i == 0 {
        prev
    } else {
        s[i - 1]
    }) by {
        if i < s1.len() {
            assert(s[i] == s1[i]);
        } else {
            let j = i - s1.len();
            assert(s[i] == s2[j]);
            if j == 0 {
                if s1.len() == 0 {
                    assert(mid == prev);
                } else {
                    assert(s[i - 1] == s1.last());
                }
            } else {
                assert(s[i - 1] == s2[j - 1]);
            }
        }
    }
}

/// The snapshot trace a single client command publishes is
/// consecutive-distinct and lands on the status of the state it
/// leaves behind.
pub proof fn lemma_client_step_status_trace(
    o0: Orchestrator,
    o1: Orchestrator,
    out: Seq<Action>,
    cmd: ClientCommand,
    now_ms: u64,
)
    requires
        client_command_handled(o0, o1, out, cmd, now_ms),
    ensures
        status_trace_ok(status_of(o0), snapshots_of(out), status_of(o1)),
{
    match cmd {
        ClientCommand::Ping => {},
        ClientCommand::Status => {},
        ClientCommand::Text { text } => {
            lemma_text_step_status_trace(o0, o1, out, text@, now_ms);
        },
        ClientCommand::VoiceFile { path } => {
            if !o0.mic_muted {
                lemma_snapshots_of_no_publish(out);
            }
        },
        ClientCommand::AudioFile { path } => {
            let s = StatusSnapshot {
                state: RuntimeState::Speaking,
                mic_muted: o0.mic_muted,
                lid_open: o0.lid_open,
            };
            let tail = seq![Action::ToVoiceOutput(VoiceOutputCommand::PlayAudioFile { path })];
            lemma_snapshots_of_concat(publish_if(o0.state != RuntimeState::Speaking, s), tail);
            lemma_snapshots_of_publish_if(o0.state != RuntimeState::Speaking, s);
            lemma_snapshots_of_singleton(tail[0]);
            assert(tail =~= seq![tail[0]]);
        },
        ClientCommand::AudioStreamStart { format } => {
            let s = StatusSnapshot {
                state: RuntimeState::Speaking,
                mic_muted: o0.mic_muted,
                lid_open: o0.lid_open,
            };
            let tail = seq![Action::ToVoiceOutput(VoiceOutputCommand::StartStream { format })];
            lemma_snapshots_of_concat(publish_if(o0.state != RuntimeState::Speaking, s), tail);
            lemma_snapshots_of_publish_if(o0.state != RuntimeState::Speaking, s);
            lemma_snapshots_of_singleton(tail[0]);
            assert(tail =~= seq![tail[0]]);
        },
        ClientCommand::AudioStreamChunk { data } => {
            lemma_snapshots_of_no_publish(out);
        },
        ClientCommand::AudioStreamEnd => {
            lemma_snapshots_of_no_publish(out);
        },
        ClientCommand::ButtonPress => {
            let s1 = StatusSnapshot { state: o0.state, mic_muted: false, lid_open: o0.lid_open };
            let s2 = StatusSnapshot {
                state: RuntimeState::Listening,
                mic_muted: false,
                lid_open: o0.lid_open,
            };
            let pub_a = publish_if(o0.mic_muted, s1);
            let pub_b = publish_if(o0.state != RuntimeState::Listening, s2);
            let tail = seq![Action::ToVoiceInput(VoiceInputCommand::StartListening)];
            lemma_snapshots_of_cancel();
            lemma_snapshots_of_concat(cancel_actions(), pub_a);
            lemma_snapshots_of_concat(cancel_actions() + pub_a, pub_b);
            lemma_snapshots_of_concat(cancel_actions() + pub_a + pub_b, tail);
            lemma_snapshots_of_publish_if(o0.mic_muted, s1);
            lemma_snapshots_of_publish_if(o0.state != RuntimeState::Listening, s2);
            lemma_snapshots_of_no_publish(tail);
        },
        ClientCommand::ButtonRelease => {
            let s1 = StatusSnapshot { state: o0.state, mic_muted: true, lid_open: o0.lid_open };
            let s2 = StatusSnapshot {
                state: RuntimeState::Idle,
                mic_muted: true,
                lid_open: o0.lid_open,
            };
            let pub_a = publish_if(!o0.mic_muted, s1);
            let pub_b = publish_if(o0.state != RuntimeState::Idle, s2);
            let tail = seq![Action::ToVoiceInput(VoiceInputCommand::StopListening)];
            lemma_snapshots_of_concat(pub_a, pub_b);
            lemma_snapshots_of_concat(pub_a + pub_b, tail);
            lemma_snapshots_of_publish_if(!o0.mic_muted, s1);
            lemma_snapshots_of_publish_if(o0.state != RuntimeState::Idle, s2);
            lemma_snapshots_of_no_publish(tail);
        },
        ClientCommand::LidOpen => {
            let s1 = StatusSnapshot { state: o0.state, mic_muted: o0.mic_muted, lid_open: true };
            lemma_snapshots_of_publish_if(!o0.lid_open, s1);
        },
        ClientCommand::LidClose => {
            let s1 = StatusSnapshot { state: o0.state, mic_muted: o0.mic_muted, lid_open: false };
            let s2 = StatusSnapshot { state: o0.state, mic_muted: true, lid_open: false };
            let s3 = StatusSnapshot {
                state: RuntimeState::Idle,
                mic_muted: true,
                lid_open: false,
            };
            let pub_a = publish_if(o0.lid_open, s1);
            let pub_b = publish_if(!o0.mic_muted, s2);
            let pub_c = publish_if(o0.state != RuntimeState::Idle, s3);
            lemma_snapshots_of_cancel();
            lemma_snapshots_of_concat(pub_a, cancel_actions());
            lemma_snapshots_of_concat(pub_a + cancel_actions(), pub_b);
            lemma_snapshots_of_concat(pub_a + cancel_actions() + pub_b, pub_c);
            lemma_snapshots_of_publish_if(o0.lid_open, s1);
            lemma_snapshots_of_publish_if(!o0.mic_muted, s2);
            lemma_snapshots_of_publish_if(o0.state != RuntimeState::Idle, s3);
        },
    }
}

proof fn lemma_text_step_status_trace(
    o0: Orchestrator,
    o1: Orchestrator,
    out: Seq<Action>,
    text: Seq<char>,
    now_ms: u64,
)
    requires
        text_processed(o0, o1, out, text, now_ms),
    ensures
        status_trace_ok(status_of(o0), snapshots_of(out), status_of(o1)),
{
    if o0.lid_open {
        assert(!(out.last() is PublishStatus));
        assert(snapshots_of(out) == snapshots_of(out.drop_last()));
        if o0.state != RuntimeState::Processing {
            assert(out.drop_last() =~= seq![Action::PublishStatus(status_of(o1))]);
            lemma_snapshots_of_singleton(Action::PublishStatus(status_of(o1)));
        } else {
            assert(out.drop_last() =~= Seq::<Action>::empty());
        }
    }
}

/// One run of the orchestrator over a command sequence: each state
/// follows from the one before it by handling the matching command at
/// the matching time, emitting the matching actions.
pub open spec fn orchestration_run(
    states: Seq<Orchestrator>,
    inputs: Seq<OrchestratorInput>,
    outs: Seq<Seq<Action>>,
) -> bool {
    &&& states.len() == inputs.len() + 1
    &&& outs.len() == inputs.len()
    &&& forall|i: int|
        0 <= i < inputs.len() ==> orchestrator_input_handled(
            states[i],
            states[i + 1],
            #[trigger] outs[i],
            inputs[i],
        )
}

/// Every snapshot any step of a run published, in order.
pub open spec fn run_snapshots(outs: Seq<Seq<Action>>) -> Seq<StatusSnapshot>
    decreases outs.len(),
{
    if outs.len() == 0 {
        Seq::empty()
    } else {
        run_snapshots(outs.drop_last()) + snapshots_of(outs.last())
    }
}

/// For every sequence of inputs — client commands, voice events,
/// transcripts, engine completions, finished playbacks — the
/// published status trace is the consecutive-distinct record of the
/// state machine's transitions: no snapshot repeats its predecessor,
/// and the trace ends at the status of the final state (or is empty
/// and the status never moved).
pub proof fn lemma_run_status_trace(
    states: Seq<Orchestrator>,
    inputs: Seq<OrchestratorInput>,
    outs: Seq<Seq<Action>>,
)
    requires
        orchestration_run(states, inputs, outs),
    ensures
        status_trace_ok(status_of(states[0]), run_snapshots(outs), status_of(states.last())),
    decreases inputs.len(),
{
    if inputs.len() == 0 {
        assert(states.last() == states[0]);
    } else {
        let n = inputs.len() as int;
        let states0 = states.drop_last();
        let inputs0 = inputs.drop_last();
        let outs0 = outs.drop_last();
        assert(orchestration_run(states0, inputs0, outs0)) by {
            assert forall|i: int|
                0 <= i < inputs0.len() implies orchestrator_input_handled(
                states0[i],
                states0[i + 1],
                #[trigger] outs0[i],
                inputs0[i],
            ) by {
                assert(states0[i] == states[i]);
                assert(states0[i + 1] == states[i + 1]);
                assert(outs0[i] == outs[i]);
            }
        }
        lemma_run_status_trace(states0, inputs0, outs0);
        assert(orchestrator_input_handled(states[n - 1], states[n], outs[n - 1], inputs[n - 1]));
        lemma_input_status_trace(states[n - 1], states[n], outs[n - 1], inputs[n - 1]);
        assert(states0.last() == states[n - 1]);
        assert(outs.last() == outs[n - 1]);
        lemma_status_trace_compose(
            status_of(states[0]),
            run_snapshots(outs0),
            status_of(states[n - 1]),
            snapshots_of(outs[n - 1]),
            status_of(states[n]),
        );
    }
}

/// One input to the orchestrator's loop, with the time it arrived
/// where the handling depends on the clock.
pub enum OrchestratorInput {
    Client(ClientCommand, u64),
    Voice(VoiceInputEvent),
    Speech(SpeechRecEvent, u64),
    Engine(u64, Result<EngineResponse, EngineError>),
    PlaybackFinished,
}

/// What handling one input of any kind does, exactly: the dispatch
/// over all five input sources of the loop.
pub open spec fn orchestrator_input_handled(
    o0: Orchestrator,
    o1: Orchestrator,
    out: Seq<Action>,
    input: OrchestratorInput,
) -> bool {
    match input {
        OrchestratorInput::Client(cmd, now_ms) => client_command_handled(o0, o1, out, cmd, now_ms),
        OrchestratorInput::Voice(event) => voice_event_handled(o0, o1, out, event),
        OrchestratorInput::Speech(event, now_ms) => match event {
            SpeechRecEvent::Text { text, is_final } => if is_final {
                text_processed(o0, o1, out, text@, now_ms)
            } else {
                no_op(o0, o1, out)
            },
        },
        OrchestratorInput::Engine(generation, result) => engine_response_handled(
            o0,
            o1,
            out,
            generation,
            result,
        ),
        OrchestratorInput::PlaybackFinished => playback_finished_handled(o0, o1, out),
    }
}

/// What a naturally drained playback does: return from `Speaking` to
/// `Idle`, and nothing from any other state.
pub open spec fn playback_finished_handled(
    o0: Orchestrator,
    o1: Orchestrator,
    out: Seq<Action>,
) -> bool {
    if o0.state == RuntimeState::Speaking {
        &&& o1 == (Orchestrator { state: RuntimeState::Idle, ..o0 })
        &&& out == publish_if(
            true,
            StatusSnapshot {
                state: RuntimeState::Idle,
                mic_muted: o0.mic_muted,
                lid_open: o0.lid_open,
            },
        )
    } else {
        no_op(o0, o1, out)
    }
}

/// The snapshot trace a single input of any kind publishes is
/// consecutive-distinct and lands on the status of the state it
/// leaves behind.
pub proof fn lemma_input_status_trace(
    o0: Orchestrator,
    o1: Orchestrator,
    out: Seq<Action>,
    input: OrchestratorInput,
)
    requires
        orchestrator_input_handled(o0, o1, out, input),
    ensures
        status_trace_ok(status_of(o0), snapshots_of(out), status_of(o1)),
{
    match input {
        OrchestratorInput::Client(cmd, now_ms) => {
            lemma_client_step_status_trace(o0, o1, out, cmd, now_ms);
        },
        OrchestratorInput::Voice(event) => {
            lemma_snapshots_of_no_publish(out);
        },
        OrchestratorInput::Speech(event, now_ms) => {
            match event {
                SpeechRecEvent::Text { text, is_final } => {
                    if is_final {
                        lemma_text_step_status_trace(o0, o1, out, text@, now_ms);
                    }
                },
            }
        },
        OrchestratorInput::Engine(generation, result) => {
            if generation == o0.generation {
                match result {
                    Result::Err(_) => {
                        lemma_snapshots_of_publish_if(
                            o0.state != RuntimeState::Idle,
                            StatusSnapshot {
                                state: RuntimeState::Idle,
                                mic_muted: o0.mic_muted,
                                lid_open: o0.lid_open,
                            },
                        );
                    },
                    Result::Ok(resp) => {
                        let snap = StatusSnapshot {
                            state: RuntimeState::Speaking,
                            mic_muted: o0.mic_muted,
                            lid_open: o0.lid_open,
                        };
                        let p = publish_if(o0.state != RuntimeState::Speaking, snap);
                        lemma_snapshots_of_publish_if(o0.state != RuntimeState::Speaking, snap);
                        match resp.audio {
                            EngineAudio::Full(audio) => {
                                let tail = seq![
                                    Action::ToVoiceOutput(VoiceOutputCommand::PlayAudio { audio }),
                                ];
                                lemma_snapshots_of_concat(p, tail);
                                lemma_snapshots_of_no_publish(tail);
                            },
                            EngineAudio::Stream { format } => {
                                let tail = seq![
                                    Action::ForwardEngineStream { generation, format },
                                ];
                                lemma_snapshots_of_concat(p, tail);
                                lemma_snapshots_of_no_publish(tail);
                            },
                        }
                    },
                }
            }
        },
        OrchestratorInput::PlaybackFinished => {
            if o0.state == RuntimeState::Speaking {
                lemma_snapshots_of_publish_if(
                    true,
                    StatusSnapshot {
                        state: RuntimeState::Idle,
                        mic_muted: o0.mic_muted,
                        lid_open: o0.lid_open,
                    },
                );
            }
        },
    }
}

/// A cancellation point always changes the generation, so any work
/// that captured the generation before a button press or a lid close
/// can no longer match afterwards.
pub proof fn lemma_cancel_changes_generation(g: u64)
    ensures
        wrapping_inc(g) != g,
{
}

/// An engine completion whose captured generation differs from the
/// orchestrator's current one — as after any intervening button
/// press, lid close, or other cancel — is discarded without touching
/// the state, the session, or any task.  Together with
/// [`lemma_cancel_changes_generation`], this is the guarantee that a
/// transcript buffered before a cancellation never reaches the
/// session after it.
pub proof fn lemma_stale_engine_response_dropped(
    o0: Orchestrator,
    o1: Orchestrator,
    out: Seq<Action>,
    captured: u64,
    result: Result<EngineResponse, EngineError>,
)
    requires
        engine_response_handled(o0, o1, out, captured, result),
        captured != o0.generation,
    ensures
        o1 == o0,
        out == Seq::<Action>::empty(),
{
}

/// Closing the lid leaves the machine idle and muted with the lid
/// shut, under a fresh generation, and stops any active playback with
/// the very first command it sends to voice output.
pub proof fn lemma_lid_close_quiesces(o0: Orchestrator, o1: Orchestrator, out: Seq<Action>)
    requires
        lid_close_handled(o0, o1, out),
    ensures
        o1.state == RuntimeState::Idle,
        o1.mic_muted,
        !o1.lid_open,
        o1.generation != o0.generation,
        out.contains(Action::ToVoiceOutput(VoiceOutputCommand::Stop)),
{
    let pub_a = publish_if(
        o0.lid_open,
        StatusSnapshot { state: o0.state, mic_muted: o0.mic_muted, lid_open: false },
    );
    assert(out[pub_a.len() as int] == Action::ToVoiceOutput(VoiceOutputCommand::Stop));
}


/// The server's synchronous answer for one parsed command: a status
/// request is answered inline from the latest snapshot and goes no
/// further; every other command is acknowledged as accepted and
/// enqueued for the orchestrator.
pub fn connection_reply(cmd: ClientCommand, status: StatusSnapshot) -> (r: (
    crate::protocol::ServerReply,
    Option<ClientCommand>,
))
    ensures
        (cmd is Status) ==> (r.0 == (crate::protocol::ServerReply::Status { status }) && r.1
            is None),
        !(cmd is Status) ==> ((r.0 matches crate::protocol::ServerReply::Okay { message }
            && message@ == "accepted"@) && r.1 == Option::Some(cmd)),
{
    match cmd {
        ClientCommand::Status => (crate::protocol::ServerReply::Status { status }, None),
        other => (
            crate::protocol::ServerReply::Okay { message: "accepted".to_owned() },
            Some(other),
        ),
    }
}


impl Orchestrator {
    /// A playback that drained naturally returns the machine to idle —
    /// but only if it is still speaking; a finish observed in any
    /// other state is stale and changes nothing.
    pub fn handle_playback_finished(&mut self) -> (out: Vec<Action>)
        ensures
            playback_finished_handled(*old(self), *final(self), out@),
    {
        let mut out: Vec<Action> = Vec::new();
        if self.state == RuntimeState::Speaking {
            self.set_state(RuntimeState::Idle, &mut out);
            proof {
                assert(out@ =~= publish_if(
                    true,
                    StatusSnapshot {
                        state: RuntimeState::Idle,
                        mic_muted: old(self).mic_muted,
                        lid_open: old(self).lid_open,
                    },
                ));
            }
        } else {
            proof {
                assert(out@ =~= Seq::<Action>::empty());
            }
        }
        out
    }
}

} // verus!
