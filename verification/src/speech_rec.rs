//! Speech recognition: the task state that buffers PCM from the
//! orchestrator, cuts it into transcriber requests tagged with a
//! generation, appends a stabilizing silence tail at end of utterance,
//! and drops transcriber answers whose generation has moved on.
//!
//! The transcriber itself — the model on its worker thread — is
//! outside; it receives these requests and returns tagged text.

use vstd::prelude::*;

use crate::orchestrator::wrapping_inc;
use crate::protocol::{SpeechRecCommand, SpeechRecEvent};
use crate::voice_input::spec_samples_of_le;

verus! {

/// A pluggable transcriber: fed chunks as they arrive, asked for the
/// final text at end of utterance.  Implementations live with their
/// inference libraries outside the library; nothing here constrains
/// what they return.
pub trait SpeechRecStrategy {
    fn on_audio_chunk(&mut self, audio: &Vec<i16>, sample_rate: u32, channels: u16) -> Result<
        Option<String>,
        String,
    >;

    fn on_audio_end(&mut self) -> Result<Option<String>, String>;

    fn reset(&mut self);
}

/// One request for the transcriber worker, tagged with the generation
/// current when it was cut.
#[derive(Debug, Clone)]
pub enum TranscribeRequest {
    AudioChunk { generation: u64, audio: Vec<i16>, sample_rate: u32, channels: u16 },
    End { generation: u64 },
    Reset,
}

/// A finished utterance offered for the optional on-disk capture.
pub struct SavedUtterance {
    pub request_id: u64,
    pub sample_rate: u32,
    pub channels: u16,
    pub audio: Vec<i16>,
}

/// What one command does to the task: the requests to send onward and
/// the utterance offered for capture, if one just ended.
pub struct CommandEffects {
    pub requests: Vec<TranscribeRequest>,
    pub save: Option<SavedUtterance>,
}

/// The silence tail appended at end of utterance: `hangover_ms` worth
/// of zero samples in the configured format, computed with saturating
/// arithmetic.
pub open spec fn spec_hangover_samples(sample_rate: u32, channels: u16, hangover_ms: u64) -> int {
    let a = if sample_rate * hangover_ms <= u64::MAX {
        sample_rate * hangover_ms
    } else {
        u64::MAX as int
    };
    let b = a / 1000;
    if b * channels <= u64::MAX {
        b * channels
    } else {
        u64::MAX as int
    }
}

/// Zero samples covering the hangover interval, or nothing when the
/// interval or the count is zero.
pub fn build_hangover_silence(sample_rate: u32, channels: u16, hangover_ms: u64) -> (r: Option<
    Vec<i16>,
>)
    ensures
        (r is Some) == (hangover_ms != 0 && spec_hangover_samples(sample_rate, channels,
        hangover_ms) != 0 && spec_hangover_samples(sample_rate, channels, hangover_ms)
            <= usize::MAX),
        (r matches Some(v) ==> (v@.len() == spec_hangover_samples(sample_rate, channels,
        hangover_ms) && forall|i: int| 0 <= i < v@.len() ==> v@[i] == 0i16)),
    {
    if hangover_ms == 0 {
        return None;
    }
    let a: u64 = match (sample_rate as u64).checked_mul(hangover_ms) {
        Some(v) => v,
        None => u64::MAX,
    };
    let b: u64 = a / 1000;
    let samples: u64 = match b.checked_mul(channels as u64) {
        Some(v) => v,
        None => u64::MAX,
    };
    if samples == 0 {
        return None;
    }
    if samples > usize::MAX as u64 {
        return None;
    }
    let n: usize = samples as usize;
    let mut v: Vec<i16> = Vec::new();
    let mut i: usize = 0;
    while i < n
        invariant
            i <= n,
            v@.len() == i,
            forall|j: int| 0 <= j < v@.len() ==> v@[j] == 0i16,
        decreases n - i,
    {
        v.push(0i16);
        i = i + 1;
    }
    Some(v)
}

/// The speech-recognition task state.
pub struct SpeechRecTask {
    pub sample_rate: u32,
    pub channels: u16,
    pub hangover_ms: u64,
    /// Bytes received and not yet cut into whole samples.
    pub buffer: Vec<u8>,
    /// Every sample of the utterance being collected, for the
    /// optional on-disk capture.
    pub request_audio: Vec<i16>,
    /// The local cancellation token; answers carrying an older value
    /// are dropped.
    pub generation: u64,
    pub request_id: u64,
}

impl SpeechRecTask {
    pub fn new(sample_rate: u32, channels: u16, hangover_ms: u64) -> (r: SpeechRecTask)
        ensures
            r.sample_rate == sample_rate,
            r.channels == channels,
            r.hangover_ms == hangover_ms,
            r.buffer@ == Seq::<u8>::empty(),
            r.request_audio@ == Seq::<i16>::empty(),
            r.generation == 0,
            r.request_id == 0,
    {
        SpeechRecTask {
            sample_rate,
            channels,
            hangover_ms,
            buffer: Vec::new(),
            request_audio: Vec::new(),
            generation: 0,
            request_id: 0,
        }
    }

    /// A transcriber answer is forwarded only when its generation is
    /// still current, it succeeded, and the text has substance; the
    /// finality flag travels unchanged.  In particular any answer cut
    /// before the last reset is silently dropped.
    pub fn handle_response(
        &self,
        generation: u64,
        text: Result<String, String>,
        is_final: bool,
    ) -> (ev: Option<SpeechRecEvent>)
        ensures
            generation != self.generation ==> ev is None,
            (text matches Result::Err(_)) ==> ev is None,
            (generation == self.generation ==> (text matches Result::Ok(t) ==> (
            if crate::text::spec_all_space(t@) {
                ev is None
            } else {
                ev == Option::Some(SpeechRecEvent::Text { text: t, is_final })
            }))),
    {
        if generation != self.generation {
            return None;
        }
        match text {
            Err(_) => None,
            Ok(t) => {
                if crate::text::str_all_space(t.as_str()) {
                    None
                } else {
                    Some(SpeechRecEvent::Text { text: t, is_final })
                }
            },
        }
    }
}


/// What one command from the orchestrator does to the task, exactly:
/// chunks are cut at sample boundaries and forwarded under the
/// current generation; end of utterance appends the silence tail,
/// offers the utterance for capture, and sends the end marker; a
/// reset advances the generation and clears everything.
pub open spec fn speech_command_handled(
    t0: SpeechRecTask,
    t1: SpeechRecTask,
    requests: Seq<TranscribeRequest>,
    save: Option<SavedUtterance>,
    cmd: SpeechRecCommand,
) -> bool {
    &&& t1.sample_rate == t0.sample_rate
    &&& t1.channels == t0.channels
    &&& t1.hangover_ms == t0.hangover_ms
    &&& match cmd {
        SpeechRecCommand::AudioChunk(chunk) => {
            let combined = t0.buffer@ + chunk@;
            let aligned = combined.len() as int - combined.len() as int % 2;
            let audio = spec_samples_of_le(combined.take(aligned));
            &&& t1.buffer@ == combined.skip(aligned)
            &&& t1.generation == t0.generation
            &&& t1.request_id == t0.request_id
            &&& save is None
            &&& if aligned == 0 {
                t1.request_audio@ == t0.request_audio@ && requests
                    == Seq::<TranscribeRequest>::empty()
            } else {
                &&& t1.request_audio@ == t0.request_audio@ + audio
                &&& requests.len() == 1
                &&& (requests[0] matches TranscribeRequest::AudioChunk {
                    generation,
                    audio: a,
                    sample_rate,
                    channels,
                } && generation == t0.generation && a@ == audio && sample_rate == t0.sample_rate
                    && channels == t0.channels)
            }
        },
        SpeechRecCommand::AudioEnded => {
            let tail_len = spec_hangover_samples(t0.sample_rate, t0.channels, t0.hangover_ms);
            let has_tail = t0.hangover_ms != 0 && tail_len != 0 && tail_len <= usize::MAX;
            &&& t1.buffer@ == Seq::<u8>::empty()
            &&& t1.request_audio@ == Seq::<i16>::empty()
            &&& t1.generation == t0.generation
            &&& t1.request_id == wrapping_inc(t0.request_id)
            &&& (save matches Some(u) && u.request_id == t1.request_id && u.sample_rate
                == t0.sample_rate && u.channels == t0.channels && u.audio@.len()
                == t0.request_audio@.len() + (if has_tail {
                tail_len
            } else {
                0int
            }) && u.audio@.subrange(0, t0.request_audio@.len() as int) == t0.request_audio@)
            &&& if has_tail {
                &&& requests.len() == 2
                &&& (requests[0] matches TranscribeRequest::AudioChunk {
                    generation,
                    audio: a,
                    sample_rate,
                    channels,
                } && generation == t0.generation && a@.len() == tail_len && (forall|i: int|
                    0 <= i < a@.len() ==> a@[i] == 0i16) && sample_rate == t0.sample_rate
                    && channels == t0.channels)
                &&& requests[1] == (TranscribeRequest::End { generation: t0.generation })
            } else {
                requests == seq![TranscribeRequest::End { generation: t0.generation }]
            }
        },
        SpeechRecCommand::Reset => {
            &&& t1.buffer@ == Seq::<u8>::empty()
            &&& t1.request_audio@ == Seq::<i16>::empty()
            &&& t1.generation == wrapping_inc(t0.generation)
            &&& t1.request_id == t0.request_id
            &&& save is None
            &&& requests == seq![TranscribeRequest::Reset]
        },
        SpeechRecCommand::Shutdown => {
            t1 == t0 && save is None && requests == Seq::<TranscribeRequest>::empty()
        },
    }
}

impl SpeechRecTask {
    /// Handle one command from the orchestrator.
    pub fn handle_command(&mut self, cmd: SpeechRecCommand) -> (r: CommandEffects)
        requires
            (cmd matches SpeechRecCommand::AudioChunk(chunk) ==> old(self).buffer@.len()
                + chunk@.len() <= usize::MAX),
            (cmd is AudioEnded ==> old(self).request_audio@.len() + spec_hangover_samples(
                old(self).sample_rate,
                old(self).channels,
                old(self).hangover_ms,
            ) <= usize::MAX),
        ensures
            speech_command_handled(*old(self), *final(self), r.requests@, r.save, cmd),
    {
        let mut requests: Vec<TranscribeRequest> = Vec::new();
        match cmd {
            SpeechRecCommand::AudioChunk(chunk) => {
                let mut chunk = chunk;
                self.buffer.append(&mut chunk);
                proof {
                    crate::voice_output::lemma_mod_le(self.buffer@.len() as int, 2);
                }
                let aligned: usize = self.buffer.len() - self.buffer.len() % 2;
                if aligned == 0 {
                    proof {
                        assert(self.buffer@ =~= (old(self).buffer@ + cmd->AudioChunk_0@).skip(0));
                        assert(requests@ =~= Seq::<TranscribeRequest>::empty());
                    }
                    return CommandEffects { requests, save: None };
                }
                let tail = self.buffer.split_off(aligned);
                let mut head = tail;
                core::mem::swap(&mut self.buffer, &mut head);
                let audio = crate::voice_input::samples_from_le_bytes(&head);
                let mut ledger = crate::voice_input::samples_from_le_bytes(&head);
                self.request_audio.append(&mut ledger);
                let ghost combined = old(self).buffer@ + cmd->AudioChunk_0@;
                proof {
                    assert(head@ =~= combined.take(aligned as int));
                    assert(self.buffer@ =~= combined.skip(aligned as int));
                }
                requests.push(TranscribeRequest::AudioChunk {
                    generation: self.generation,
                    audio,
                    sample_rate: self.sample_rate,
                    channels: self.channels,
                });
                CommandEffects { requests, save: None }
            },
            SpeechRecCommand::AudioEnded => {
                self.buffer.clear();
                match build_hangover_silence(self.sample_rate, self.channels, self.hangover_ms) {
                    Some(silence) => {
                        let mut tail = silence;
                        let forward = match build_hangover_silence(
                            self.sample_rate,
                            self.channels,
                            self.hangover_ms,
                        ) {
                            Some(v) => v,
                            None => {
                                proof {
                                    assert(false);
                                }
                                Vec::new()
                            },
                        };
                        self.request_audio.append(&mut tail);
                        requests.push(TranscribeRequest::AudioChunk {
                            generation: self.generation,
                            audio: forward,
                            sample_rate: self.sample_rate,
                            channels: self.channels,
                        });
                    },
                    None => {},
                }
                self.request_id = if self.request_id == u64::MAX {
                    0
                } else {
                    self.request_id + 1
                };
                let mut utterance: Vec<i16> = Vec::new();
                core::mem::swap(&mut self.request_audio, &mut utterance);
                requests.push(TranscribeRequest::End { generation: self.generation });
                let save = Some(SavedUtterance {
                    request_id: self.request_id,
                    sample_rate: self.sample_rate,
                    channels: self.channels,
                    audio: utterance,
                });
                proof {
                    assert(self.buffer@ =~= Seq::<u8>::empty());
                    assert(self.request_audio@ =~= Seq::<i16>::empty());
                    assert(save->0.audio@.subrange(0, old(self).request_audio@.len() as int)
                        =~= old(self).request_audio@);
                    let tail_len = spec_hangover_samples(
                        old(self).sample_rate,
                        old(self).channels,
                        old(self).hangover_ms,
                    );
                    let has_tail = old(self).hangover_ms != 0 && tail_len != 0 && tail_len
                        <= usize::MAX;
                    if !has_tail {
                        assert(requests@ =~= seq![
                            TranscribeRequest::End { generation: old(self).generation },
                        ]);
                    }
                }
                CommandEffects { requests, save }
            },
            SpeechRecCommand::Reset => {
                self.generation = if self.generation == u64::MAX {
                    0
                } else {
                    self.generation + 1
                };
                self.buffer.clear();
                self.request_audio.clear();
                requests.push(TranscribeRequest::Reset);
                proof {
                    assert(self.buffer@ =~= Seq::<u8>::empty());
                    assert(self.request_audio@ =~= Seq::<i16>::empty());
                    assert(requests@ =~= seq![TranscribeRequest::Reset]);
                }
                CommandEffects { requests, save: None }
            },
            SpeechRecCommand::Shutdown => {
                proof {
                    assert(requests@ =~= Seq::<TranscribeRequest>::empty());
                }
                CommandEffects { requests, save: None }
            },
        }
    }
}

/// A reset always changes the task's generation, so a transcription
/// begun before the reset carries a value that no longer matches and
/// its answer is dropped by [`SpeechRecTask::handle_response`].  This
/// is the recognizer's half of generation-based cancellation.
pub proof fn lemma_reset_discards_pending_transcripts(
    t0: SpeechRecTask,
    t1: SpeechRecTask,
    requests: Seq<TranscribeRequest>,
    save: Option<SavedUtterance>,
)
    requires
        speech_command_handled(t0, t1, requests, save, SpeechRecCommand::Reset),
    ensures
        t1.generation != t0.generation,
{
}

} // verus!
