//! Voice input: the voice-activity tracker that turns per-chunk
//! speech decisions into utterance events, the chunking pipeline that
//! slices normalized samples into fixed-size blocks, and the exact
//! little-endian codec between samples and PCM bytes.
//!
//! Capture devices, resampling and the activity classifier itself are
//! outside: they hand in plain samples and a per-chunk speech flag.

use vstd::prelude::*;

use crate::protocol::VoiceInputEvent;

verus! {

/// A signed sample read as its unsigned sixteen-bit pattern.
pub open spec fn spec_sample_bits(v: i16) -> int {
    if v >= 0 {
        v as int
    } else {
        v + 0x10000
    }
}

/// The low byte of a sample's little-endian encoding.
pub open spec fn spec_le_lo(v: i16) -> u8 {
    (spec_sample_bits(v) % 256) as u8
}

/// The high byte of a sample's little-endian encoding.
pub open spec fn spec_le_hi(v: i16) -> u8 {
    (spec_sample_bits(v) / 256) as u8
}

/// Interleaved samples rendered as little-endian bytes.
pub open spec fn spec_samples_le_bytes(s: Seq<i16>) -> Seq<u8> {
    Seq::new(
        (s.len() * 2) as nat,
        |i: int|
            if i % 2 == 0 {
                spec_le_lo(s[i / 2])
            } else {
                spec_le_hi(s[i / 2])
            },
    )
}

/// Encode one sample as its two little-endian bytes.
pub fn sample_to_le_bytes(v: i16) -> (r: (u8, u8))
    ensures
        r.0 == spec_le_lo(v),
        r.1 == spec_le_hi(v),
{
    let u: u32 = if v >= 0 {
        v as u32
    } else {
        (v as i32 + 0x10000) as u32
    };
    ((u % 256) as u8, (u / 256) as u8)
}

/// The signed sample whose unsigned sixteen-bit pattern this is.
pub open spec fn spec_sample_of_bits(b: int) -> i16 {
    if b < 0x8000 {
        b as i16
    } else {
        (b - 0x10000) as i16
    }
}

/// The samples encoded by a run of little-endian bytes, whole pairs
/// only.
pub open spec fn spec_samples_of_le(bytes: Seq<u8>) -> Seq<i16> {
    Seq::new((bytes.len() / 2) as nat, |i: int| spec_sample_of_bits(bytes[2 * i] + 256 * (bytes[2 * i + 1] as int)))
}

/// Decode one sample from its two little-endian bytes.
pub fn sample_from_le_bytes(lo: u8, hi: u8) -> (v: i16)
    ensures
        v == spec_sample_of_bits(lo + 256 * (hi as int)),
        spec_sample_bits(v) == lo + 256 * (hi as int),
{
    let u: u32 = lo as u32 + 256 * (hi as u32);
    if u < 0x8000 {
        u as i16
    } else {
        (u as i32 - 0x10000) as i16
    }
}

/// Render a block of samples as interleaved little-endian PCM bytes.
pub fn samples_to_le_bytes(samples: &Vec<i16>) -> (r: Vec<u8>)
    requires
        samples@.len() * 2 <= usize::MAX,
    ensures
        r@ == spec_samples_le_bytes(samples@),
{
    let mut r: Vec<u8> = Vec::new();
    let mut i: usize = 0;
    while i < samples.len()
        invariant
            i <= samples@.len(),
            samples@.len() * 2 <= usize::MAX,
            r@.len() == 2 * i,
            forall|j: int|
                0 <= j < r@.len() ==> r@[j] == (if j % 2 == 0 {
                    spec_le_lo(samples@[j / 2])
                } else {
                    spec_le_hi(samples@[j / 2])
                }),
        decreases samples@.len() - i,
    {
        let (lo, hi) = sample_to_le_bytes(samples[i]);
        r.push(lo);
        r.push(hi);
        i = i + 1;
    }
    proof {
        assert(r@ =~= spec_samples_le_bytes(samples@));
    }
    r
}

/// Reassemble samples from interleaved little-endian PCM bytes,
/// reading whole sample pairs and ignoring a trailing odd byte.
pub fn samples_from_le_bytes(bytes: &Vec<u8>) -> (r: Vec<i16>)
    ensures
        r@ == spec_samples_of_le(bytes@),
        r@.len() == bytes@.len() / 2,
{
    let mut r: Vec<i16> = Vec::new();
    let n: usize = bytes.len() / 2;
    let mut i: usize = 0;
    while i < n
        invariant
            i <= n,
            n == bytes@.len() / 2,
            bytes@.len() <= usize::MAX,
            r@.len() == i,
            forall|k: int|
                0 <= k < r@.len() ==> #[trigger] r@[k] == spec_sample_of_bits(
                    bytes@[2 * k] + 256 * (bytes@[2 * k + 1] as int),
                ),
        decreases n - i,
    {
        let v = sample_from_le_bytes(bytes[2 * i], bytes[2 * i + 1]);
        r.push(v);
        i = i + 1;
    }
    proof {
        assert(r@ =~= spec_samples_of_le(bytes@));
    }
    r
}

/// Decoding undoes encoding: a block of samples rendered as bytes and
/// read back is itself.
pub proof fn lemma_samples_round_trip(s: Seq<i16>)
    ensures
        spec_samples_of_le(spec_samples_le_bytes(s)) == s,
{
    let bytes = spec_samples_le_bytes(s);
    assert forall|i: int| 0 <= i < s.len() implies #[trigger] spec_samples_of_le(bytes)[i]
        == s[i] by {
        assert(bytes[2 * i] == spec_le_lo(s[i]));
        assert(bytes[2 * i + 1] == spec_le_hi(s[i]));
        assert(spec_sample_bits(s[i]) / 256 < 256);
        assert(spec_le_lo(s[i]) + 256 * (spec_le_hi(s[i]) as int) == spec_sample_bits(s[i]));
    }
    assert(spec_samples_of_le(bytes) =~= s);
}

/// The tracker's three phases.
#[derive(Debug, Clone, Copy, PartialEq, Eq, Structural)]
pub enum VadStatus {
    Silence,
    Speech,
    Hangover,
}

impl VadStatus {
    /// The log spelling of the phase.
    pub fn label(self) -> (r: &'static str)
        ensures
            self is Silence ==> r@ == "SILENCE"@,
            self is Speech ==> r@ == "SPEECH_DETECTED"@,
            self is Hangover ==> r@ == "SPEECH_HANGOVER"@,
    {
        match self {
            VadStatus::Silence => "SILENCE",
            VadStatus::Speech => "SPEECH_DETECTED",
            VadStatus::Hangover => "SPEECH_HANGOVER",
        }
    }
}

/// What handling one chunk asks of the caller: the events to
/// broadcast, and whether the activity classifier's own state must be
/// reset with the tracker.
pub struct ChunkOutcome {
    pub events: Vec<VoiceInputEvent>,
    pub reset_engine: bool,
}

/// The voice-activity tracker: turns a stream of per-chunk speech
/// decisions into speech/hangover/silence phases and the
/// end-of-utterance event.
pub struct VadTracker {
    /// How long after the last detected speech audio keeps flowing.
    pub hangover_ms: u64,
    /// How long after `begin_listen` silence is still forwarded.
    pub start_grace_ms: u64,
    pub last_status: VadStatus,
    pub last_speech: Option<u64>,
    pub start_grace_until: Option<u64>,
}

/// The exact effect of feeding one classified chunk to the tracker in
/// a given state: which phase it moves to, which events it emits, and
/// when it declares the utterance over.
pub open spec fn chunk_processed(
    t0: VadTracker,
    t1: VadTracker,
    events: Seq<VoiceInputEvent>,
    reset_engine: bool,
    is_speech: bool,
    now_ms: u64,
    chunk: Seq<u8>,
) -> bool {
    &&& t1.hangover_ms == t0.hangover_ms
    &&& t1.start_grace_ms == t0.start_grace_ms
    &&& if chunk.len() == 0 {
        t1 == t0 && events == Seq::<VoiceInputEvent>::empty() && !reset_engine
    } else if is_speech {
        &&& t1.last_status == VadStatus::Speech
        &&& t1.last_speech == Option::Some(now_ms)
        &&& t1.start_grace_until is None
        &&& !reset_engine
        &&& events.len() == (if t0.last_status != VadStatus::Speech {
            2int
        } else {
            1int
        })
        &&& (t0.last_status != VadStatus::Speech ==> events[0] == VoiceInputEvent::VadSpeech)
        &&& (events.last() matches VoiceInputEvent::AudioChunk(c) && c@ == chunk)
    } else if t0.start_grace_until matches Some(until) && now_ms < until {
        &&& t1.last_status == VadStatus::Hangover
        &&& t1.last_speech == t0.last_speech
        &&& t1.start_grace_until == t0.start_grace_until
        &&& !reset_engine
        &&& events.len() == 1
        &&& (events[0] matches VoiceInputEvent::AudioChunk(c) && c@ == chunk)
    } else if t0.start_grace_until is Some {
        &&& tracker_reset(t0, t1)
        &&& reset_engine
        &&& events == silence_events(t0.last_status)
    } else if t0.last_speech matches Some(last) && (if now_ms >= last {
        now_ms - last
    } else {
        0int
    }) < t0.hangover_ms {
        &&& t1.last_status == VadStatus::Hangover
        &&& t1.last_speech == t0.last_speech
        &&& t1.start_grace_until is None
        &&& !reset_engine
        &&& events.len() == 1
        &&& (events[0] matches VoiceInputEvent::AudioChunk(c) && c@ == chunk)
    } else if t0.last_speech is Some {
        &&& tracker_reset(t0, t1)
        &&& reset_engine
        &&& events == silence_events(t0.last_status)
    } else {
        &&& t1.last_status == VadStatus::Silence
        &&& t1.last_speech is None
        &&& t1.start_grace_until == t0.start_grace_until
        &&& !reset_engine
        &&& events == (if t0.last_status != VadStatus::Silence {
            seq![VoiceInputEvent::VadSilence]
        } else {
            Seq::<VoiceInputEvent>::empty()
        })
    }
}

/// The tracker after a full reset.
pub open spec fn tracker_reset(t0: VadTracker, t1: VadTracker) -> bool {
    t1 == (VadTracker {
        last_status: VadStatus::Silence,
        last_speech: None,
        start_grace_until: None,
        ..t0
    })
}

/// The utterance-closing events: end of audio, then silence — unless
/// the tracker already sat in silence.
pub open spec fn silence_events(last_status: VadStatus) -> Seq<VoiceInputEvent> {
    if last_status != VadStatus::Silence {
        seq![VoiceInputEvent::AudioEnded, VoiceInputEvent::VadSilence]
    } else {
        Seq::empty()
    }
}

impl VadTracker {
    pub fn new(hangover_ms: u64, start_grace_ms: u64) -> (r: VadTracker)
        ensures
            r.hangover_ms == hangover_ms,
            r.start_grace_ms == start_grace_ms,
            r.last_status == VadStatus::Silence,
            r.last_speech is None,
            r.start_grace_until is None,
    {
        VadTracker {
            hangover_ms,
            start_grace_ms,
            last_status: VadStatus::Silence,
            last_speech: None,
            start_grace_until: None,
        }
    }

    /// Reset the phase tracking; the caller resets the classifier too.
    pub fn reset(&mut self)
        ensures
            tracker_reset(*old(self), *final(self)),
    {
        self.last_status = VadStatus::Silence;
        self.last_speech = None;
        self.start_grace_until = None;
    }

    /// Start a listening window: reset, then arm the grace period in
    /// which silence is still forwarded.
    pub fn begin_listen(&mut self, now_ms: u64)
        requires
            now_ms + old(self).start_grace_ms <= u64::MAX,
        ensures
            final(self).hangover_ms == old(self).hangover_ms,
            final(self).start_grace_ms == old(self).start_grace_ms,
            final(self).last_status == VadStatus::Silence,
            final(self).last_speech is None,
            final(self).start_grace_until == (if old(self).start_grace_ms == 0 {
                Option::<u64>::None
            } else {
                Option::<u64>::Some((now_ms + old(self).start_grace_ms) as u64)
            }),
    {
        self.reset();
        if self.start_grace_ms != 0 {
            self.start_grace_until = Some(now_ms + self.start_grace_ms);
        }
    }

    /// Close the utterance if one is open; used at shutdown.
    pub fn force_silence(&mut self) -> (r: ChunkOutcome)
        ensures
            tracker_reset(*old(self), *final(self)),
            r.reset_engine,
            r.events@ == silence_events(old(self).last_status),
    {
        let mut events: Vec<VoiceInputEvent> = Vec::new();
        if !matches!(self.last_status, VadStatus::Silence) {
            events.push(VoiceInputEvent::AudioEnded);
            events.push(VoiceInputEvent::VadSilence);
            proof {
                assert(events@ =~= seq![VoiceInputEvent::AudioEnded, VoiceInputEvent::VadSilence]);
            }
        } else {
            proof {
                assert(events@ =~= Seq::<VoiceInputEvent>::empty());
            }
        }
        self.reset();
        ChunkOutcome { events, reset_engine: true }
    }

    /// Feed one classified chunk through the tracker.
    pub fn process_chunk(&mut self, is_speech: bool, now_ms: u64, chunk: Vec<u8>) -> (r:
        ChunkOutcome)
        ensures
            chunk_processed(
                *old(self),
                *final(self),
                r.events@,
                r.reset_engine,
                is_speech,
                now_ms,
                chunk@,
            ),
    {
        let mut events: Vec<VoiceInputEvent> = Vec::new();
        if chunk.len() == 0 {
            proof {
                assert(events@ =~= Seq::<VoiceInputEvent>::empty());
            }
            return ChunkOutcome { events, reset_engine: false };
        }

        if is_speech {
            self.start_grace_until = None;
            if !matches!(self.last_status, VadStatus::Speech) {
                events.push(VoiceInputEvent::VadSpeech);
            }
            self.last_status = VadStatus::Speech;
            self.last_speech = Some(now_ms);
            let ghost c = chunk@;
            events.push(VoiceInputEvent::AudioChunk(chunk));
            proof {
                assert(events@.last() matches VoiceInputEvent::AudioChunk(cc) && cc@ == c);
            }
            return ChunkOutcome { events, reset_engine: false };
        }

        let grace = self.start_grace_until;
        match grace {
            Some(until) => {
                if now_ms < until {
                    self.last_status = VadStatus::Hangover;
                    let ghost c = chunk@;
                    events.push(VoiceInputEvent::AudioChunk(chunk));
                    proof {
                        assert(events@ =~= seq![events@[0]]);
                    }
                    return ChunkOutcome { events, reset_engine: false };
                }
                self.start_grace_until = None;
                if !matches!(self.last_status, VadStatus::Silence) {
                    events.push(VoiceInputEvent::AudioEnded);
                    events.push(VoiceInputEvent::VadSilence);
                    proof {
                        assert(events@ =~= seq![
                            VoiceInputEvent::AudioEnded,
                            VoiceInputEvent::VadSilence,
                        ]);
                    }
                } else {
                    proof {
                        assert(events@ =~= Seq::<VoiceInputEvent>::empty());
                    }
                }
                self.reset();
                ChunkOutcome { events, reset_engine: true }
            },
            None => {
                match self.last_speech {
                    Some(last) => {
                        let elapsed: u64 = if now_ms >= last {
                            now_ms - last
                        } else {
                            0
                        };
                        if elapsed < self.hangover_ms {
                            self.last_status = VadStatus::Hangover;
                            events.push(VoiceInputEvent::AudioChunk(chunk));
                            proof {
                                assert(events@ =~= seq![events@[0]]);
                            }
                            ChunkOutcome { events, reset_engine: false }
                        } else {
                            if !matches!(self.last_status, VadStatus::Silence) {
                                events.push(VoiceInputEvent::AudioEnded);
                                events.push(VoiceInputEvent::VadSilence);
                                proof {
                                    assert(events@ =~= seq![
                                        VoiceInputEvent::AudioEnded,
                                        VoiceInputEvent::VadSilence,
                                    ]);
                                }
                            } else {
                                proof {
                                    assert(events@ =~= Seq::<VoiceInputEvent>::empty());
                                }
                            }
                            self.reset();
                            ChunkOutcome { events, reset_engine: true }
                        }
                    },
                    None => {
                        if !matches!(self.last_status, VadStatus::Silence) {
                            events.push(VoiceInputEvent::VadSilence);
                            self.last_status = VadStatus::Silence;
                            proof {
                                assert(events@ =~= seq![VoiceInputEvent::VadSilence]);
                            }
                        } else {
                            proof {
                                assert(events@ =~= Seq::<VoiceInputEvent>::empty());
                            }
                        }
                        ChunkOutcome { events, reset_engine: false }
                    },
                }
            },
        }
    }
}


/// The chunking pipeline: normalized samples accumulate until whole
/// blocks of `chunk_size` frames can be cut, and a final flush hands
/// out the remainder.  The ghost records carry every sample fed and
/// every sample emitted, so that nothing is lost and nothing is
/// invented: what comes out is exactly what went in, whole blocks
/// first, one short flush at the end.
pub struct AudioPipeline {
    /// Frames per emitted chunk.
    pub chunk_size: usize,
    /// Samples per frame.
    pub target_channels: usize,
    /// Samples accumulated and not yet emitted.
    pub pending: Vec<i16>,
    /// Every sample fed in.
    pub fed: Ghost<Seq<i16>>,
    /// Every sample emitted in chunks or flushed.
    pub emitted: Ghost<Seq<i16>>,
}

/// All emitted chunks laid end to end.
pub open spec fn spec_concat_chunks(chunks: Seq<Vec<i16>>) -> Seq<i16>
    decreases chunks.len(),
{
    if chunks.len() == 0 {
        Seq::empty()
    } else {
        spec_concat_chunks(chunks.drop_last()) + chunks.last()@
    }
}

proof fn lemma_concat_chunks_push(chunks: Seq<Vec<i16>>, c: Vec<i16>)
    ensures
        spec_concat_chunks(chunks.push(c)) == spec_concat_chunks(chunks) + c@,
{
    assert(chunks.push(c).drop_last() =~= chunks);
    assert(chunks.push(c).last() == c);
}

proof fn lemma_mod_sum_zero(a: int, b: int, m: int)
    requires
        m > 0,
        a % m == 0,
        b % m == 0,
        a >= 0,
        b >= 0,
    ensures
        (a + b) % m == 0,
{
    vstd::arithmetic::div_mod::lemma_add_mod_noop(a, b, m);
    vstd::arithmetic::div_mod::lemma_small_mod(0nat, m as nat);
}

impl AudioPipeline {
    /// Samples per emitted chunk.
    pub open spec fn spec_target(self) -> int {
        self.chunk_size * self.target_channels
    }

    /// Every fed sample is either already emitted, in order, or still
    /// pending; whole chunks hold a whole multiple of the block size.
    pub open spec fn wf(self) -> bool {
        &&& self.emitted@ + self.pending@ == self.fed@
        &&& self.emitted@.len() % (self.spec_target() as nat) == 0
        &&& self.spec_target() > 0
        &&& self.spec_target() <= usize::MAX
    }

    pub fn new(chunk_size: usize, target_channels: usize) -> (r: AudioPipeline)
        requires
            chunk_size * target_channels > 0,
            chunk_size * target_channels <= usize::MAX,
        ensures
            r.wf(),
            r.chunk_size == chunk_size,
            r.target_channels == target_channels,
            r.pending@ == Seq::<i16>::empty(),
            r.fed@ == Seq::<i16>::empty(),
            r.emitted@ == Seq::<i16>::empty(),
    {
        let r = AudioPipeline {
            chunk_size,
            target_channels,
            pending: Vec::new(),
            fed: Ghost(Seq::empty()),
            emitted: Ghost(Seq::empty()),
        };
        proof {
            assert(r.emitted@ + r.pending@ =~= r.fed@);
            vstd::arithmetic::div_mod::lemma_small_mod(
                0nat,
                (chunk_size * target_channels) as nat,
            );
        }
        r
    }

    /// Feed normalized samples in; every block of `chunk_size` frames
    /// that becomes complete comes out, in order.
    pub fn push_samples(&mut self, input: Vec<i16>) -> (chunks: Vec<Vec<i16>>)
        requires
            old(self).wf(),
            old(self).pending@.len() + input@.len() <= usize::MAX,
        ensures
            final(self).wf(),
            final(self).chunk_size == old(self).chunk_size,
            final(self).target_channels == old(self).target_channels,
            final(self).fed@ == old(self).fed@ + input@,
            final(self).pending@.len() < old(self).spec_target(),
            forall|i: int|
                0 <= i < chunks@.len() ==> (#[trigger] chunks@[i])@.len() == old(
                    self,
                ).spec_target(),
            final(self).emitted@ == old(self).emitted@ + spec_concat_chunks(chunks@),
    {
        let ghost given = input@;
        let mut input = input;
        self.pending.append(&mut input);
        proof {
            self.fed@ = self.fed@ + given;
            assert(self.emitted@ + self.pending@ =~= (old(self).emitted@ + old(self).pending@)
                + given);
            assert((old(self).emitted@ + old(self).pending@) + given =~= old(self).fed@ + given);
        }
        let target: usize = self.chunk_size * self.target_channels;
        let mut chunks: Vec<Vec<i16>> = Vec::new();
        proof {
            assert(spec_concat_chunks(chunks@) =~= Seq::<i16>::empty());
            assert(self.emitted@ + spec_concat_chunks(chunks@) =~= self.emitted@);
        }
        while self.pending.len() >= target
            invariant
                self.spec_target() == target,
                self.wf(),
                self.chunk_size == old(self).chunk_size,
                self.target_channels == old(self).target_channels,
                self.fed@ == old(self).fed@ + given,
                self.emitted@ == old(self).emitted@ + spec_concat_chunks(chunks@),
                forall|i: int|
                    0 <= i < chunks@.len() ==> (#[trigger] chunks@[i])@.len() == target,
            decreases self.pending@.len(),
        {
            let ghost before = self.pending@;
            let rest = self.pending.split_off(target);
            let mut chunk = rest;
            core::mem::swap(&mut self.pending, &mut chunk);
            proof {
                assert(chunk@ =~= before.take(target as int));
                assert(self.pending@ =~= before.skip(target as int));
                let e0 = self.emitted@;
                self.emitted@ = e0 + chunk@;
                lemma_concat_chunks_push(chunks@, chunk);
                assert(spec_concat_chunks(chunks@.push(chunk)) =~= spec_concat_chunks(chunks@)
                    + chunk@);
                assert(self.emitted@ =~= (old(self).emitted@ + spec_concat_chunks(chunks@))
                    + chunk@);
                assert((old(self).emitted@ + spec_concat_chunks(chunks@)) + chunk@ =~= old(
                    self,
                ).emitted@ + (spec_concat_chunks(chunks@) + chunk@));
                assert(chunk@ + self.pending@ =~= before);
                assert(self.emitted@ + self.pending@ =~= (e0 + before));
                lemma_mod_sum_zero(e0.len() as int, target as int, target as int);
                vstd::arithmetic::div_mod::lemma_mod_self_0(target as int);
            }
            chunks.push(chunk);
        }
        chunks
    }

    /// Flush the remainder: at most one short block, carrying every
    /// sample not yet emitted.  Afterwards everything ever fed has
    /// been emitted: the whole blocks held the largest multiple of the
    /// chunk size, and this flush held the rest.
    pub fn finish(&mut self) -> (r: Option<Vec<i16>>)
        requires
            old(self).wf(),
        ensures
            final(self).chunk_size == old(self).chunk_size,
            final(self).target_channels == old(self).target_channels,
            final(self).fed@ == old(self).fed@,
            final(self).pending@ == Seq::<i16>::empty(),
            final(self).emitted@ == final(self).fed@,
            (r is Some) == (old(self).pending@.len() > 0),
            (r matches Some(leftover) ==> leftover@ == old(self).pending@),
    {
        if self.pending.len() == 0 {
            proof {
                assert(self.pending@ =~= Seq::<i16>::empty());
                assert(self.emitted@ =~= self.emitted@ + self.pending@);
            }
            return None;
        }
        let mut leftover: Vec<i16> = Vec::new();
        core::mem::swap(&mut self.pending, &mut leftover);
        proof {
            let e0 = self.emitted@;
            self.emitted@ = e0 + leftover@;
            assert(self.pending@ =~= Seq::<i16>::empty());
        }
        Some(leftover)
    }
}

} // verus!
