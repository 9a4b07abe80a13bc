//! Voice output: the worker dispatch that owns the single active
//! playback, the chunked-stream buffering with its silence prebuffer
//! and frame alignment, and the pure parts of the blocking MP3 stream
//! reader.
//!
//! The audio device itself lives outside; the worker here decides, and
//! returns the sink operations to perform.

use vstd::prelude::*;

use crate::protocol::{AudioOutput, AudioStreamFormat, VoiceOutputCommand};

verus! {

use vstd::arithmetic::div_mod::{
    lemma_add_mod_noop,
    lemma_fundamental_div_mod,
    lemma_mod_division_less_than_divisor,
    lemma_mod_multiples_basic,
    lemma_small_mod,
};
use vstd::arithmetic::mul::lemma_mul_is_commutative;

/// Silence injected ahead of any streamed audio to absorb jitter.
pub const START_SILENCE_MS: u64 = 50;

/// Each sample of interleaved signed-16 PCM occupies two bytes.
pub const BYTES_PER_SAMPLE: u64 = 2;

/// Bytes per frame: one two-byte sample per channel, channels read as
/// at least one.
pub open spec fn spec_frame_bytes(channels: u16) -> int {
    (if channels == 0 {
        1int
    } else {
        channels as int
    }) * 2
}

/// Bytes per millisecond of PCM in the given format, rounded down.
pub open spec fn spec_bytes_per_ms(sample_rate: u32, channels: u16) -> int {
    let sr = if sample_rate == 0 {
        1int
    } else {
        sample_rate as int
    };
    let ch = if channels == 0 {
        1int
    } else {
        channels as int
    };
    sr * ch * 2 / 1000
}

/// The buffering threshold: about forty milliseconds of PCM, and
/// never less than one frame.
pub open spec fn spec_min_pcm_chunk_bytes(sample_rate: u32, channels: u16) -> int {
    let by_rate = spec_bytes_per_ms(sample_rate, channels) * 40;
    let floor = spec_frame_bytes(channels);
    if by_rate >= floor {
        by_rate
    } else {
        floor
    }
}

/// How much PCM must accumulate before anything is pushed to the
/// sink.
pub fn min_pcm_chunk_bytes(sample_rate: u32, channels: u16) -> (r: usize)
    ensures
        spec_min_pcm_chunk_bytes(sample_rate, channels) <= usize::MAX ==> r
            == spec_min_pcm_chunk_bytes(sample_rate, channels),
{
    let ms: u64 = 40;
    let ch: u64 = if channels == 0 {
        1
    } else {
        channels as u64
    };
    let sr: u64 = if sample_rate == 0 {
        1
    } else {
        sample_rate as u64
    };
    assert(sr * ch * 2 <= 0x200_0000_0000_0000) by (nonlinear_arith)
        requires
            sr <= 0x1_0000_0000u64,
            ch <= 0x1_0000u64,
    ;
    let bytes_per_ms: u64 = sr * ch * BYTES_PER_SAMPLE / 1000;
    let by_rate: u64 = bytes_per_ms * ms;
    let floor: u64 = ch * BYTES_PER_SAMPLE;
    let min: u64 = if by_rate >= floor {
        by_rate
    } else {
        floor
    };
    #[verifier::truncate]
    (min as usize)
}

/// The buffering threshold for streamed MP3: a token few bytes to
/// prime the decoder.
pub fn min_mp3_chunk_bytes() -> (r: usize)
    ensures
        r == 4,
{
    4
}

/// The silence prebuffer length in bytes for the given format.
pub open spec fn spec_silence_len(sample_rate: u32, channels: u16, ms: u64) -> int {
    spec_bytes_per_ms(sample_rate, channels) * ms
}

/// A run of zero bytes long enough to play for `ms` milliseconds.
pub fn silence_pcm_bytes(sample_rate: u32, channels: u16, ms: u64) -> (r: Vec<u8>)
    ensures
        spec_silence_len(sample_rate, channels, ms) <= usize::MAX ==> r@ =~= Seq::new(
            spec_silence_len(sample_rate, channels, ms) as nat,
            |i: int| 0u8,
        ),
{
    let ch: u64 = if channels == 0 {
        1
    } else {
        channels as u64
    };
    let sr: u64 = if sample_rate == 0 {
        1
    } else {
        sample_rate as u64
    };
    assert(sr * ch * 2 <= 0x200_0000_0000_0000) by (nonlinear_arith)
        requires
            sr <= 0x1_0000_0000u64,
            ch <= 0x1_0000u64,
    ;
    let bytes_per_ms: u64 = sr * ch * BYTES_PER_SAMPLE / 1000;
    let len: u64 = match bytes_per_ms.checked_mul(ms) {
        Some(v) => v,
        None => u64::MAX,
    };
    let mut r: Vec<u8> = Vec::new();
    let mut i: u64 = 0;
    while i < len
        invariant
            i <= len,
            r@.len() == i,
            forall|j: int| 0 <= j < r@.len() ==> r@[j] == 0u8,
        decreases len - i,
    {
        r.push(0u8);
        i = i + 1;
    }
    r
}

/// The state of one chunked PCM playback: bytes buffered but not yet
/// handed to the sink, plus ghost records of everything the client
/// pushed and everything the sink received.
pub struct PcmStream {
    pub sample_rate: u32,
    pub channels: u16,
    /// Bytes accumulated and not yet pushed, frame-misaligned tail
    /// included.  Starts out holding the silence prebuffer.
    pub pending: Vec<u8>,
    /// Threshold below which nothing is pushed to the sink.
    pub min_bytes: usize,
    /// The playback generation captured when this stream started.
    pub generation: u64,
    /// Whether the stream has been flushed and closed.
    pub closed: bool,
    /// Every byte the client has pushed into this stream.
    pub pushed: Ghost<Seq<u8>>,
    /// Every byte handed to the sink so far.
    pub sent: Ghost<Seq<u8>>,
}

impl PcmStream {
    /// Every byte is accounted for: what went to the sink plus what is
    /// still buffered is exactly the prebuffer followed by the pushed
    /// bytes, and the sink has only ever received whole frames.
    pub open spec fn wf(self) -> bool {
        &&& self.sent@ + self.pending@ == Seq::new(
            spec_silence_len(self.sample_rate, self.channels, START_SILENCE_MS) as nat,
            |i: int| 0u8,
        ) + self.pushed@
        &&& self.sent@.len() % spec_frame_bytes(self.channels) as nat == 0
        &&& spec_silence_len(self.sample_rate, self.channels, START_SILENCE_MS) <= usize::MAX
    }

    /// Open a new chunked PCM playback: nothing sent yet, the silence
    /// prebuffer already pending.
    pub fn start(sample_rate: u32, channels: u16, generation: u64) -> (r: PcmStream)
        requires
            spec_silence_len(sample_rate, channels, START_SILENCE_MS) <= usize::MAX,
        ensures
            r.wf(),
            r.sample_rate == sample_rate,
            r.channels == channels,
            r.generation == generation,
            !r.closed,
            r.pushed@ == Seq::<u8>::empty(),
            r.sent@ == Seq::<u8>::empty(),
            spec_min_pcm_chunk_bytes(sample_rate, channels) <= usize::MAX ==> r.min_bytes
                == spec_min_pcm_chunk_bytes(sample_rate, channels),
    {
        let pending = silence_pcm_bytes(sample_rate, channels, START_SILENCE_MS);
        let min_bytes = min_pcm_chunk_bytes(sample_rate, channels);
        let r = PcmStream {
            sample_rate,
            channels,
            pending,
            min_bytes,
            generation,
            closed: false,
            pushed: Ghost(Seq::empty()),
            sent: Ghost(Seq::empty()),
        };
        proof {
            assert(r.sent@ + r.pending@ =~= Seq::new(
                spec_silence_len(sample_rate, channels, START_SILENCE_MS) as nat,
                |i: int| 0u8,
            ) + r.pushed@);
        }
        r
    }

    /// Accept one chunk from the client and return the bytes that go
    /// to the sink now: nothing until `min_bytes` have accumulated,
    /// then everything buffered, truncated to whole frames.
    pub fn push(&mut self, data: Vec<u8>) -> (sent_now: Vec<u8>)
        requires
            old(self).wf(),
            !old(self).closed,
            old(self).pending@.len() + data@.len() <= usize::MAX,
        ensures
            final(self).wf(),
            final(self).sample_rate == old(self).sample_rate,
            final(self).channels == old(self).channels,
            final(self).min_bytes == old(self).min_bytes,
            final(self).generation == old(self).generation,
            !final(self).closed,
            final(self).pushed@ == old(self).pushed@ + data@,
            final(self).sent@ == old(self).sent@ + sent_now@,
            ({
                let combined = old(self).pending@ + data@;
                let aligned = combined.len() as int - combined.len() as int % spec_frame_bytes(
                    old(self).channels,
                );
                if combined.len() < old(self).min_bytes || aligned == 0 {
                    sent_now@ == Seq::<u8>::empty() && final(self).pending@ == combined
                } else {
                    sent_now@ == combined.take(aligned) && final(self).pending@ == combined.skip(
                        aligned,
                    )
                }
            }),
    {
        let mut data = data;
        let ghost given = data@;
        self.pending.append(&mut data);
        proof {
            self.pushed@ = self.pushed@ + given;
        }
        let ghost combined = self.pending@;
        if self.pending.len() < self.min_bytes {
            let sent_now: Vec<u8> = Vec::new();
            proof {
                assert(sent_now@ =~= Seq::<u8>::empty());
                assert(self.sent@ =~= self.sent@ + sent_now@);
                lemma_wf_extend(*self, *old(self), given);
            }
            return sent_now;
        }
        let ch: usize = if self.channels == 0 {
            1
        } else {
            self.channels as usize
        };
        let frame_bytes: usize = ch * 2;
        proof {
            lemma_mod_le(self.pending@.len() as int, frame_bytes as int);
        }
        let aligned: usize = self.pending.len() - self.pending.len() % frame_bytes;
        if aligned == 0 {
            let sent_now: Vec<u8> = Vec::new();
            proof {
                assert(sent_now@ =~= Seq::<u8>::empty());
                assert(self.sent@ =~= self.sent@ + sent_now@);
                lemma_wf_extend(*self, *old(self), given);
            }
            return sent_now;
        }
        let tail = self.pending.split_off(aligned);
        let mut sent_now = tail;
        core::mem::swap(&mut self.pending, &mut sent_now);
        proof {
            self.sent@ = self.sent@ + sent_now@;
            assert(sent_now@ =~= combined.take(aligned as int));
            assert(self.pending@ =~= combined.skip(aligned as int));
            lemma_aligned_is_multiple(combined.len() as int, spec_frame_bytes(self.channels));
            assert(old(self).sent@.len() % spec_frame_bytes(self.channels) as nat == 0);
            lemma_mod_sum_zero(
                old(self).sent@.len() as int,
                aligned as int,
                spec_frame_bytes(self.channels),
            );
            assert(self.sent@ + self.pending@ =~= old(self).sent@ + (old(self).pending@ + given));
            let ghost silence = Seq::new(
                spec_silence_len(self.sample_rate, self.channels, START_SILENCE_MS) as nat,
                |i: int| 0u8,
            );
            assert((old(self).sent@ + old(self).pending@) + given =~= old(self).sent@ + (old(
                self,
            ).pending@ + given));
            assert((silence + old(self).pushed@) + given =~= silence + (old(self).pushed@
                + given));
            assert(old(self).sent@ + (old(self).pending@ + given) =~= silence + (old(self).pushed@
                + given));
        }
        sent_now
    }

    /// Close the stream: flush whatever is still pending, truncated to
    /// whole two-byte samples.  Afterwards the sink holds the whole
    /// prebuffer and every pushed byte, less only a trailing half
    /// sample — the round trip plays exactly what was sent, after
    /// frame-alignment truncation.
    pub fn end(&mut self) -> (flushed: Vec<u8>)
        requires
            old(self).wf(),
            !old(self).closed,
        ensures
            final(self).sample_rate == old(self).sample_rate,
            final(self).channels == old(self).channels,
            final(self).min_bytes == old(self).min_bytes,
            final(self).generation == old(self).generation,
            final(self).closed,
            final(self).pushed@ == old(self).pushed@,
            final(self).pending@ == Seq::<u8>::empty(),
            flushed@ == old(self).pending@.take(
                old(self).pending@.len() as int - old(self).pending@.len() as int % 2,
            ),
            final(self).sent@ == old(self).sent@ + flushed@,
            ({
                let total = spec_silence_len(old(self).sample_rate, old(self).channels,
                    START_SILENCE_MS) + old(self).pushed@.len();
                final(self).sent@.len() == total - total % 2
            }),
    {
        proof {
            lemma_mod_le(self.pending@.len() as int, 2);
        }
        let aligned: usize = self.pending.len() - self.pending.len() % 2;
        let tail = self.pending.split_off(aligned);
        let mut flushed = tail;
        core::mem::swap(&mut self.pending, &mut flushed);
        self.pending.clear();
        self.closed = true;
        proof {
            self.sent@ = self.sent@ + flushed@;
            assert(flushed@ =~= old(self).pending@.take(aligned as int));
            assert(self.pending@ =~= Seq::<u8>::empty());
            let frame = spec_frame_bytes(old(self).channels);
            let sent0 = old(self).sent@.len() as int;
            let pend0 = old(self).pending@.len() as int;
            let total = spec_silence_len(old(self).sample_rate, old(self).channels,
                START_SILENCE_MS) + old(self).pushed@.len();
            lemma_even_frame_mod(sent0, frame);
            lemma_add_mod_noop(sent0, pend0, 2);
            lemma_mod_division_less_than_divisor(pend0, 2);
            lemma_small_mod((pend0 % 2) as nat, 2nat);
            assert((sent0 + pend0) % 2 == pend0 % 2);
            lemma_silence_len_nonneg(old(self).sample_rate, old(self).channels);
            assert(old(self).sent@ + old(self).pending@ == Seq::new(
                spec_silence_len(old(self).sample_rate, old(self).channels,
                    START_SILENCE_MS) as nat,
                |i: int| 0u8,
            ) + old(self).pushed@);
            assert((old(self).sent@ + old(self).pending@).len() == sent0 + pend0);
            assert((Seq::new(
                spec_silence_len(old(self).sample_rate, old(self).channels,
                    START_SILENCE_MS) as nat,
                |i: int| 0u8,
            ) + old(self).pushed@).len() == total);
            assert(sent0 + pend0 == total);
        }
        flushed
    }
}

/// The silence prebuffer length is never negative.
proof fn lemma_silence_len_nonneg(sample_rate: u32, channels: u16)
    ensures
        spec_silence_len(sample_rate, channels, START_SILENCE_MS) >= 0,
{
    let sr: int = if sample_rate == 0 { 1int } else { sample_rate as int };
    let ch: int = if channels == 0 { 1int } else { channels as int };
    assert(sr * ch * 2 >= 0) by (nonlinear_arith)
        requires
            sr >= 1,
            ch >= 1,
    ;
    vstd::arithmetic::div_mod::lemma_div_pos_is_pos(sr * ch * 2, 1000);
    assert(spec_bytes_per_ms(sample_rate, channels) * START_SILENCE_MS >= 0) by (nonlinear_arith)
        requires
            spec_bytes_per_ms(sample_rate, channels) >= 0,
    ;
}

/// A nonnegative value's remainder never exceeds the value.
pub proof fn lemma_mod_le(a: int, m: int)
    requires
        m > 0,
        a >= 0,
    ensures
        0 <= a % m <= a,
{
    lemma_mod_division_less_than_divisor(a, m);
    if a < m {
        lemma_small_mod(a as nat, m as nat);
    }
}

/// A total divisible by a frame stays divisible when another whole
/// number of frames is added.
proof fn lemma_mod_sum_zero(a: int, b: int, m: int)
    requires
        m > 0,
        a % m == 0,
        b % m == 0,
        a >= 0,
        b >= 0,
    ensures
        (a + b) % m == 0,
{
    lemma_add_mod_noop(a, b, m);
    lemma_small_mod(0nat, m as nat);
}

/// Subtracting a length's remainder leaves a multiple of the frame.
proof fn lemma_aligned_is_multiple(len: int, m: int)
    requires
        m > 0,
        len >= 0,
    ensures
        (len - len % m) % m == 0,
{
    lemma_fundamental_div_mod(len, m);
    let q = len / m;
    assert(len - len % m == m * q);
    lemma_mul_is_commutative(m, q);
    lemma_mod_multiples_basic(q, m);
}

/// A count of whole frames is a count of whole two-byte samples.
proof fn lemma_even_frame_mod(a: int, frame: int)
    requires
        a >= 0,
        frame % 2 == 0,
        frame > 0,
        a % frame == 0,
    ensures
        a % 2 == 0,
{
    lemma_fundamental_div_mod(a, frame);
    let k = a / frame;
    assert(a == frame * k);
    lemma_fundamental_div_mod(frame, 2);
    let h = frame / 2;
    assert(frame == 2 * h);
    assert(a == (h * k) * 2) by (nonlinear_arith)
        requires
            a == frame * k,
            frame == 2 * h,
    ;
    lemma_mod_multiples_basic(h * k, 2);
}

/// Re-establish the byte accounting after extending the pending
/// buffer without sending anything.
proof fn lemma_wf_extend(s1: PcmStream, s0: PcmStream, data: Seq<u8>)
    requires
        s0.wf(),
        s1.sample_rate == s0.sample_rate,
        s1.channels == s0.channels,
        s1.sent@ == s0.sent@,
        s1.pushed@ == s0.pushed@ + data,
        s1.pending@ == s0.pending@ + data,
    ensures
        s1.wf(),
{
    assert(s1.sent@ + s1.pending@ =~= (s0.sent@ + s0.pending@) + data);
    assert((s0.sent@ + s0.pending@) + data =~= (Seq::new(
        spec_silence_len(s0.sample_rate, s0.channels, START_SILENCE_MS) as nat,
        |i: int| 0u8,
    ) + s0.pushed@) + data);
    assert((Seq::new(
        spec_silence_len(s0.sample_rate, s0.channels, START_SILENCE_MS) as nat,
        |i: int| 0u8,
    ) + s0.pushed@) + data =~= Seq::new(
        spec_silence_len(s1.sample_rate, s1.channels, START_SILENCE_MS) as nat,
        |i: int| 0u8,
    ) + s1.pushed@);
}


/// The state of one chunked MP3 playback: bytes not yet handed to the
/// decoder thread.
pub struct Mp3Stream {
    /// Bytes accumulated and not yet fed to the decoder.
    pub pending: Vec<u8>,
    /// Threshold below which nothing is fed to the decoder.
    pub min_bytes: usize,
    /// The playback generation captured when this stream started.
    pub generation: u64,
    /// Whether the end of the stream has been signalled.
    pub ended: bool,
}

impl Mp3Stream {
    /// Accept one chunk and return what goes to the decoder now:
    /// nothing until `min_bytes` have accumulated, then everything.
    pub fn push(&mut self, data: Vec<u8>) -> (sent: Vec<u8>)
        requires
            old(self).pending@.len() + data@.len() <= usize::MAX,
        ensures
            final(self).min_bytes == old(self).min_bytes,
            final(self).generation == old(self).generation,
            final(self).ended == old(self).ended,
            ({
                let combined = old(self).pending@ + data@;
                if combined.len() < old(self).min_bytes {
                    sent@ == Seq::<u8>::empty() && final(self).pending@ == combined
                } else {
                    sent@ == combined && final(self).pending@ == Seq::<u8>::empty()
                }
            }),
    {
        let mut data = data;
        self.pending.append(&mut data);
        if self.pending.len() < self.min_bytes {
            let sent: Vec<u8> = Vec::new();
            proof {
                assert(sent@ =~= Seq::<u8>::empty());
            }
            return sent;
        }
        let mut sent: Vec<u8> = Vec::new();
        core::mem::swap(&mut self.pending, &mut sent);
        proof {
            assert(self.pending@ =~= Seq::<u8>::empty());
        }
        sent
    }
}

/// What is currently playing: nothing, a one-shot sink, or one of the
/// two chunked streams.  Holding at most one active playback is a
/// matter of type here: starting a new one replaces the old, and the
/// dispatch always stops the old one first.
pub enum Playback {
    Quiet,
    Sink { generation: u64 },
    Pcm(PcmStream),
    Mp3(Mp3Stream),
}

/// One operation the device thread must perform, in order.
#[derive(Debug, Clone)]
pub enum SinkAction {
    /// Stop the current sink and stream machinery, if any.
    StopCurrent,
    /// Play the debug beep on a fresh sink.
    StartBeep,
    /// Decode and play the file on a fresh sink.
    PlayFile { path: String },
    /// Play a complete PCM buffer, already truncated to whole samples
    /// and known non-empty, on a fresh sink.
    PlayPcm { data: Vec<u8>, sample_rate: u32, channels: u16 },
    /// Decode and play a complete MP3 buffer on a fresh sink.
    PlayMp3 { data: Vec<u8> },
    /// Open a fresh sink for a chunked PCM stream.
    StartPcmSink { sample_rate: u32, channels: u16 },
    /// Append decoded PCM bytes to the streaming sink.
    AppendPcm { data: Vec<u8> },
    /// Spawn the decoder thread for a chunked MP3 stream, gating its
    /// finished event on the given generation.
    StartMp3Decoder { generation: u64 },
    /// Hand bytes to the decoder thread.
    FeedMp3 { data: Vec<u8> },
    /// Signal the decoder thread that no more bytes will come.
    EndMp3Feed,
    /// Wait for the sink to drain and emit the finished event if the
    /// given generation is still current.
    WaitFinish { generation: u64 },
}

/// The worker owning the audio sink: the playback generation that
/// gates finished events, and the single active playback.
pub struct VoiceOutputWorker {
    pub playback_generation: u64,
    pub playback: Playback,
}

impl VoiceOutputWorker {
    /// An open, unclosed PCM stream is always consistent.
    pub open spec fn wf(self) -> bool {
        match self.playback {
            Playback::Pcm(s) => !s.closed ==> s.wf(),
            _ => true,
        }
    }

    pub fn new() -> (r: VoiceOutputWorker)
        ensures
            r.playback_generation == 0,
            r.playback is Quiet,
            r.wf(),
    {
        VoiceOutputWorker { playback_generation: 0, playback: Playback::Quiet }
    }

    fn bump_generation(&mut self) -> (g: u64)
        ensures
            g == wrapping_inc_u64(old(self).playback_generation),
            *final(self) == (VoiceOutputWorker { playback_generation: g, ..*old(self) }),
    {
        self.playback_generation = if self.playback_generation == u64::MAX {
            0
        } else {
            self.playback_generation + 1
        };
        self.playback_generation
    }
}

/// The worker generation advances with wraparound, as an atomic
/// fetch-add would.
pub open spec fn wrapping_inc_u64(g: u64) -> u64 {
    if g == u64::MAX {
        0
    } else {
        (g + 1) as u64
    }
}

/// Whether a drained sink may announce that playback finished: only
/// if no newer playback has started since it was filled.
pub fn should_emit_finished(current_generation: u64, captured_generation: u64) -> (r: bool)
    ensures
        r == (current_generation == captured_generation),
{
    current_generation == captured_generation
}


/// A PCM buffer truncated to whole two-byte samples.
pub open spec fn spec_even_prefix(data: Seq<u8>) -> Seq<u8> {
    data.take(data.len() as int - data.len() as int % 2)
}

/// What a chunk push hands to the sink, as a function of the stream
/// state and the chunk.
pub open spec fn pcm_push_sent(s: PcmStream, data: Seq<u8>) -> Seq<u8> {
    let combined = s.pending@ + data;
    let aligned = combined.len() as int - combined.len() as int % spec_frame_bytes(s.channels);
    if combined.len() < s.min_bytes || aligned == 0 {
        Seq::empty()
    } else {
        combined.take(aligned)
    }
}

/// What a chunk push leaves buffered.
pub open spec fn pcm_push_pending(s: PcmStream, data: Seq<u8>) -> Seq<u8> {
    let combined = s.pending@ + data;
    let aligned = combined.len() as int - combined.len() as int % spec_frame_bytes(s.channels);
    if combined.len() < s.min_bytes || aligned == 0 {
        combined
    } else {
        combined.skip(aligned)
    }
}

/// What an MP3 chunk push feeds to the decoder.
pub open spec fn mp3_push_sent(m: Mp3Stream, data: Seq<u8>) -> Seq<u8> {
    let combined = m.pending@ + data;
    if combined.len() < m.min_bytes {
        Seq::empty()
    } else {
        combined
    }
}

/// The stream fields a push never touches.
pub open spec fn pcm_frame_kept(s0: PcmStream, s1: PcmStream) -> bool {
    &&& s1.sample_rate == s0.sample_rate
    &&& s1.channels == s0.channels
    &&& s1.min_bytes == s0.min_bytes
    &&& s1.generation == s0.generation
}

/// What dispatching one command does to the worker and which sink
/// operations it emits, exactly.  Every new playback stops the old
/// one first and bumps the generation, so a drained sink from before
/// can never announce a finish.
pub open spec fn worker_step(
    w0: VoiceOutputWorker,
    w1: VoiceOutputWorker,
    out: Seq<SinkAction>,
    cmd: VoiceOutputCommand,
) -> bool {
    let g1 = wrapping_inc_u64(w0.playback_generation);
    match cmd {
        VoiceOutputCommand::PlayText { text } => {
            &&& w1.playback_generation == g1
            &&& w1.playback == (Playback::Sink { generation: g1 })
            &&& out == seq![
                SinkAction::StopCurrent,
                SinkAction::StartBeep,
                SinkAction::WaitFinish { generation: g1 },
            ]
        },
        VoiceOutputCommand::PlayAudioFile { path } => {
            &&& w1.playback_generation == g1
            &&& w1.playback == (Playback::Sink { generation: g1 })
            &&& out == seq![
                SinkAction::StopCurrent,
                SinkAction::PlayFile { path },
                SinkAction::WaitFinish { generation: g1 },
            ]
        },
        VoiceOutputCommand::PlayAudio { audio } => {
            &&& w1.playback_generation == g1
            &&& match audio {
                AudioOutput::Pcm { data, sample_rate, channels } => {
                    let a = spec_even_prefix(data@);
                    if a.len() == 0 {
                        w1.playback is Quiet && out == seq![SinkAction::StopCurrent]
                    } else {
                        &&& w1.playback == (Playback::Sink { generation: g1 })
                        &&& out.len() == 3
                        &&& out[0] == SinkAction::StopCurrent
                        &&& (out[1] matches SinkAction::PlayPcm {
                            data: d,
                            sample_rate: sr,
                            channels: ch,
                        } && d@ == a && sr == sample_rate && ch == channels)
                        &&& out[2] == (SinkAction::WaitFinish { generation: g1 })
                    }
                },
                AudioOutput::Mp3 { data } => {
                    if data@.len() == 0 {
                        w1.playback is Quiet && out == seq![SinkAction::StopCurrent]
                    } else {
                        &&& w1.playback == (Playback::Sink { generation: g1 })
                        &&& out.len() == 3
                        &&& out[0] == SinkAction::StopCurrent
                        &&& (out[1] matches SinkAction::PlayMp3 { data: d } && d@ == data@)
                        &&& out[2] == (SinkAction::WaitFinish { generation: g1 })
                    }
                },
            }
        },
        VoiceOutputCommand::StartStream { format } => {
            &&& w1.playback_generation == g1
            &&& match format {
                AudioStreamFormat::Pcm { sample_rate, channels } => {
                    &&& (w1.playback matches Playback::Pcm(st) && st.wf() && !st.closed
                        && st.sample_rate == sample_rate && st.channels == channels
                        && st.generation == g1 && st.pushed@ == Seq::<u8>::empty()
                        && st.sent@ == Seq::<u8>::empty())
                    &&& out == seq![
                        SinkAction::StopCurrent,
                        SinkAction::StartPcmSink { sample_rate, channels },
                    ]
                },
                AudioStreamFormat::Mp3 => {
                    &&& (w1.playback matches Playback::Mp3(m) && m.pending@ == Seq::<u8>::empty()
                        && m.min_bytes == 4 && m.generation == g1 && !m.ended)
                    &&& out == seq![
                        SinkAction::StopCurrent,
                        SinkAction::StartMp3Decoder { generation: g1 },
                    ]
                },
            }
        },
        VoiceOutputCommand::StreamChunk { data } => {
            &&& w1.playback_generation == w0.playback_generation
            &&& match w0.playback {
                Playback::Pcm(s0) => if s0.closed {
                    w1 == w0 && out == Seq::<SinkAction>::empty()
                } else {
                    let sent = pcm_push_sent(s0, data@);
                    &&& (w1.playback matches Playback::Pcm(s1) && pcm_frame_kept(s0, s1)
                        && !s1.closed && s1.pending@ == pcm_push_pending(s0, data@)
                        && s1.pushed@ == s0.pushed@ + data@ && s1.sent@ == s0.sent@ + sent)
                    &&& if sent.len() == 0 {
                        out == Seq::<SinkAction>::empty()
                    } else {
                        out.len() == 1 && (out[0] matches SinkAction::AppendPcm { data: d } && d@
                            == sent)
                    }
                },
                Playback::Mp3(m0) => if m0.ended {
                    w1 == w0 && out == Seq::<SinkAction>::empty()
                } else {
                    let sent = mp3_push_sent(m0, data@);
                    &&& (w1.playback matches Playback::Mp3(m1) && m1.min_bytes == m0.min_bytes
                        && m1.generation == m0.generation && !m1.ended && m1.pending@ == (
                        if sent.len() == 0 {
                            m0.pending@ + data@
                        } else {
                            Seq::<u8>::empty()
                        }))
                    &&& if sent.len() == 0 {
                        out == Seq::<SinkAction>::empty()
                    } else {
                        out.len() == 1 && (out[0] matches SinkAction::FeedMp3 { data: d } && d@
                            == sent)
                    }
                },
                _ => w1 == w0 && out == Seq::<SinkAction>::empty(),
            }
        },
        VoiceOutputCommand::EndStream => {
            &&& w1.playback_generation == w0.playback_generation
            &&& match w0.playback {
                Playback::Pcm(s0) => if s0.closed {
                    w1 == w0 && out == seq![
                        SinkAction::WaitFinish { generation: s0.generation },
                    ]
                } else {
                    let flush = spec_even_prefix(s0.pending@);
                    &&& (w1.playback matches Playback::Pcm(s1) && pcm_frame_kept(s0, s1)
                        && s1.closed && s1.pending@ == Seq::<u8>::empty() && s1.pushed@
                        == s0.pushed@ && s1.sent@ == s0.sent@ + flush)
                    &&& if flush.len() == 0 {
                        out == seq![SinkAction::WaitFinish { generation: s0.generation }]
                    } else {
                        out.len() == 2 && (out[0] matches SinkAction::AppendPcm { data: d } && d@
                            == flush) && out[1] == (SinkAction::WaitFinish {
                            generation: s0.generation,
                        })
                    }
                },
                Playback::Mp3(m0) => {
                    &&& (w1.playback matches Playback::Mp3(m1) && m1.min_bytes == m0.min_bytes
                        && m1.generation == m0.generation && m1.ended && m1.pending@
                        == Seq::<u8>::empty())
                    &&& if m0.pending@.len() == 0 {
                        out == seq![SinkAction::EndMp3Feed]
                    } else {
                        out.len() == 2 && (out[0] matches SinkAction::FeedMp3 { data: d } && d@
                            == m0.pending@) && out[1] == SinkAction::EndMp3Feed
                    }
                },
                _ => w1 == w0 && out == Seq::<SinkAction>::empty(),
            }
        },
        VoiceOutputCommand::Stop => {
            &&& w1.playback_generation == g1
            &&& w1.playback is Quiet
            &&& out == seq![SinkAction::StopCurrent]
        },
        VoiceOutputCommand::Shutdown => {
            &&& w1.playback_generation == g1
            &&& w1.playback is Quiet
            &&& out == seq![SinkAction::StopCurrent]
        },
    }
}


impl VoiceOutputWorker {
    /// Dispatch one command against the single active playback.
    pub fn handle_command(&mut self, cmd: VoiceOutputCommand) -> (out: Vec<SinkAction>)
        requires
            old(self).wf(),
            (cmd matches VoiceOutputCommand::StreamChunk { data } ==> match old(self).playback {
                Playback::Pcm(s) => s.pending@.len() + data@.len() <= usize::MAX,
                Playback::Mp3(m) => m.pending@.len() + data@.len() <= usize::MAX,
                _ => true,
            }),
            (cmd matches VoiceOutputCommand::StartStream { format } ==> (format matches
                AudioStreamFormat::Pcm { sample_rate, channels } ==> spec_silence_len(
                sample_rate,
                channels,
                START_SILENCE_MS,
            ) <= usize::MAX)),
        ensures
            worker_step(*old(self), *final(self), out@, cmd),
            final(self).wf(),
    {
        let mut out: Vec<SinkAction> = Vec::new();
        match cmd {
            VoiceOutputCommand::PlayText { text: _ } => {
                out.push(SinkAction::StopCurrent);
                let g = self.bump_generation();
                self.playback = Playback::Sink { generation: g };
                out.push(SinkAction::StartBeep);
                out.push(SinkAction::WaitFinish { generation: g });
                proof {
                    assert(out@ =~= seq![
                        SinkAction::StopCurrent,
                        SinkAction::StartBeep,
                        SinkAction::WaitFinish { generation: g },
                    ]);
                }
            },
            VoiceOutputCommand::PlayAudioFile { path } => {
                out.push(SinkAction::StopCurrent);
                let g = self.bump_generation();
                self.playback = Playback::Sink { generation: g };
                let ghost p = path@;
                out.push(SinkAction::PlayFile { path });
                out.push(SinkAction::WaitFinish { generation: g });
                proof {
                    assert(out@[1] matches SinkAction::PlayFile { path: q } && q@ == p);
                    assert(out@ =~= seq![out@[0], out@[1], out@[2]]);
                }
            },
            VoiceOutputCommand::PlayAudio { audio } => {
                out.push(SinkAction::StopCurrent);
                let g = self.bump_generation();
                match audio {
                    AudioOutput::Pcm { data, sample_rate, channels } => {
                        let mut data = data;
                        proof {
                            lemma_mod_le(data@.len() as int, 2);
                        }
                        let aligned: usize = data.len() - data.len() % 2;
                        data.truncate(aligned);
                        if data.len() == 0 {
                            self.playback = Playback::Quiet;
                            proof {
                                assert(out@ =~= seq![SinkAction::StopCurrent]);
                            }
                        } else {
                            self.playback = Playback::Sink { generation: g };
                            out.push(SinkAction::PlayPcm { data, sample_rate, channels });
                            out.push(SinkAction::WaitFinish { generation: g });
                            proof {
                                assert(out@ =~= seq![out@[0], out@[1], out@[2]]);
                            }
                        }
                    },
                    AudioOutput::Mp3 { data } => {
                        if data.len() == 0 {
                            self.playback = Playback::Quiet;
                            proof {
                                assert(out@ =~= seq![SinkAction::StopCurrent]);
                            }
                        } else {
                            self.playback = Playback::Sink { generation: g };
                            out.push(SinkAction::PlayMp3 { data });
                            out.push(SinkAction::WaitFinish { generation: g });
                            proof {
                                assert(out@ =~= seq![out@[0], out@[1], out@[2]]);
                            }
                        }
                    },
                }
            },
            VoiceOutputCommand::StartStream { format } => {
                out.push(SinkAction::StopCurrent);
                let g = self.bump_generation();
                match format {
                    AudioStreamFormat::Pcm { sample_rate, channels } => {
                        let st = PcmStream::start(sample_rate, channels, g);
                        self.playback = Playback::Pcm(st);
                        out.push(SinkAction::StartPcmSink { sample_rate, channels });
                        proof {
                            assert(out@ =~= seq![
                                SinkAction::StopCurrent,
                                SinkAction::StartPcmSink { sample_rate, channels },
                            ]);
                        }
                    },
                    AudioStreamFormat::Mp3 => {
                        let m = Mp3Stream {
                            pending: Vec::new(),
                            min_bytes: min_mp3_chunk_bytes(),
                            generation: g,
                            ended: false,
                        };
                        proof {
                            assert(m.pending@ =~= Seq::<u8>::empty());
                        }
                        self.playback = Playback::Mp3(m);
                        out.push(SinkAction::StartMp3Decoder { generation: g });
                        proof {
                            assert(out@ =~= seq![
                                SinkAction::StopCurrent,
                                SinkAction::StartMp3Decoder { generation: g },
                            ]);
                        }
                    },
                }
            },
            VoiceOutputCommand::StreamChunk { data } => {
                let mut pb = Playback::Quiet;
                core::mem::swap(&mut self.playback, &mut pb);
                match pb {
                    Playback::Pcm(st) => {
                        let mut st = st;
                        if st.closed {
                            self.playback = Playback::Pcm(st);
                            proof {
                                assert(out@ =~= Seq::<SinkAction>::empty());
                            }
                        } else {
                            let sent = st.push(data);
                            self.playback = Playback::Pcm(st);
                            if sent.len() > 0 {
                                out.push(SinkAction::AppendPcm { data: sent });
                            } else {
                                proof {
                                    assert(out@ =~= Seq::<SinkAction>::empty());
                                }
                            }
                        }
                    },
                    Playback::Mp3(mst) => {
                        let mut mst = mst;
                        if mst.ended {
                            self.playback = Playback::Mp3(mst);
                            proof {
                                assert(out@ =~= Seq::<SinkAction>::empty());
                            }
                        } else {
                            let ghost m0 = mst;
                            let ghost given = data@;
                            let sent = mst.push(data);
                            let ghost m1 = mst;
                            self.playback = Playback::Mp3(mst);
                            if sent.len() > 0 {
                                out.push(SinkAction::FeedMp3 { data: sent });
                            } else {
                                proof {
                                    assert(out@ =~= Seq::<SinkAction>::empty());
                                    if m0.pending@.len() + given.len() >= m0.min_bytes {
                                        assert(m1.pending@ =~= m0.pending@ + given);
                                    }
                                }
                            }
                        }
                    },
                    other => {
                        self.playback = other;
                        proof {
                            assert(out@ =~= Seq::<SinkAction>::empty());
                        }
                    },
                }
            },
            VoiceOutputCommand::EndStream => {
                let mut pb = Playback::Quiet;
                core::mem::swap(&mut self.playback, &mut pb);
                match pb {
                    Playback::Pcm(st) => {
                        let mut st = st;
                        if st.closed {
                            out.push(SinkAction::WaitFinish { generation: st.generation });
                            self.playback = Playback::Pcm(st);
                            proof {
                                assert(out@ =~= seq![
                                    SinkAction::WaitFinish {
                                        generation: old(self).playback->Pcm_0.generation,
                                    },
                                ]);
                            }
                        } else {
                            let flushed = st.end();
                            let g = st.generation;
                            self.playback = Playback::Pcm(st);
                            if flushed.len() > 0 {
                                out.push(SinkAction::AppendPcm { data: flushed });
                            }
                            out.push(SinkAction::WaitFinish { generation: g });
                        }
                    },
                    Playback::Mp3(mst) => {
                        let mut mst = mst;
                        let mut fed: Vec<u8> = Vec::new();
                        core::mem::swap(&mut mst.pending, &mut fed);
                        mst.ended = true;
                        self.playback = Playback::Mp3(mst);
                        if fed.len() > 0 {
                            out.push(SinkAction::FeedMp3 { data: fed });
                        }
                        out.push(SinkAction::EndMp3Feed);
                        proof {
                            assert(self.playback->Mp3_0.pending@ =~= Seq::<u8>::empty());
                        }
                    },
                    other => {
                        self.playback = other;
                        proof {
                            assert(out@ =~= Seq::<SinkAction>::empty());
                        }
                    },
                }
            },
            VoiceOutputCommand::Stop => {
                out.push(SinkAction::StopCurrent);
                let _g = self.bump_generation();
                self.playback = Playback::Quiet;
                proof {
                    assert(out@ =~= seq![SinkAction::StopCurrent]);
                }
            },
            VoiceOutputCommand::Shutdown => {
                out.push(SinkAction::StopCurrent);
                let _g = self.bump_generation();
                self.playback = Playback::Quiet;
                proof {
                    assert(out@ =~= seq![SinkAction::StopCurrent]);
                }
            },
        }
        out
    }
}

/// Two consecutive stops yield what one yields: the playback is
/// already quiet after the first, the second leaves it exactly so and
/// performs the same single stop operation.  Only the hidden playback
/// generation advances again, and it gates nothing but finish events
/// of playbacks that no longer exist after the first stop.
pub proof fn lemma_stop_idempotent(
    w0: VoiceOutputWorker,
    w1: VoiceOutputWorker,
    w2: VoiceOutputWorker,
    out1: Seq<SinkAction>,
    out2: Seq<SinkAction>,
)
    requires
        worker_step(w0, w1, out1, VoiceOutputCommand::Stop),
        worker_step(w1, w2, out2, VoiceOutputCommand::Stop),
    ensures
        w1.playback is Quiet,
        w2.playback == w1.playback,
        out2 == out1,
{
}


/// Where a seek on the buffered stream reader is measured from;
/// mirrors the standard seek positions.
#[derive(Debug, Clone, Copy, PartialEq, Eq, Structural)]
pub enum SeekWhence {
    Start(u64),
    Current(i64),
    End(i64),
}

/// Why a seek on the buffered stream reader was refused.
#[derive(Debug, Clone, Copy, PartialEq, Eq, Structural)]
pub enum SeekError {
    /// An end-relative seek before the end of the stream is known.
    EndUnknown,
    /// A target before the start or past the buffered bytes.
    InvalidSeek,
}

/// The seek rule of the blocking stream reader: end-relative seeks
/// fail until the end is known; any other target within the buffered
/// bytes succeeds.
pub fn stream_seek(len: usize, current: usize, ended: bool, whence: SeekWhence) -> (r: Result<
    usize,
    SeekError,
>)
    requires
        current <= len,
        len <= i64::MAX,
        (whence matches SeekWhence::Current(off) ==> current + off <= i64::MAX),
        (whence matches SeekWhence::End(off) ==> len + off <= i64::MAX),
    ensures
        match whence {
            SeekWhence::Start(v) => if v > len {
                r == Result::<usize, SeekError>::Err(SeekError::InvalidSeek)
            } else {
                r == Result::<usize, SeekError>::Ok(v as usize)
            },
            SeekWhence::Current(off) => if current + off < 0 || current + off > len {
                r == Result::<usize, SeekError>::Err(SeekError::InvalidSeek)
            } else {
                r == Result::<usize, SeekError>::Ok((current + off) as usize)
            },
            SeekWhence::End(off) => if !ended {
                r == Result::<usize, SeekError>::Err(SeekError::EndUnknown)
            } else if len + off < 0 || len + off > len {
                r == Result::<usize, SeekError>::Err(SeekError::InvalidSeek)
            } else {
                r == Result::<usize, SeekError>::Ok((len + off) as usize)
            },
        },
{
    let next: i64 = match whence {
        SeekWhence::Start(v) => {
            if v > i64::MAX as u64 {
                return Err(SeekError::InvalidSeek);
            }
            if v > len as u64 {
                return Err(SeekError::InvalidSeek);
            }
            v as i64
        },
        SeekWhence::Current(off) => current as i64 + off,
        SeekWhence::End(off) => {
            if !ended {
                return Err(SeekError::EndUnknown);
            }
            len as i64 + off
        },
    };
    if next < 0 || next > len as i64 {
        return Err(SeekError::InvalidSeek);
    }
    Ok(next as usize)
}

/// Whether a read on the blocking stream reader must wait for more
/// bytes: only when the cursor is at the end of what has arrived and
/// the stream has not ended.
pub fn read_must_wait(buffer_len: usize, pos: usize, ended: bool) -> (r: bool)
    ensures
        r == (pos >= buffer_len && !ended),
{
    pos >= buffer_len && !ended
}

/// Copy out of the buffered bytes at the cursor: up to `want` bytes,
/// empty at or past the end of the buffer.
pub fn buffered_read(buffer: &Vec<u8>, pos: usize, want: usize) -> (r: Vec<u8>)
    ensures
        pos >= buffer@.len() ==> r@ == Seq::<u8>::empty(),
        pos < buffer@.len() ==> r@ == buffer@.subrange(
            pos as int,
            pos + (if want <= buffer@.len() - pos {
                want as int
            } else {
                buffer@.len() - pos
            }),
        ),
{
    let mut r: Vec<u8> = Vec::new();
    if pos >= buffer.len() {
        proof {
            assert(r@ =~= Seq::<u8>::empty());
        }
        return r;
    }
    let avail: usize = buffer.len() - pos;
    let n: usize = if want <= avail {
        want
    } else {
        avail
    };
    let mut i: usize = 0;
    while i < n
        invariant
            i <= n,
            pos + n <= buffer@.len(),
            buffer@.len() <= usize::MAX,
            r@.len() == i,
            forall|j: int| 0 <= j < i ==> r@[j] == buffer@[pos + j],
        decreases n - i,
    {
        assert(pos + i < buffer@.len());
        let idx: usize = pos + i;
        r.push(buffer[idx]);
        i = i + 1;
    }
    proof {
        assert(r@ =~= buffer@.subrange(pos as int, pos + n));
    }
    r
}

/// Telemetry counters for one chunked stream.
pub struct StreamTimings {
    /// When the stream was opened, in epoch milliseconds.
    pub started_at: u64,
    /// When the first chunk arrived, if one has.
    pub first_chunk_at: Option<u64>,
    pub chunk_count: u64,
    pub total_bytes: u64,
    /// The PCM format, when the duration can be computed from bytes.
    pub pcm_info: Option<(u32, u16)>,
    pub total_logged: bool,
}

impl StreamTimings {
    pub fn new(now_ms: u64, pcm_info: Option<(u32, u16)>) -> (r: StreamTimings)
        ensures
            r.started_at == now_ms,
            r.first_chunk_at is None,
            r.chunk_count == 0,
            r.total_bytes == 0,
            r.pcm_info == pcm_info,
            !r.total_logged,
    {
        StreamTimings {
            started_at: now_ms,
            first_chunk_at: None,
            chunk_count: 0,
            total_bytes: 0,
            pcm_info,
            total_logged: false,
        }
    }

    /// Record one arriving chunk; reports whether it was the first.
    pub fn mark_chunk(&mut self, now_ms: u64, bytes: usize) -> (first: bool)
        requires
            old(self).chunk_count < u64::MAX,
        ensures
            final(self).chunk_count == old(self).chunk_count + 1,
            final(self).total_bytes == (if old(self).total_bytes + bytes <= u64::MAX {
                old(self).total_bytes + bytes
            } else {
                u64::MAX as int
            }),
            first == (old(self).first_chunk_at is None),
            first ==> final(self).first_chunk_at == Option::Some(now_ms),
            !first ==> final(self).first_chunk_at == old(self).first_chunk_at,
            final(self).started_at == old(self).started_at,
            final(self).pcm_info == old(self).pcm_info,
            final(self).total_logged == old(self).total_logged,
    {
        self.chunk_count = self.chunk_count + 1;
        self.total_bytes = self.total_bytes.saturating_add(bytes as u64);
        match self.first_chunk_at {
            Some(_) => false,
            None => {
                self.first_chunk_at = Some(now_ms);
                true
            },
        }
    }

    /// The estimated duration of a PCM stream in milliseconds, from
    /// the bytes received: whole samples per channel over the rate.
    pub fn pcm_estimated_millis(&self) -> (r: Option<u64>)
        ensures
            (r is Some) == (self.pcm_info is Some),
            (self.pcm_info matches Some((sample_rate, channels)) ==> ({
                let samples = self.total_bytes as int / spec_frame_bytes(channels);
                let sr = if sample_rate == 0 {
                    1int
                } else {
                    sample_rate as int
                };
                let ms = samples * 1000 / sr;
                r == Option::<u64>::Some(
                    (if ms <= u64::MAX {
                        ms
                    } else {
                        u64::MAX as int
                    }) as u64,
                )
            })),
    {
        match self.pcm_info {
            None => None,
            Some((sample_rate, channels)) => {
                let ch: u64 = if channels == 0 {
                    1
                } else {
                    channels as u64
                };
                let sr: u64 = if sample_rate == 0 {
                    1
                } else {
                    sample_rate as u64
                };
                let samples: u128 = self.total_bytes as u128 / (ch as u128 * 2);
                let ms: u128 = samples * 1000 / sr as u128;
                proof {
                    assert(samples * 1000 <= 0x2000_0000_0000_0000_0000 * 1000)
                        by (nonlinear_arith)
                        requires
                            0 <= samples <= 0x2000_0000_0000_0000_0000,
                    ;
                }
                if ms > u64::MAX as u128 {
                    Some(u64::MAX)
                } else {
                    Some(ms as u64)
                }
            },
        }
    }
}


/// The device name carries the requested text somewhere inside it.
pub open spec fn device_name_matches(name: Seq<char>, requested: Seq<char>) -> bool {
    exists|k: int| crate::text::matches_at(name, k, requested)
}

/// The requested playback device resolves to the first output whose
/// name contains the requested text; none matching means the request
/// fails (the default device is used only when nothing was requested).
pub fn select_output_device(names: &Vec<String>, requested: &str) -> (r: Option<usize>)
    ensures
        (r matches Some(i) ==> (i < names@.len() && device_name_matches(
            names@[i as int]@,
            requested@,
        ) && forall|j: int|
            0 <= j < i ==> !device_name_matches(#[trigger] names@[j]@, requested@))),
        (r is None ==> forall|j: int|
            0 <= j < names@.len() ==> !device_name_matches(#[trigger] names@[j]@, requested@)),
{
    let mut i: usize = 0;
    while i < names.len()
        invariant
            i <= names@.len(),
            forall|j: int|
                0 <= j < i ==> !device_name_matches(#[trigger] names@[j]@, requested@),
        decreases names@.len() - i,
    {
        if crate::text::contains_substring(names[i].as_str(), requested) {
            return Some(i);
        }
        i = i + 1;
    }
    None
}


/// The playing time of a count of PCM bytes: whole samples per
/// channel over the rate, in milliseconds, saturating.
pub fn pcm_bytes_to_millis(bytes: u64, sample_rate: u32, channels: u16) -> (r: u64)
    ensures
        ({
            let samples = bytes as int / spec_frame_bytes(channels);
            let sr = if sample_rate == 0 {
                1int
            } else {
                sample_rate as int
            };
            let ms = samples * 1000 / sr;
            r == (if ms <= u64::MAX {
                ms
            } else {
                u64::MAX as int
            })
        }),
{
    let ch: u64 = if channels == 0 {
        1
    } else {
        channels as u64
    };
    let sr: u64 = if sample_rate == 0 {
        1
    } else {
        sample_rate as u64
    };
    let samples: u128 = bytes as u128 / (ch as u128 * 2);
    let ms: u128 = samples * 1000 / sr as u128;
    proof {
        assert(samples * 1000 <= 0x2000_0000_0000_0000_0000 * 1000) by (nonlinear_arith)
            requires
                0 <= samples <= 0x2000_0000_0000_0000_0000,
        ;
    }
    if ms > u64::MAX as u128 {
        u64::MAX
    } else {
        ms as u64
    }
}

} // verus!
