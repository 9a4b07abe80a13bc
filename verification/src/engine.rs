//! Engine-facing values and the pure rules of the engine clients: the
//! request/response shapes, the retry backoff policy, and the
//! composition of chat-completion message lists.
//!
//! The HTTP and WebSocket transports live outside the library; they
//! hand these values in and out.

use vstd::prelude::*;

use crate::protocol::{AudioOutput, AudioStreamFormat};
use crate::session::ChatMessage;
use crate::text::{
    first_ci_match_from, lemma_first_ci_match_correct, matches_ci_at, spec_trim, str_trim,
};

verus! {

use vstd::arithmetic::power2::{
    pow2,
    lemma_pow2_strictly_increases,
    lemma_pow2_unfold,
    lemma2_to64,
    lemma2_to64_rest,
};

/// Errors the engine clients surface to the orchestrator.
#[derive(Debug, Clone)]
pub enum EngineError {
    /// Chat-completion transport or format failure.
    LlmRequest(String),
    /// Text-to-speech socket failure or empty audio.
    Vibevoice(String),
    /// Cloud endpoint transport failure.
    CloudRequest(String),
    /// Well-formed reply missing required content.
    InvalidResponse(String),
}

impl EngineError {
    /// A human-readable description, in place of a display impl.
    pub fn message(&self) -> (r: String)
        ensures
            self matches EngineError::LlmRequest(d) ==> r@ == "llm request failed: "@ + d@,
            self matches EngineError::Vibevoice(d) ==> r@ == "vibevoice request failed: "@ + d@,
            self matches EngineError::CloudRequest(d) ==> r@ == "cloud request failed: "@ + d@,
            self matches EngineError::InvalidResponse(d) ==> r@ == "invalid response: "@ + d@,
    {
        match self {
            EngineError::LlmRequest(d) => {
                let mut s = "llm request failed: ".to_owned();
                s.append(d.as_str());
                s
            },
            EngineError::Vibevoice(d) => {
                let mut s = "vibevoice request failed: ".to_owned();
                s.append(d.as_str());
                s
            },
            EngineError::CloudRequest(d) => {
                let mut s = "cloud request failed: ".to_owned();
                s.append(d.as_str());
                s
            },
            EngineError::InvalidResponse(d) => {
                let mut s = "invalid response: ".to_owned();
                s.append(d.as_str());
                s
            },
        }
    }
}

/// One request into an engine: the new utterance, the history it
/// belongs to (the utterance already appended), and the session id.
#[derive(Debug, Clone)]
pub struct EngineRequest {
    pub text: String,
    pub history: Vec<ChatMessage>,
    pub session_id: String,
}

/// The audio half of an engine response: a complete buffer, or a
/// chunked stream of the given format whose bytes arrive later.
#[derive(Debug, Clone)]
pub enum EngineAudio {
    Full(AudioOutput),
    Stream { format: AudioStreamFormat },
}

/// What an engine returns for one request.
#[derive(Debug, Clone)]
pub struct EngineResponse {
    pub assistant_text: Option<String>,
    pub audio: EngineAudio,
}

/// Requests that fail with a server error are retried this many times.
pub const MAX_RETRY_ATTEMPTS: usize = 5;

/// First backoff interval; later attempts double it.
pub const RETRY_BACKOFF_BASE_MS: u64 = 200;

/// The backoff before retry number `attempt`: the base doubled once
/// per completed attempt, saturating at the integer limit.
pub open spec fn spec_retry_backoff_ms(attempt: nat) -> int {
    let exponent: nat = if attempt == 0 { 0 } else { (attempt - 1) as nat };
    let raw: int = RETRY_BACKOFF_BASE_MS * pow2(exponent);
    if raw > u64::MAX {
        u64::MAX as int
    } else {
        raw
    }
}

/// Exponential backoff in milliseconds for the given attempt number.
pub fn retry_backoff_millis(attempt: usize) -> (r: u64)
    requires
        attempt <= 64,
    ensures
        r == spec_retry_backoff_ms(attempt as nat),
{
    let exponent: usize = if attempt == 0 { 0 } else { attempt - 1 };
    let mut factor: u64 = 1;
    let mut i: usize = 0;
    proof {
        lemma2_to64();
        lemma_pow2_monotonic(0, exponent as nat);
    }
    while i < exponent
        invariant
            i <= exponent,
            exponent <= 63,
            factor == pow2(i as nat),
            factor <= pow2(exponent as nat),
        decreases exponent - i,
    {
        proof {
            lemma_pow2_unfold((i + 1) as nat);
            lemma_pow2_monotonic((i + 1) as nat, exponent as nat);
            lemma_pow2_u64_bound(exponent as nat);
        }
        factor = factor * 2;
        i = i + 1;
    }
    proof {
        lemma_pow2_u64_bound(exponent as nat);
    }
    match RETRY_BACKOFF_BASE_MS.checked_mul(factor) {
        Some(ms) => ms,
        None => u64::MAX,
    }
}

proof fn lemma_pow2_monotonic(a: nat, b: nat)
    requires
        a <= b,
    ensures
        pow2(a) <= pow2(b),
{
    if a < b {
        lemma_pow2_strictly_increases(a, b);
    }
}

proof fn lemma_pow2_u64_bound(n: nat)
    requires
        n <= 63,
    ensures
        pow2(n) < 0x1_0000_0000_0000_0000,
{
    lemma_pow2_monotonic(n, 63);
    lemma2_to64_rest();
}

/// Whether a finished attempt is retried, and after how long a pause.
/// A retry happens exactly when the reply was a server error and the
/// attempt count has not reached the limit.
pub fn retry_decision(attempt: usize, server_error: bool) -> (r: Option<u64>)
    ensures
        (r is Some) <==> (server_error && attempt < MAX_RETRY_ATTEMPTS),
        r matches Some(ms) ==> ms == spec_retry_backoff_ms(attempt as nat),
{
    if server_error && attempt < MAX_RETRY_ATTEMPTS {
        Some(retry_backoff_millis(attempt))
    } else {
        None
    }
}

/// The chat-completion wire role and text of one message.
#[derive(Debug, Clone)]
pub struct LlmMessage {
    pub role: String,
    pub content: String,
}


/// The opening voice-output tag, in folded case.
pub open spec fn open_tag() -> Seq<char> {
    seq!['[', 'v', 'o', 'i', 'c', 'e', ' ', 'o', 'u', 't', 'p', 'u', 't', ']']
}

/// The closing voice-output tag, in folded case.
pub open spec fn close_tag() -> Seq<char> {
    seq!['[', '/', 'v', 'o', 'i', 'c', 'e', ' ', 'o', 'u', 't', 'p', 'u', 't', ']']
}

/// The non-greedy, case-insensitive scan for tagged segments: look
/// for the next opening tag...
pub open spec fn seg_scan_open(s: Seq<char>, pos: int) -> Seq<Seq<char>>
    decreases s.len() - pos, 0int,
{
    if pos < 0 || pos + open_tag().len() > s.len() {
        Seq::empty()
    } else if matches_ci_at(s, pos, open_tag()) {
        seg_scan_close(s, pos + open_tag().len(), pos + open_tag().len())
    } else {
        seg_scan_open(s, pos + 1)
    }
}

/// ... then the nearest closing tag; what stands between them is one
/// segment, and the scan continues after the closing tag.
pub open spec fn seg_scan_close(s: Seq<char>, start: int, pos: int) -> Seq<Seq<char>>
    decreases s.len() - pos, 1int,
{
    if pos < 0 || pos + close_tag().len() > s.len() {
        Seq::empty()
    } else if matches_ci_at(s, pos, close_tag()) {
        seq![s.subrange(start, pos)] + seg_scan_open(s, pos + close_tag().len())
    } else {
        seg_scan_close(s, start, pos + 1)
    }
}

/// The tagged segments of a reply, in order.
pub open spec fn voice_segments(s: Seq<char>) -> Seq<Seq<char>> {
    seg_scan_open(s, 0)
}

/// Segments trimmed, the blank ones dropped.
pub open spec fn keep_trimmed(segs: Seq<Seq<char>>) -> Seq<Seq<char>>
    decreases segs.len(),
{
    if segs.len() == 0 {
        Seq::empty()
    } else {
        (if spec_trim(segs[0]).len() > 0 {
            seq![spec_trim(segs[0])]
        } else {
            Seq::empty()
        }) + keep_trimmed(segs.drop_first())
    }
}

/// Join parts onto an accumulator with single spaces; `started` says
/// whether the accumulator already holds a part.
pub open spec fn join_acc(acc: Seq<char>, started: bool, parts: Seq<Seq<char>>) -> Seq<char>
    decreases parts.len(),
{
    if parts.len() == 0 {
        acc
    } else {
        join_acc(
            if started {
                acc + seq![' '] + parts[0]
            } else {
                parts[0]
            },
            true,
            parts.drop_first(),
        )
    }
}

/// The kept segments joined with single spaces.
pub open spec fn joined_voice_output(s: Seq<char>) -> Seq<char> {
    join_acc(Seq::empty(), false, keep_trimmed(voice_segments(s)))
}

proof fn lemma_scan_open_skip(s: Seq<char>, pos: int, i: int)
    requires
        0 <= pos <= i,
        forall|j: int| pos <= j < i ==> !matches_ci_at(s, j, open_tag()),
        i + open_tag().len() <= s.len() + open_tag().len(),
    ensures
        seg_scan_open(s, pos) == seg_scan_open(s, i),
    decreases i - pos,
{
    if pos < i {
        if pos + open_tag().len() > s.len() {
            assert(seg_scan_open(s, pos) =~= Seq::<Seq<char>>::empty());
            assert(i + open_tag().len() > s.len());
            assert(seg_scan_open(s, i) =~= Seq::<Seq<char>>::empty());
        } else {
            lemma_scan_open_skip(s, pos + 1, i);
        }
    }
}

proof fn lemma_scan_open_none(s: Seq<char>, pos: int)
    requires
        0 <= pos,
        first_ci_match_from(s, pos, open_tag()) is None,
    ensures
        seg_scan_open(s, pos) == Seq::<Seq<char>>::empty(),
    decreases s.len() - pos + 1,
{
    if pos + open_tag().len() > s.len() {
    } else {
        lemma_first_ci_match_correct(s, pos, open_tag());
        assert(!matches_ci_at(s, pos, open_tag()));
        lemma_scan_open_none(s, pos + 1);
    }
}

proof fn lemma_scan_close_skip(s: Seq<char>, start: int, pos: int, j: int)
    requires
        0 <= pos <= j,
        forall|k: int| pos <= k < j ==> !matches_ci_at(s, k, close_tag()),
    ensures
        seg_scan_close(s, start, pos) == seg_scan_close(s, start, j),
    decreases j - pos,
{
    if pos < j {
        if pos + close_tag().len() > s.len() {
            assert(j + close_tag().len() > s.len());
            assert(seg_scan_close(s, start, pos) =~= Seq::<Seq<char>>::empty());
            assert(seg_scan_close(s, start, j) =~= Seq::<Seq<char>>::empty());
        } else {
            lemma_scan_close_skip(s, start, pos + 1, j);
        }
    }
}

proof fn lemma_scan_close_none(s: Seq<char>, start: int, pos: int)
    requires
        0 <= pos,
        first_ci_match_from(s, pos, close_tag()) is None,
    ensures
        seg_scan_close(s, start, pos) == Seq::<Seq<char>>::empty(),
    decreases s.len() - pos + 1,
{
    if pos + close_tag().len() > s.len() {
    } else {
        lemma_first_ci_match_correct(s, pos, close_tag());
        lemma_scan_close_none(s, start, pos + 1);
    }
}

/// The text spoken aloud for a reply: the non-greedy, ASCII-case-
/// insensitive `[voice output]`...`[/voice output]` segments, each
/// trimmed, the blank ones dropped, joined with single spaces — or
/// nothing when no segment with substance exists.
pub fn extract_voice_output(text: &str) -> (r: Option<String>)
    ensures
        ({
            let kept = keep_trimmed(voice_segments(text@));
            match r {
                Option::None => kept.len() == 0,
                Option::Some(out) => kept.len() > 0 && out@ == joined_voice_output(text@),
            }
        }),
{
    let open_pat = "[voice output]";
    let close_pat = "[/voice output]";
    proof {
        reveal_strlit("[voice output]");
        reveal_strlit("[/voice output]");
        assert(open_pat@ =~= open_tag());
        assert(close_pat@ =~= close_tag());
    }
    let n = text.unicode_len();
    let mut pos: usize = 0;
    let mut out = String::new();
    let mut started: bool = false;
    let ghost target = join_acc(Seq::empty(), false, keep_trimmed(seg_scan_open(text@, 0)));
    let ghost whole = keep_trimmed(seg_scan_open(text@, 0));
    loop
        invariant
            pos <= n + 1,
            n == text@.len(),
            open_pat@ == open_tag(),
            close_pat@ == close_tag(),
            join_acc(out@, started, keep_trimmed(seg_scan_open(text@, pos as int))) == target,
            started ==> keep_trimmed(seg_scan_open(text@, 0)).len() > 0,
            !started ==> (out@ == Seq::<char>::empty() && keep_trimmed(
                seg_scan_open(text@, 0),
            ) == keep_trimmed(seg_scan_open(text@, pos as int))),
        ensures
            keep_trimmed(seg_scan_open(text@, pos as int)) == Seq::<Seq<char>>::empty(),
            join_acc(out@, started, keep_trimmed(seg_scan_open(text@, pos as int))) == target,
            started ==> keep_trimmed(seg_scan_open(text@, 0)).len() > 0,
            !started ==> (out@ == Seq::<char>::empty() && keep_trimmed(
                seg_scan_open(text@, 0),
            ) == keep_trimmed(seg_scan_open(text@, pos as int))),
        decreases n - pos,
    {
        let found_open = crate::text::find_ci_from(text, pos, open_pat);
        let i = match found_open {
            Some(i) => i,
            None => {
                proof {
                    lemma_first_ci_match_correct(text@, pos as int, open_tag());
                    lemma_scan_open_none(text@, pos as int);
                    assert(keep_trimmed(seg_scan_open(text@, pos as int))
                        =~= Seq::<Seq<char>>::empty());
                }
                break;
            },
        };
        proof {
            lemma_first_ci_match_correct(text@, pos as int, open_tag());
            lemma_scan_open_skip(text@, pos as int, i as int);
        }
        let content_start = i + 14;
        let found_close = crate::text::find_ci_from(text, content_start, close_pat);
        let j = match found_close {
            Some(j) => j,
            None => {
                proof {
                    lemma_first_ci_match_correct(text@, content_start as int, close_tag());
                    lemma_scan_close_none(text@, content_start as int, content_start as int);
                    assert(keep_trimmed(seg_scan_open(text@, pos as int))
                        =~= Seq::<Seq<char>>::empty());
                }
                break;
            },
        };
        proof {
            lemma_first_ci_match_correct(text@, content_start as int, close_tag());
            lemma_scan_close_skip(
                text@,
                content_start as int,
                content_start as int,
                j as int,
            );
            assert(seg_scan_open(text@, pos as int) == seq![
                text@.subrange(content_start as int, j as int),
            ] + seg_scan_open(text@, j + close_tag().len()));
        }
        let segment = text.substring_char(content_start, j);
        let piece = str_trim(segment);
        let ghost rest = seg_scan_open(text@, j + 15);
        proof {
            let segs = seg_scan_open(text@, pos as int);
            assert(segs[0] == text@.subrange(content_start as int, j as int));
            assert(segs.drop_first() =~= rest);
            assert(keep_trimmed(segs) == (if spec_trim(segs[0]).len() > 0 {
                seq![spec_trim(segs[0])]
            } else {
                Seq::<Seq<char>>::empty()
            }) + keep_trimmed(rest));
        }
        let ghost segs = seg_scan_open(text@, pos as int);
        let ghost kt = keep_trimmed(segs);
        if piece.unicode_len() > 0 {
            proof {
                assert(kt =~= seq![spec_trim(segs[0])] + keep_trimmed(rest));
                assert(kt[0] == piece@);
                assert(kt.drop_first() =~= keep_trimmed(rest));
            }
            let ghost out0 = out@;
            if started {
                out.append(" ");
                out.append(piece);
            } else {
                out.append(piece);
            }
            proof {
                reveal_strlit(" ");
                assert(" "@ =~= seq![' ']);
                if started {
                    assert(out@ =~= (out0 + seq![' ']) + kt[0]);
                    assert((out0 + seq![' ']) + kt[0] =~= out0 + seq![' '] + kt[0]);
                } else {
                    assert(out@ =~= kt[0]);
                }
                assert(join_acc(out0, started, kt) == join_acc(out@, true, kt.drop_first()));
                assert(join_acc(out@, true, keep_trimmed(rest)) == target);
            }
            started = true;
        } else {
            proof {
                assert(kt =~= keep_trimmed(rest));
            }
        }
        pos = j + 15;
    }
    if started {
        Some(out)
    } else {
        None
    }
}


/// The text handed to speech synthesis for a reply: the joined voice
/// segments when any has substance, else the whole reply trimmed.
pub fn voice_text_for(response_text: &str) -> (r: String)
    ensures
        keep_trimmed(voice_segments(response_text@)).len() > 0 ==> r@ == joined_voice_output(
            response_text@,
        ),
        keep_trimmed(voice_segments(response_text@)).len() == 0 ==> r@ == spec_trim(
            response_text@,
        ),
{
    match extract_voice_output(response_text) {
        Some(out) => out,
        None => str_trim(response_text).to_owned(),
    }
}

/// One choice of a chat-completion reply.
#[derive(Debug, Clone)]
pub struct LlmAssistantMessage {
    pub content: Option<String>,
}

/// One choice of a chat-completion reply.
#[derive(Debug, Clone)]
pub struct LlmChoice {
    pub message: LlmAssistantMessage,
}

/// The shape of a chat-completion reply: the standard choice list, or
/// a bare message.
#[derive(Debug, Clone)]
pub struct LlmResponse {
    pub choices: Option<Vec<LlmChoice>>,
    pub message: Option<LlmAssistantMessage>,
}

/// The first choice that carries content.
pub open spec fn first_choice_content(cs: Seq<LlmChoice>) -> Option<Seq<char>>
    decreases cs.len(),
{
    if cs.len() == 0 {
        Option::None
    } else {
        match cs[0].message.content {
            Option::Some(c) => Option::Some(c@),
            Option::None => first_choice_content(cs.drop_first()),
        }
    }
}

/// The reply text an LLM response carries, if any: the first choice
/// with content when a choice list is present (even an empty answer),
/// else the bare message's content.
pub open spec fn spec_llm_content(r: LlmResponse) -> Option<Seq<char>> {
    match r.choices {
        Option::Some(cs) => first_choice_content(cs@),
        Option::None => match r.message {
            Option::Some(m) => match m.content {
                Option::Some(c) => Option::Some(c@),
                Option::None => Option::None,
            },
            Option::None => Option::None,
        },
    }
}

impl LlmResponse {
    /// The reply text, per [`spec_llm_content`].
    pub fn content(&self) -> (r: Option<String>)
        ensures
            (r is Some) == (spec_llm_content(*self) is Some),
            (r matches Some(c) ==> spec_llm_content(*self) == Option::Some(c@)),
    {
        match &self.choices {
            Some(cs) => {
                proof {
                    assert(cs@.skip(0) =~= cs@);
                    assert(self.choices == Option::Some(*cs));
                }
                let mut i: usize = 0;
                while i < cs.len()
                    invariant
                        i <= cs@.len(),
                        self.choices == Option::Some(*cs),
                        first_choice_content(cs@) == first_choice_content(cs@.skip(i as int)),
                    decreases cs@.len() - i,
                {
                    match &cs[i].message.content {
                        Some(c) => {
                            proof {
                                assert(cs@.skip(i as int)[0] == cs@[i as int]);
                                assert(first_choice_content(cs@.skip(i as int))
                                    == Option::Some(c@));
                            }
                            return Some(c.clone());
                        },
                        None => {
                            proof {
                                assert(cs@.skip(i as int)[0] == cs@[i as int]);
                                assert(cs@.skip(i as int).drop_first() =~= cs@.skip(i + 1));
                            }
                        },
                    }
                    i = i + 1;
                }
                proof {
                    assert(cs@.skip(i as int).len() == 0);
                }
                None
            },
            None => match &self.message {
                Some(m) => match &m.content {
                    Some(c) => Some(c.clone()),
                    None => None,
                },
                None => None,
            },
        }
    }
}

/// The message list sent to the chat-completion endpoint: the system
/// prompt first when it has visible content, then the history in
/// order under the wire roles.
pub fn build_llm_messages(system_prompt: &str, history: &Vec<ChatMessage>) -> (r: Vec<LlmMessage>)
    ensures
        ({
            let lead: int = if spec_trim(system_prompt@).len() > 0 {
                1int
            } else {
                0int
            };
            &&& r@.len() == lead + history@.len()
            &&& (spec_trim(system_prompt@).len() > 0 ==> (r@[0].role@ == "system"@ && r@[0].content@
                == system_prompt@))
            &&& forall|i: int|
                0 <= i < history@.len() ==> ((#[trigger] r@[lead + i]).content@
                    == history@[i].content@ && r@[lead + i].role@ == (
                match history@[i].role {
                    crate::session::ChatRole::User => "user"@,
                    crate::session::ChatRole::Assistant => "assistant"@,
                }))
        }),
{
    let mut r: Vec<LlmMessage> = Vec::new();
    let trimmed = str_trim(system_prompt);
    if trimmed.unicode_len() > 0 {
        r.push(LlmMessage { role: "system".to_owned(), content: system_prompt.to_owned() });
    }
    let ghost lead = r@.len() as int;
    let mut i: usize = 0;
    while i < history.len()
        invariant
            i <= history@.len(),
            r@.len() == lead + i,
            lead == (if spec_trim(system_prompt@).len() > 0 {
                1int
            } else {
                0int
            }),
            (spec_trim(system_prompt@).len() > 0 ==> (r@[0].role@ == "system"@ && r@[0].content@
                == system_prompt@)),
            forall|k: int|
                0 <= k < i ==> ((#[trigger] r@[lead + k]).content@ == history@[k].content@ && r@[
                    lead + k
                ].role@ == (match history@[k].role {
                    crate::session::ChatRole::User => "user"@,
                    crate::session::ChatRole::Assistant => "assistant"@,
                })),
        decreases history@.len() - i,
    {
        let m = &history[i];
        let role = m.role.as_str().to_owned();
        let content = m.content.clone();
        r.push(LlmMessage { role, content });
        i = i + 1;
    }
    r
}

/// The query parameters of a speech-synthesis request: the text
/// always, then the optional tuning values in a fixed order.
pub fn vibevoice_query_params(
    text: &str,
    cfg: Option<String>,
    steps: Option<String>,
    voice: Option<String>,
) -> (r: Vec<(String, String)>)
    ensures
        ({
            let want = seq![("text"@, text@)] + (match cfg {
                Option::Some(c) => seq![("cfg"@, c@)],
                Option::None => Seq::empty(),
            }) + (match steps {
                Option::Some(v) => seq![("steps"@, v@)],
                Option::None => Seq::empty(),
            }) + (match voice {
                Option::Some(v) => seq![("voice"@, v@)],
                Option::None => Seq::empty(),
            });
            &&& r@.len() == want.len()
            &&& forall|i: int|
                0 <= i < r@.len() ==> ((#[trigger] r@[i]).0@ == want[i].0 && r@[i].1@ == want[i].1)
        }),
{
    let mut r: Vec<(String, String)> = Vec::new();
    r.push(("text".to_owned(), text.to_owned()));
    match cfg {
        Some(c) => r.push(("cfg".to_owned(), c)),
        None => {},
    }
    match steps {
        Some(v) => r.push(("steps".to_owned(), v)),
        None => {},
    }
    match voice {
        Some(v) => r.push(("voice".to_owned(), v)),
        None => {},
    }
    r
}

/// Synthesized audio arrives as raw PCM; an empty reply is an error,
/// anything else is a complete buffer in the configured format.
pub fn pcm_output_from_bytes(data: Vec<u8>, sample_rate: u32, channels: u16) -> (r: Result<
    AudioOutput,
    EngineError,
>)
    ensures
        data@.len() == 0 ==> (r matches Result::Err(EngineError::Vibevoice(_))),
        data@.len() > 0 ==> (r matches Result::Ok(a) && a == (AudioOutput::Pcm {
            data,
            sample_rate,
            channels,
        })),
{
    if data.len() == 0 {
        Err(EngineError::Vibevoice("no audio received from vibevoice".to_owned()))
    } else {
        Ok(AudioOutput::Pcm { data, sample_rate, channels })
    }
}

/// Settings of the cloud engine, held as plain values.
#[derive(Debug, Clone)]
pub struct CloudEngineConfig {
    pub api_url: String,
    pub voice_id: String,
    pub tenant_id: Option<String>,
    pub timeout_ms: u64,
    pub stream_audio: bool,
}

} // verus!
