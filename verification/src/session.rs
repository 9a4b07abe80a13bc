//! Chat session state: an opaque identifier, an append-only message
//! history, and a lazy inactivity rollover.
//!
//! Time enters as plain milliseconds so that the rollover rule is a
//! pure function of its arguments; the `_at`-suffixed methods take the
//! instant explicitly and the plain methods read the clock themselves.

use vstd::prelude::*;

verus! {

/// Placeholder assistant message stored when the engine returns only
/// audio, so that user/assistant pairs in the history stay aligned.
pub const CLOUD_MESSAGE_PLACEHOLDER: &'static str =
    "<message could not be saved due to platform limitations>";

/// Who a history entry belongs to.
#[derive(Debug, Clone, Copy, PartialEq, Eq, Structural)]
pub enum ChatRole {
    User,
    Assistant,
}

impl ChatRole {
    /// The wire spelling of the role used in chat-completion requests.
    pub fn as_str(self) -> (r: &'static str)
        ensures
            self is User ==> r@ == "user"@,
            self is Assistant ==> r@ == "assistant"@,
    {
        match self {
            ChatRole::User => "user",
            ChatRole::Assistant => "assistant",
        }
    }
}

/// One immutable history entry.
#[derive(Debug, Clone)]
pub struct ChatMessage {
    pub role: ChatRole,
    pub content: String,
}

impl ChatMessage {
    pub fn new(role: ChatRole, content: String) -> (r: ChatMessage)
        ensures
            r.role == role,
            r.content == content,
    {
        ChatMessage { role, content }
    }
}

/// `h1` is `h0` with one message of the given role and text appended.
pub open spec fn appends_message(
    h0: Seq<ChatMessage>,
    h1: Seq<ChatMessage>,
    role: ChatRole,
    text: Seq<char>,
) -> bool {
    &&& h1.len() == h0.len() + 1
    &&& h1.subrange(0, h0.len() as int) == h0
    &&& h1.last().role == role
    &&& h1.last().content@ == text
}

/// A session manager is freshly rolled over: empty history, no
/// recorded activity, and an identifier of hyphenated-UUID length.
pub open spec fn is_fresh_session(s: SessionManager) -> bool {
    &&& s.spec_history().len() == 0
    &&& s.spec_last_message_at() is None
    &&& s.spec_id().len() == 36
}

/// The rollover rule: a session times out when a message was recorded
/// and at least `timeout_ms` elapsed since.  The elapsed time saturates
/// at zero should the clock read earlier than the last message.
pub open spec fn rollover_due(last: Option<u64>, now: u64, timeout_ms: u64) -> bool {
    match last {
        Option::Some(at) => (if now >= at { now - at } else { 0int }) >= timeout_ms,
        Option::None => false,
    }
}

/// Relies on uuid::Uuid::new_v4 and its display form: a random
/// identifier rendered as 36 hyphenated lowercase hex characters.
#[verifier::external_body]
fn fresh_session_id() -> (r: String)
    ensures
        r@.len() == 36,
{
    uuid::Uuid::new_v4().to_string()
}

/// Relies on std::time::SystemTime::now: the wall clock as whole
/// milliseconds since the Unix epoch, truncated to 64 bits.
#[verifier::external_body]
fn now_millis() -> u64 {
    std::time::SystemTime::now()
        .duration_since(std::time::UNIX_EPOCH)
        .map(|d| d.as_millis() as u64)
        .unwrap_or(0)
}

/// The ordered history of one conversation under one identifier.
#[derive(Debug, Clone)]
pub struct SessionManager {
    id: String,
    history: Vec<ChatMessage>,
    last_message_at: Option<u64>,
}

impl SessionManager {
    /// The session identifier.
    pub closed spec fn spec_id(&self) -> Seq<char> {
        self.id@
    }

    /// The message history, oldest first.
    pub closed spec fn spec_history(&self) -> Seq<ChatMessage> {
        self.history@
    }

    /// When the last message was appended, in epoch milliseconds.
    pub closed spec fn spec_last_message_at(&self) -> Option<u64> {
        self.last_message_at
    }

    pub fn new() -> (r: SessionManager)
        ensures
            is_fresh_session(r),
    {
        SessionManager { id: fresh_session_id(), history: Vec::new(), last_message_at: None }
    }

    /// Replace the session wholesale: new identifier, empty history.
    pub fn start_new(&mut self)
        ensures
            is_fresh_session(*final(self)),
    {
        self.id = fresh_session_id();
        self.history.clear();
        self.last_message_at = None;
    }

    pub fn id(&self) -> (r: &str)
        ensures
            r@ == self.spec_id(),
    {
        self.id.as_str()
    }

    pub fn history(&self) -> (r: &Vec<ChatMessage>)
        ensures
            r@ == self.spec_history(),
    {
        &self.history
    }

    /// Append a user message, stamping the current wall clock.
    pub fn add_user_message(&mut self, text: String)
        ensures
            appends_message(
                old(self).spec_history(),
                final(self).spec_history(),
                ChatRole::User,
                text@,
            ),
            final(self).spec_last_message_at() is Some,
            final(self).spec_id() == old(self).spec_id(),
    {
        let now = now_millis();
        self.add_user_message_at(text, now);
    }

    /// Append an assistant message, stamping the current wall clock.
    pub fn add_assistant_message(&mut self, text: String)
        ensures
            appends_message(
                old(self).spec_history(),
                final(self).spec_history(),
                ChatRole::Assistant,
                text@,
            ),
            final(self).spec_last_message_at() is Some,
            final(self).spec_id() == old(self).spec_id(),
    {
        let now = now_millis();
        self.add_assistant_message_at(text, now);
    }

    /// Append the placeholder stored when the engine returned only audio.
    pub fn add_assistant_placeholder(&mut self)
        ensures
            appends_message(
                old(self).spec_history(),
                final(self).spec_history(),
                ChatRole::Assistant,
                CLOUD_MESSAGE_PLACEHOLDER@,
            ),
            final(self).spec_last_message_at() is Some,
            final(self).spec_id() == old(self).spec_id(),
    {
        let text = CLOUD_MESSAGE_PLACEHOLDER.to_owned();
        self.add_assistant_message(text);
    }

    pub fn add_user_message_at(&mut self, text: String, now: u64)
        ensures
            appends_message(
                old(self).spec_history(),
                final(self).spec_history(),
                ChatRole::User,
                text@,
            ),
            final(self).spec_last_message_at() == Option::Some(now),
            final(self).spec_id() == old(self).spec_id(),
    {
        self.history.push(ChatMessage::new(ChatRole::User, text));
        self.last_message_at = Some(now);
        proof {
            assert(self.history@.subrange(0, old(self).history@.len() as int)
                =~= old(self).history@);
        }
    }

    pub fn add_assistant_message_at(&mut self, text: String, now: u64)
        ensures
            appends_message(
                old(self).spec_history(),
                final(self).spec_history(),
                ChatRole::Assistant,
                text@,
            ),
            final(self).spec_last_message_at() == Option::Some(now),
            final(self).spec_id() == old(self).spec_id(),
    {
        self.history.push(ChatMessage::new(ChatRole::Assistant, text));
        self.last_message_at = Some(now);
        proof {
            assert(self.history@.subrange(0, old(self).history@.len() as int)
                =~= old(self).history@);
        }
    }

    /// Roll the session over if it has been idle too long, judged
    /// against the current wall clock.
    pub fn maybe_rollover(&mut self, timeout_ms: u64) -> (rolled: bool)
        ensures
            rolled ==> is_fresh_session(*final(self)),
            !rolled ==> *final(self) == *old(self),
            old(self).spec_last_message_at() is None ==> !rolled,
    {
        let now = now_millis();
        self.maybe_rollover_at(now, timeout_ms)
    }

    /// Roll the session over if `now` is at least `timeout_ms` past the
    /// last recorded message.
    pub fn maybe_rollover_at(&mut self, now: u64, timeout_ms: u64) -> (rolled: bool)
        ensures
            rolled == rollover_due(old(self).spec_last_message_at(), now, timeout_ms),
            rolled ==> is_fresh_session(*final(self)),
            !rolled ==> *final(self) == *old(self),
    {
        match self.last_message_at {
            Some(last) => {
                // Instant differences saturate at zero, so the elapsed
                // time reaches the timeout exactly when now >= last + timeout.
                let elapsed: u64 = if now >= last { now - last } else { 0 };
                if elapsed >= timeout_ms {
                    self.start_new();
                    true
                } else {
                    false
                }
            },
            None => false,
        }
    }
}

impl Default for SessionManager {
    fn default() -> (r: SessionManager)
        ensures
            is_fresh_session(r),
    {
        SessionManager::new()
    }
}

} // verus!
