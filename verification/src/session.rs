//! The state of the current tutoring session: the chat history sent to the
//! model with its system prompt, the conversation it is stored under and its
//! running counts, the language used for speech, and the system prompts of
//! the session's modes.

use vstd::prelude::*;
use vstd::string::{StrSliceExecFns, StringExecFns};
use crate::db::NewVocabulary as VocabularyRow;
use crate::json::opt_view;
use crate::parser::NewVocabulary as TurnVocabulary;
use crate::prompt::{build_system_prompt, system_prompt, views, ChatMessage, ChatRole};
use crate::parser::{trim, trimmed_string};
use crate::text::{chars_of, owned, str_eq};

verus! {

// ── Chat history ─────────────────────────────────────────────────────────

/// A chat message as a plain value: its role and its text.
pub open spec fn message_view(m: ChatMessage) -> (ChatRole, Seq<char>) {
    (m.role, m.content@)
}

/// The plain values of a list of chat messages.
pub open spec fn message_views(ms: Seq<ChatMessage>) -> Seq<(ChatRole, Seq<char>)> {
    ms.map_values(|m: ChatMessage| message_view(m))
}

/// The chat history of the current session: the system prompt, the
/// messages exchanged so far, the id of the stored conversation once there
/// is one, and the numbers of messages and of corrected errors.
pub struct ConversationHistory {
    messages: Vec<ChatMessage>,
    system_prompt: String,
    conversation_id: Option<i64>,
    message_count: i32,
    error_count: i32,
}

/// A copy of a chat message.
pub fn copy_message(m: &ChatMessage) -> (r: ChatMessage)
    ensures
        message_view(r) == message_view(*m),
{
    ChatMessage { role: m.role, content: m.content.clone() }
}

/// The system prompt a new session starts with: Spanish for an English
/// speaker at A1, with conversation as the goal, in free conversation mode.
pub open spec fn default_prompt() -> Seq<char> {
    system_prompt(
        "Spanish"@,
        "Learner"@,
        "English"@,
        "A1 (Beginner)"@,
        seq!["Conversation"@],
        None,
    )
}

impl ConversationHistory {
    /// The messages, in order.
    pub closed spec fn messages(&self) -> Seq<(ChatRole, Seq<char>)> {
        message_views(self.messages@)
    }

    /// The system prompt.
    pub closed spec fn prompt(&self) -> Seq<char> {
        self.system_prompt@
    }

    /// The id of the stored conversation.
    pub closed spec fn id(&self) -> Option<i64> {
        self.conversation_id
    }

    /// Messages counted in the current conversation.
    pub closed spec fn msg_count(&self) -> int {
        self.message_count as int
    }

    /// Corrected errors counted in the current conversation.
    pub closed spec fn err_count(&self) -> int {
        self.error_count as int
    }

    /// Counts never go below zero.
    pub closed spec fn wf(&self) -> bool {
        self.message_count >= 0 && self.error_count >= 0
    }

    /// A fresh session with the default prompt.
    pub fn new() -> (h: Self)
        ensures
            h.wf(),
            h.prompt() == default_prompt(),
            h.messages() == Seq::<(ChatRole, Seq<char>)>::empty(),
            h.id() is None,
            h.msg_count() == 0,
            h.err_count() == 0,
    {
        let goals: Vec<&str> = vec!["Conversation"];
        assert(views(goals@) =~= seq!["Conversation"@]);
        let prompt = build_system_prompt(
            "Spanish",
            "Learner",
            "English",
            "A1 (Beginner)",
            goals.as_slice(),
            None,
        );
        let h = ConversationHistory {
            messages: Vec::new(),
            system_prompt: prompt,
            conversation_id: None,
            message_count: 0,
            error_count: 0,
        };
        assert(h.messages() =~= Seq::<(ChatRole, Seq<char>)>::empty());
        h
    }

    /// Replace the system prompt; everything else stays.
    pub fn set_system_prompt(&mut self, prompt: String)
        ensures
            final(self).prompt() == prompt@,
            final(self).messages() == old(self).messages(),
            final(self).id() == old(self).id(),
            final(self).msg_count() == old(self).msg_count(),
            final(self).err_count() == old(self).err_count(),
            old(self).wf() ==> final(self).wf(),
    {
        self.system_prompt = prompt;
    }

    /// Forget the messages, the conversation and the counts; the system
    /// prompt stays.
    pub fn clear(&mut self)
        ensures
            final(self).wf(),
            final(self).prompt() == old(self).prompt(),
            final(self).messages() == Seq::<(ChatRole, Seq<char>)>::empty(),
            final(self).id() is None,
            final(self).msg_count() == 0,
            final(self).err_count() == 0,
    {
        self.messages.clear();
        self.conversation_id = None;
        self.message_count = 0;
        self.error_count = 0;
        assert(self.messages() =~= Seq::<(ChatRole, Seq<char>)>::empty());
    }

    /// Append a message.
    pub fn push(&mut self, msg: ChatMessage)
        ensures
            final(self).messages() == old(self).messages().push(message_view(msg)),
            final(self).prompt() == old(self).prompt(),
            final(self).id() == old(self).id(),
            final(self).msg_count() == old(self).msg_count(),
            final(self).err_count() == old(self).err_count(),
            old(self).wf() ==> final(self).wf(),
    {
        let ghost m = msg;
        self.messages.push(msg);
        assert(self.messages() =~= old(self).messages().push(message_view(m)));
    }

    /// The id of the stored conversation, if there is one.
    pub fn get_conversation_id(&self) -> (r: Option<i64>)
        ensures
            r == self.id(),
    {
        self.conversation_id
    }

    /// Record the id of the stored conversation.
    pub fn set_conversation_id(&mut self, id: i64)
        ensures
            final(self).id() == Some(id),
            final(self).messages() == old(self).messages(),
            final(self).prompt() == old(self).prompt(),
            final(self).msg_count() == old(self).msg_count(),
            final(self).err_count() == old(self).err_count(),
            old(self).wf() ==> final(self).wf(),
    {
        self.conversation_id = Some(id);
    }

    /// Count one more message and return the new count.
    pub fn increment_messages(&mut self) -> (r: i32)
        requires
            old(self).msg_count() < i32::MAX,
        ensures
            r == final(self).msg_count(),
            final(self).msg_count() == old(self).msg_count() + 1,
            final(self).err_count() == old(self).err_count(),
            final(self).messages() == old(self).messages(),
            final(self).prompt() == old(self).prompt(),
            final(self).id() == old(self).id(),
            old(self).wf() ==> final(self).wf(),
    {
        self.message_count = self.message_count + 1;
        self.message_count
    }

    /// Count one more corrected error and return the new count.
    pub fn increment_errors(&mut self) -> (r: i32)
        requires
            old(self).err_count() < i32::MAX,
        ensures
            r == final(self).err_count(),
            final(self).err_count() == old(self).err_count() + 1,
            final(self).msg_count() == old(self).msg_count(),
            final(self).messages() == old(self).messages(),
            final(self).prompt() == old(self).prompt(),
            final(self).id() == old(self).id(),
            old(self).wf() ==> final(self).wf(),
    {
        self.error_count = self.error_count + 1;
        self.error_count
    }

    /// Count a finished turn: the student's message and the tutor's, and a
    /// corrected error where the tutor made a correction.  Returns the new
    /// counts.
    pub fn count_turn(&mut self, corrected: bool) -> (r: (i32, i32))
        requires
            old(self).msg_count() + 2 <= i32::MAX,
            corrected ==> old(self).err_count() < i32::MAX,
        ensures
            final(self).msg_count() == old(self).msg_count() + 2,
            final(self).err_count() == old(self).err_count() + if corrected {
                1int
            } else {
                0int
            },
            r == (final(self).msg_count() as i32, final(self).err_count() as i32),
            final(self).messages() == old(self).messages(),
            final(self).prompt() == old(self).prompt(),
            final(self).id() == old(self).id(),
            old(self).wf() ==> final(self).wf(),
    {
        self.increment_messages();
        self.increment_messages();
        if corrected {
            self.increment_errors();
        }
        self.counts()
    }

    /// The message and error counts.
    pub fn counts(&self) -> (r: (i32, i32))
        ensures
            r.0 == self.msg_count(),
            r.1 == self.err_count(),
    {
        (self.message_count, self.error_count)
    }

    /// The full message list, prefixed with the system prompt as a system
    /// message.
    pub fn messages_with_system(&self) -> (out: Vec<ChatMessage>)
        ensures
            message_views(out@) == seq![(ChatRole::System, self.prompt())] + self.messages(),
    {
        let mut out: Vec<ChatMessage> = Vec::new();
        out.push(ChatMessage::system(self.system_prompt.clone()));
        let mut i: usize = 0;
        while i < self.messages.len()
            invariant
                i <= self.messages@.len(),
                message_views(out@) == seq![(ChatRole::System, self.prompt())]
                    + message_views(self.messages@.take(i as int)),
            decreases self.messages@.len() - i,
        {
            let m = copy_message(&self.messages[i]);
            let ghost before = out@;
            out.push(m);
            assert(message_views(out@) =~= message_views(before).push(message_view(m)));
            assert(message_views(self.messages@.take(i + 1)) =~= message_views(
                self.messages@.take(i as int),
            ).push(message_view(self.messages@[i as int])));
            i += 1;
        }
        assert(self.messages@.take(self.messages@.len() as int) == self.messages@);
        out
    }
}

// ── Speech language ──────────────────────────────────────────────────────

/// The language code speech is synthesised in when a sentence's script does
/// not identify one.
pub struct TargetLanguage {
    code: String,
}

impl TargetLanguage {
    /// The current code.
    pub closed spec fn code(&self) -> Seq<char> {
        self.code@
    }

    pub fn new(code: &str) -> (t: Self)
        ensures
            t.code() == code@,
    {
        TargetLanguage { code: owned(code) }
    }

    pub fn get(&self) -> (r: String)
        ensures
            r@ == self.code(),
    {
        self.code.clone()
    }

    pub fn set(&mut self, code: &str)
        ensures
            final(self).code() == code@,
    {
        self.code = owned(code);
    }
}

// ── What a turn stores ───────────────────────────────────────────────────

/// A copy of an optional text.
fn copy_opt(o: &Option<String>) -> (r: Option<String>)
    ensures
        opt_view(*o) == opt_view(r),
{
    match o {
        Some(s) => Some(s.clone()),
        None => None,
    }
}

/// The vocabulary a turn stores for the items the tutor introduced: the
/// same texts, under the topic "conversation".
pub open spec fn stored_vocabulary(v: TurnVocabulary, row: VocabularyRow) -> bool {
    &&& row.target_text@ == v.target_text@
    &&& row.native_text@ == v.native_text@
    &&& opt_view(row.pronunciation) == opt_view(v.pronunciation)
    &&& opt_view(row.part_of_speech) == opt_view(v.part_of_speech)
    &&& row.topic@ == "conversation"@
    &&& opt_view(row.example_target) == opt_view(v.example_target)
    &&& opt_view(row.example_native) == opt_view(v.example_native)
}

/// The rows to store for the vocabulary a tutor turn introduced, in order,
/// tied to the conversation.
pub fn vocabulary_rows(items: &[TurnVocabulary], conversation_id: Option<i64>) -> (r: Vec<VocabularyRow>)
    ensures
        r@.len() == items@.len(),
        forall|i: int| 0 <= i < r@.len() ==> stored_vocabulary(items@[i], #[trigger] r@[i]) && r@[i].conversation_id == conversation_id,
{
    let mut out: Vec<VocabularyRow> = Vec::new();
    let mut i: usize = 0;
    while i < items.len()
        invariant
            i <= items@.len(),
            out@.len() == i,
            forall|k: int| 0 <= k < i ==> stored_vocabulary(items@[k], #[trigger] out@[k]) && out@[k].conversation_id == conversation_id,
        decreases items@.len() - i,
    {
        let v = &items[i];
        proof {
            reveal_strlit("conversation");
        }
        out.push(VocabularyRow {
            target_text: v.target_text.clone(),
            native_text: v.native_text.clone(),
            pronunciation: copy_opt(&v.pronunciation),
            part_of_speech: copy_opt(&v.part_of_speech),
            topic: owned("conversation"),
            example_target: copy_opt(&v.example_target),
            example_native: copy_opt(&v.example_native),
            conversation_id,
        });
        i += 1;
    }
    out
}

/// The tutor's line a new conversation's title is made from: the
/// translation where there is one, else the line itself.
pub fn title_source<'a>(tutor_target: &'a str, tutor_native: &'a str) -> (r: &'a str)
    ensures
        r@ == if tutor_native@.len() == 0 {
            tutor_target@
        } else {
            tutor_native@
        },
{
    if tutor_native.unicode_len() == 0 {
        tutor_target
    } else {
        tutor_native
    }
}

/// The translation to store with the tutor's message: none where it is
/// empty.
pub fn stored_translation(tutor_native: &str) -> (r: Option<String>)
    ensures
        opt_view(r) == if tutor_native@.len() == 0 {
            None
        } else {
            Some(tutor_native@)
        },
{
    if tutor_native.unicode_len() == 0 {
        None
    } else {
        Some(owned(tutor_native))
    }
}

/// The chat message a stored message becomes when a conversation is
/// loaded: the student's as the user's, the tutor's as the assistant's;
/// messages with any other role are left out.
pub fn stored_message(role: &str, content: String) -> (r: Option<ChatMessage>)
    ensures
        match r {
            Some(m) => m.content@ == content@ && ((role@ == "student"@ && m.role == ChatRole::User)
                || (role@ == "tutor"@ && m.role == ChatRole::Assistant)),
            None => role@ != "student"@ && role@ != "tutor"@,
        },
{
    if str_eq(role, "student") {
        Some(ChatMessage::user(content))
    } else if str_eq(role, "tutor") {
        Some(ChatMessage::assistant(content))
    } else {
        None
    }
}

/// The student's message as sent: trimmed, and refused when nothing is
/// left.
pub fn student_message_text(text: &str) -> (r: Result<String, String>)
    ensures
        match r {
            Ok(t) => t@ == trim(text@) && t@.len() > 0,
            Err(e) => trim(text@).len() == 0 && e@ == "empty student message"@,
        },
{
    let v = chars_of(text);
    let t = trimmed_string(&v, 0, v.len());
    assert(v@.subrange(0, v@.len() as int) == v@);
    if t.as_str().unicode_len() == 0 {
        Err(owned("empty student message"))
    } else {
        Ok(t)
    }
}

} // verus!
