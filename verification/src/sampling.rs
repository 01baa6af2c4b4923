//! Sampling: a server asks the platform's model for a completion. The
//! server's messages are turned into chat messages, the streamed answer is
//! collected, and the provider's finish reason is mapped to the protocol's
//! stop reason.
use crate::text;
use vstd::prelude::*;
use vstd::string::StringExecFns;

verus! {

/// Content of a sampling message.
#[derive(Debug, Clone, PartialEq, Eq)]
pub enum SamplingContent {
    Text { text: String },
    /// Base64 data (an image, a PDF page, ...) with its MIME type.
    Image { data: String, mime_type: String },
    /// A content type this client does not know.
    Unknown,
}

impl SamplingContent {
    /// The text of a text content, `None` for any other content.
    pub fn as_text(&self) -> (r: Option<&str>)
        ensures
            match self {
                SamplingContent::Text { text } => r matches Some(t) && t@ == text@,
                _ => r is None,
            },
    {
        match self {
            SamplingContent::Text { text } => Some(text.as_str()),
            _ => None,
        }
    }
}

/// A message of a sampling request.
#[derive(Debug, Clone, PartialEq, Eq)]
pub struct SamplingMessage {
    /// `user` or `assistant`.
    pub role: String,
    pub content: SamplingContent,
}

/// A model hint of a sampling request.
#[derive(Debug, Clone, PartialEq, Eq)]
pub struct ModelHint {
    pub name: Option<String>,
}

/// The platform's answer to a sampling request.
#[derive(Debug, Clone, PartialEq, Eq)]
pub struct SamplingCreateMessageResult {
    pub role: String,
    pub content: SamplingContent,
    pub model: String,
    pub stop_reason: Option<String>,
}

/// Role of a chat message sent to the model.
#[derive(Debug, Clone, Copy, PartialEq, Eq, Structural)]
pub enum ChatRole {
    System,
    User,
    Assistant,
}

/// A content block of a chat message sent to the model.
#[derive(Debug, Clone, PartialEq, Eq)]
pub enum ChatBlock {
    Text(String),
    Image { media_type: String, data: String },
}

/// A chat message sent to the model.
#[derive(Debug, Clone, PartialEq, Eq)]
pub struct ChatMessage {
    pub role: ChatRole,
    pub content: Vec<ChatBlock>,
}

/// The view of a chat block: `(is_image, text or data, media type)`.
pub open spec fn block_view(b: ChatBlock) -> (bool, Seq<char>, Seq<char>) {
    match b {
        ChatBlock::Text(t) => (false, t@, Seq::empty()),
        ChatBlock::Image { media_type, data } => (true, data@, media_type@),
    }
}

/// The view of a chat message: its role and blocks.
pub open spec fn message_view(m: ChatMessage) -> (ChatRole, Seq<(bool, Seq<char>, Seq<char>)>) {
    (m.role, m.content@.map_values(|b: ChatBlock| block_view(b)))
}

/// The chat message a sampling message becomes, if any: `assistant` keeps
/// its role and every other role is the user's; text and image contents
/// become one block; an unknown content is dropped.
pub open spec fn converted(m: SamplingMessage) -> Option<(ChatRole, Seq<(bool, Seq<char>, Seq<char>)>)> {
    let role = if m.role@ == "assistant"@ {
        ChatRole::Assistant
    } else {
        ChatRole::User
    };
    match m.content {
        SamplingContent::Text { text } => Some((role, seq![(false, text@, Seq::empty())])),
        SamplingContent::Image { data, mime_type } => Some((role, seq![(true, data@, mime_type@)])),
        SamplingContent::Unknown => None,
    }
}

/// The chat messages of a sampling request: the system prompt first, when
/// given, then each convertible message in order.
pub open spec fn chat_messages(system_prompt: Option<Seq<char>>, ms: Seq<SamplingMessage>) -> Seq<
    (ChatRole, Seq<(bool, Seq<char>, Seq<char>)>),
>
    decreases ms.len(),
{
    if ms.len() == 0 {
        match system_prompt {
            Some(s) => seq![(ChatRole::System, seq![(false, s, Seq::empty())])],
            None => Seq::empty(),
        }
    } else {
        let prev = chat_messages(system_prompt, ms.drop_last());
        match converted(ms.last()) {
            Some(c) => prev.push(c),
            None => prev,
        }
    }
}

/// The chat messages sent to the model for a sampling request.
pub fn sampling_chat_messages(system_prompt: Option<&str>, messages: &Vec<SamplingMessage>) -> (r:
    Vec<ChatMessage>)
    ensures
        r@.map_values(|m: ChatMessage| message_view(m)) == chat_messages(
            match system_prompt {
                Some(s) => Some(s@),
                None => None,
            },
            messages@,
        ),
{
    let ghost sp = match system_prompt {
        Some(s) => Some(s@),
        None => None::<Seq<char>>,
    };
    let mut out: Vec<ChatMessage> = Vec::new();
    if let Some(s) = system_prompt {
        let mut blocks: Vec<ChatBlock> = Vec::new();
        blocks.push(ChatBlock::Text(String::from_str(s)));
        out.push(ChatMessage { role: ChatRole::System, content: blocks });
        assert(out@[0].content@.map_values(|b: ChatBlock| block_view(b)) =~= seq![
            (false, s@, Seq::<char>::empty()),
        ]);
    }
    assert(out@.map_values(|m: ChatMessage| message_view(m)) =~= chat_messages(sp, messages@.take(0)));
    let mut j: usize = 0;
    while j < messages.len()
        invariant
            j <= messages@.len(),
            sp == match system_prompt {
                Some(s) => Some(s@),
                None => None::<Seq<char>>,
            },
            out@.map_values(|m: ChatMessage| message_view(m)) == chat_messages(
                sp,
                messages@.take(j as int),
            ),
        decreases messages@.len() - j,
    {
        assert(messages@.take(j + 1).drop_last() =~= messages@.take(j as int));
        assert(messages@.take(j + 1).last() == messages@[j as int]);
        let m = &messages[j];
        let role = if text::str_eq(m.role.as_str(), "assistant") {
            ChatRole::Assistant
        } else {
            ChatRole::User
        };
        let ghost before = out@.map_values(|m: ChatMessage| message_view(m));
        match &m.content {
            SamplingContent::Text { text } => {
                let mut blocks: Vec<ChatBlock> = Vec::new();
                blocks.push(ChatBlock::Text(text.clone()));
                let cm = ChatMessage { role, content: blocks };
                assert(message_view(cm) == converted(*m)->0) by {
                    assert(cm.content@.map_values(|b: ChatBlock| block_view(b)) =~= seq![
                        (false, text@, Seq::<char>::empty()),
                    ]);
                }
                out.push(cm);
                assert(out@.map_values(|m: ChatMessage| message_view(m)) =~= before.push(
                    message_view(cm),
                ));
            },
            SamplingContent::Image { data, mime_type } => {
                let mut blocks: Vec<ChatBlock> = Vec::new();
                blocks.push(ChatBlock::Image { media_type: mime_type.clone(), data: data.clone() });
                let cm = ChatMessage { role, content: blocks };
                assert(message_view(cm) == converted(*m)->0) by {
                    assert(cm.content@.map_values(|b: ChatBlock| block_view(b)) =~= seq![
                        (true, data@, mime_type@),
                    ]);
                }
                out.push(cm);
                assert(out@.map_values(|m: ChatMessage| message_view(m)) =~= before.push(
                    message_view(cm),
                ));
            },
            SamplingContent::Unknown => {},
        }
        j = j + 1;
    }
    assert(messages@.take(j as int) =~= messages@);
    out
}

/// The protocol's stop reason for a provider finish reason: the end-of-turn
/// spellings are `endTurn`, the length-limit ones `maxTokens`, the
/// stop-sequence ones `stopSequence`; any other is passed through.
pub open spec fn stop_reason_for(r: Seq<char>) -> Seq<char> {
    if r == "end_turn"@ || r == "stop"@ || r == "STOP"@ || r == "eos_token"@ {
        "endTurn"@
    } else if r == "max_tokens"@ || r == "length"@ || r == "MAX_TOKENS"@ {
        "maxTokens"@
    } else if r == "stop_sequence"@ || r == "STOP_SEQUENCE"@ {
        "stopSequence"@
    } else {
        r
    }
}

/// Maps a provider finish reason to the protocol's stop reason.
pub fn map_stop_reason(r: &str) -> (s: String)
    ensures
        s@ == stop_reason_for(r@),
{
    if text::str_eq(r, "end_turn") || text::str_eq(r, "stop") || text::str_eq(r, "STOP")
        || text::str_eq(r, "eos_token") {
        String::from_str("endTurn")
    } else if text::str_eq(r, "max_tokens") || text::str_eq(r, "length") || text::str_eq(
        r,
        "MAX_TOKENS",
    ) {
        String::from_str("maxTokens")
    } else if text::str_eq(r, "stop_sequence") || text::str_eq(r, "STOP_SEQUENCE") {
        String::from_str("stopSequence")
    } else {
        String::from_str(r)
    }
}

/// The answer collected from the model's stream so far: the text deltas
/// joined, and the last finish reason seen.
#[derive(Debug, Clone)]
pub struct StreamCollector {
    pub text: String,
    pub finish_reason: Option<String>,
}

/// The text deltas of a chunk, in order, joined.
pub open spec fn joined_text(deltas: Seq<Option<String>>) -> Seq<char>
    decreases deltas.len(),
{
    if deltas.len() == 0 {
        Seq::empty()
    } else {
        joined_text(deltas.drop_last()) + match deltas.last() {
            Some(t) => t@,
            None => Seq::empty(),
        }
    }
}

impl StreamCollector {
    /// Nothing collected yet.
    pub fn new() -> (r: StreamCollector)
        ensures
            r.text@.len() == 0,
            r.finish_reason is None,
    {
        StreamCollector { text: String::new(), finish_reason: None }
    }

    /// Takes one streamed chunk: its finish reason (when it has one)
    /// replaces the last one, and its text deltas (`None` for a non-text
    /// delta) are appended.
    pub fn on_chunk(&mut self, finish_reason: Option<String>, deltas: &Vec<Option<String>>)
        ensures
            final(self).text@ == old(self).text@ + joined_text(deltas@),
            crate::auth::opt_view(final(self).finish_reason) == if finish_reason is Some {
                crate::auth::opt_view(finish_reason)
            } else {
                crate::auth::opt_view(old(self).finish_reason)
            },
    {
        if finish_reason.is_some() {
            self.finish_reason = finish_reason;
        }
        let ghost start = self.text@;
        let mut j: usize = 0;
        while j < deltas.len()
            invariant
                j <= deltas@.len(),
                self.text@ == start + joined_text(deltas@.take(j as int)),
                crate::auth::opt_view(self.finish_reason) == if finish_reason is Some {
                    crate::auth::opt_view(finish_reason)
                } else {
                    crate::auth::opt_view(old(self).finish_reason)
                },
            decreases deltas@.len() - j,
        {
            assert(deltas@.take(j + 1).drop_last() =~= deltas@.take(j as int));
            assert(deltas@.take(j + 1).last() == deltas@[j as int]);
            if let Some(t) = &deltas[j] {
                self.text.append(t.as_str());
            }
            assert(self.text@ =~= start + joined_text(deltas@.take(j + 1)));
            j = j + 1;
        }
        assert(deltas@.take(j as int) =~= deltas@);
    }

    /// The sampling answer: the assistant's collected text, the model
    /// name, and the mapped stop reason.
    pub fn into_result(self, model: &str) -> (r: SamplingCreateMessageResult)
        ensures
            r.role@ == "assistant"@,
            r.content matches SamplingContent::Text { text } && text@ == self.text@,
            r.model@ == model@,
            crate::auth::opt_view(r.stop_reason) == match self.finish_reason {
                Some(f) => Some(stop_reason_for(f@)),
                None => None,
            },
    {
        let stop_reason = match &self.finish_reason {
            Some(f) => Some(map_stop_reason(f.as_str())),
            None => None,
        };
        SamplingCreateMessageResult {
            role: String::from_str("assistant"),
            content: SamplingContent::Text { text: self.text },
            model: String::from_str(model),
            stop_reason,
        }
    }
}

} // verus!
