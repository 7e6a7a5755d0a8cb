//! The provider-facing conversation shapes the journal folds into.

use vstd::prelude::*;

verus! {

#[derive(Debug, Clone, Copy, PartialEq, Eq)]
pub enum Role {
    User,
    Assistant,
}

/// One block of message content. A tool input is carried as its canonical JSON text.
#[derive(Debug, Clone, PartialEq, Eq)]
pub enum ContentBlock {
    Text { text: String },
    ToolUse { id: String, name: String, input: String },
    ToolResult { tool_use_id: String, content: String, is_error: bool },
}

#[derive(Debug, Clone, PartialEq, Eq)]
pub struct Message {
    pub role: Role,
    pub content: Vec<ContentBlock>,
}

/// Why a provider stopped one response.
#[derive(Debug, Clone, Copy, PartialEq, Eq)]
pub enum StopReason {
    EndTurn,
    ToolUse,
    MaxTokens,
    StopSequence,
    Refusal,
    Unknown,
}

/// Raw provider usage for one round. Absent counters stay absent.
#[derive(Debug, Clone, Copy, PartialEq, Eq)]
pub struct Usage {
    pub input_tokens: Option<u64>,
    pub output_tokens: Option<u64>,
    pub cache_read_input_tokens: Option<u64>,
    pub cache_creation_input_tokens: Option<u64>,
}

impl ContentBlock {
    pub fn text(text: &str) -> (b: ContentBlock)
        ensures
            b matches ContentBlock::Text { text: t } && t@ == text@,
    {
        ContentBlock::Text { text: text.to_owned() }
    }
}

impl Message {
    /// One user message carrying a batch of tool results.
    pub fn tool_results(blocks: Vec<ContentBlock>) -> (m: Message)
        ensures
            m.role == Role::User,
            m.content@ == blocks@,
    {
        Message { role: Role::User, content: blocks }
    }

    /// A user message of one text block.
    pub fn user_text(text: &str) -> (m: Message)
        ensures
            m.role == Role::User,
            m.content@.len() == 1,
            m.content@[0] matches ContentBlock::Text { text: t } && t@ == text@,
    {
        let mut content = Vec::new();
        content.push(ContentBlock::text(text));
        Message { role: Role::User, content }
    }
}

} // verus!

verus! {

impl crate::docs::Duplicate for Role {
    open spec fn copy_of(&self, other: &Self) -> bool {
        *self == *other
    }

    fn duplicate(&self) -> (r: Role) {
        *self
    }
}

impl crate::docs::Duplicate for ContentBlock {
    open spec fn copy_of(&self, other: &Self) -> bool {
        *self == *other
    }

    fn duplicate(&self) -> (r: ContentBlock) {
        match self {
            ContentBlock::Text { text } => ContentBlock::Text { text: text.clone() },
            ContentBlock::ToolUse { id, name, input } => ContentBlock::ToolUse {
                id: id.clone(),
                name: name.clone(),
                input: input.clone(),
            },
            ContentBlock::ToolResult { tool_use_id, content, is_error } => ContentBlock::ToolResult {
                tool_use_id: tool_use_id.clone(),
                content: content.clone(),
                is_error: *is_error,
            },
        }
    }
}

impl crate::docs::Duplicate for Message {
    open spec fn copy_of(&self, other: &Self) -> bool {
        self.role == other.role && self.content@ == other.content@
    }

    fn duplicate(&self) -> (r: Message) {
        let content = crate::docs::Duplicate::duplicate(&self.content);
        assert(content@ =~= self.content@);
        Message { role: self.role, content }
    }
}

/// A message as plain values: its role and its blocks.
pub open spec fn message_view(m: Message) -> (Role, Seq<ContentBlock>) {
    (m.role, m.content@)
}

/// A history as plain values.
pub open spec fn history_view(messages: Seq<Message>) -> Seq<(Role, Seq<ContentBlock>)> {
    messages.map_values(|m: Message| message_view(m))
}

} // verus!
