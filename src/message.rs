//! Protocol-level message shapes that an input is turned into.
use vstd::prelude::*;

verus! {

/// The output of one tool invocation, keyed by its call identity.
#[derive(Debug, Clone)]
pub struct ToolResult {
    pub id: String,
    pub name: String,
    pub output: String,
}

/// Pending tool results of a turn and their combined textual output.
#[derive(Debug, Clone)]
pub struct MessageContentToolCalls {
    pub tool_results: Vec<ToolResult>,
    pub text: String,
}

impl ToolResult {
    pub fn duplicate(&self) -> (r: Self)
        ensures
            r == *self,
    {
        ToolResult { id: self.id.clone(), name: self.name.clone(), output: self.output.clone() }
    }
}

impl MessageContentToolCalls {
    /// A copy with the same results, in the same order, and the same text.
    pub fn duplicate(&self) -> (r: Self)
        ensures
            r.tool_results@ == self.tool_results@,
            r.text == self.text,
    {
        let mut v: Vec<ToolResult> = Vec::new();
        let mut i: usize = 0;
        while i < self.tool_results.len()
            invariant
                i <= self.tool_results@.len(),
                v@ == self.tool_results@.subrange(0, i as int),
            decreases self.tool_results@.len() - i,
        {
            v.push(self.tool_results[i].duplicate());
            assert(v@ =~= self.tool_results@.subrange(0, i as int + 1));
            i = i + 1;
        }
        assert(v@ =~= self.tool_results@);
        MessageContentToolCalls { tool_results: v, text: self.text.clone() }
    }

    pub fn new(tool_results: Vec<ToolResult>, text: String) -> (r: Self)
        ensures
            r.tool_results@ == tool_results@,
            r.text@ == text@,
    {
        MessageContentToolCalls { tool_results, text }
    }

    /// Folds further results in: they follow the earlier ones, in order, and the
    /// combined output becomes `text`.
    pub fn merge(&mut self, tool_results: Vec<ToolResult>, text: String)
        ensures
            final(self).tool_results@ == old(self).tool_results@ + tool_results@,
            final(self).text@ == text@,
    {
        let mut tool_results = tool_results;
        self.tool_results.append(&mut tool_results);
        self.text = text;
    }
}

#[derive(Debug, Clone, Copy, PartialEq, Eq)]
pub enum MessageRole {
    System,
    User,
    Assistant,
}

/// One part of a multi-part message.
#[derive(Debug, Clone)]
pub enum MessageContentPart {
    Text { text: String },
    ImageUrl { url: String },
}

#[derive(Debug, Clone)]
pub enum MessageContent {
    Text(String),
    Array(Vec<MessageContentPart>),
    ToolCalls(MessageContentToolCalls),
}

#[derive(Debug, Clone)]
pub struct Message {
    pub role: MessageRole,
    pub content: MessageContent,
}

impl Message {
    pub fn new(role: MessageRole, content: MessageContent) -> (r: Self)
        ensures
            r.role == role,
            r.content == content,
    {
        Message { role, content }
    }
}

/// A tool the model may call, as offered in a request.
#[derive(Debug, Clone)]
pub struct FunctionDeclaration {
    pub name: String,
    pub description: String,
    /// The JSON schema of its arguments, as text.
    pub parameters: String,
}

pub open spec fn is_system(m: Message) -> bool {
    m.role == MessageRole::System
}

/// For a model that takes no system message: a leading system message is
/// removed, and where it and the next message are both plain text, its text
/// goes first in the next one, separated by a blank line.
pub open spec fn system_patched(ms: Seq<Message>, r: Seq<Message>) -> bool {
    if ms.len() > 0 && is_system(ms[0]) {
        let rest = ms.drop_first();
        if rest.len() > 0 && ms[0].content is Text && rest[0].content is Text {
            &&& r.len() == rest.len()
            &&& r.drop_first() == rest.drop_first()
            &&& r[0].role == rest[0].role
            &&& r[0].content matches MessageContent::Text(t) && t@ == (ms[0].content->Text_0)@ + "\n\n"@ + (
            rest[0].content->Text_0)@
        } else {
            r == rest
        }
    } else {
        r == ms
    }
}

/// Folds a leading system message into the message after it.
pub fn patch_system_message(messages: Vec<Message>) -> (r: Vec<Message>)
    ensures
        system_patched(messages@, r@),
{
    let mut ms = messages;
    if ms.len() == 0 || !matches!(ms[0].role, MessageRole::System) {
        return ms;
    }
    let sys = ms.remove(0);
    assert(ms@ == messages@.drop_first());
    if ms.len() == 0 {
        return ms;
    }
    let next = ms.remove(0);
    let ghost tail = ms@;
    assert(tail == messages@.drop_first().drop_first());
    let Message { role, content } = next;
    match sys.content {
        MessageContent::Text(s) => match content {
            MessageContent::Text(t) => {
                let mut c = s;
                c.append("\n\n");
                c.append(t.as_str());
                ms.insert(0, Message { role, content: MessageContent::Text(c) });
                assert(ms@.drop_first() =~= tail);
            },
            other => {
                ms.insert(0, Message { role, content: other });
                assert(ms@ =~= messages@.drop_first());
            },
        },
        _ => {
            ms.insert(0, Message { role, content });
            assert(ms@ =~= messages@.drop_first());
        },
    }
    ms
}

} // verus!
