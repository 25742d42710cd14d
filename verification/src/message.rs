//! The message model: roles, messages, tool calls and tool definitions
//! (OpenAI-compatible), and the kinds of messaging channel.
use vstd::prelude::*;
use crate::json::Json;

verus! {

/// The role of a message participant.
#[derive(Debug, Clone, Copy, PartialEq, Eq, Structural)]
pub enum Role {
    /// System-level instruction or context.
    System,
    /// Human user input.
    User,
    /// AI assistant response.
    Assistant,
    /// Tool execution result.
    Tool,
}

/// The function invocation details within a tool call.
#[derive(Debug, Clone)]
pub struct FunctionCall {
    /// Name of the function to call.
    pub name: String,
    /// JSON-encoded arguments to pass to the function.
    pub arguments: String,
}

/// A request from the assistant to call a tool.
#[derive(Debug, Clone)]
pub struct ToolCall {
    /// Unique identifier for this tool call.
    pub id: String,
    /// The function to invoke.
    pub function: FunctionCall,
}

/// A single message in a conversation.
#[derive(Debug, Clone)]
pub struct Message {
    /// The role of the message sender.
    pub role: Role,
    /// The text content of the message.
    pub content: Option<String>,
    /// Tool calls requested by the assistant (when role is Assistant).
    pub tool_calls: Option<Vec<ToolCall>>,
    /// The tool call ID this message is responding to (when role is Tool).
    pub tool_call_id: Option<String>,
    /// Optional name for the sender (used for tool results).
    pub name: Option<String>,
}

/// A tool call as plain text: `(id, function name, arguments)`.
pub type ToolCallV = (Seq<char>, Seq<char>, Seq<char>);

/// The content of a message.
pub struct MessageV {
    pub role: Role,
    pub content: Option<Seq<char>>,
    pub tool_calls: Option<Seq<ToolCallV>>,
    pub tool_call_id: Option<Seq<char>>,
    pub name: Option<Seq<char>>,
}

/// The text of an optional string.
pub open spec fn ostr(o: Option<String>) -> Option<Seq<char>> {
    match o {
        Some(s) => Some(s@),
        None => None,
    }
}

/// A tool call as plain text.
pub open spec fn tc_view(t: ToolCall) -> ToolCallV {
    (t.id@, t.function.name@, t.function.arguments@)
}

/// A list of tool calls as plain text.
pub open spec fn tcs_view(v: Seq<ToolCall>) -> Seq<ToolCallV> {
    v.map_values(|t: ToolCall| tc_view(t))
}

impl View for Message {
    type V = MessageV;

    open spec fn view(&self) -> MessageV {
        MessageV {
            role: self.role,
            content: ostr(self.content),
            tool_calls: match self.tool_calls {
                Some(v) => Some(tcs_view(v@)),
                None => None,
            },
            tool_call_id: ostr(self.tool_call_id),
            name: ostr(self.name),
        }
    }
}

/// A message with the given role and content and nothing else.
pub open spec fn plain_message(role: Role, content: Seq<char>) -> MessageV {
    MessageV { role, content: Some(content), tool_calls: None, tool_call_id: None, name: None }
}

/// The views of a list of messages.
pub open spec fn msgs_view(v: Seq<Message>) -> Seq<MessageV> {
    v.map_values(|m: Message| m@)
}

/// A copy of an optional string.
pub fn copy_opt(o: &Option<String>) -> (r: Option<String>)
    ensures
        ostr(r) == ostr(*o),
{
    match o {
        Some(s) => Some(s.clone()),
        None => None,
    }
}

impl ToolCall {
    /// A copy of the tool call.
    pub fn copy(&self) -> (r: ToolCall)
        ensures
            tc_view(r) == tc_view(*self),
    {
        ToolCall {
            id: self.id.clone(),
            function: FunctionCall { name: self.function.name.clone(), arguments: self.function.arguments.clone() },
        }
    }
}

/// A copy of a list of tool calls.
pub fn copy_tool_calls(v: &Vec<ToolCall>) -> (r: Vec<ToolCall>)
    ensures
        tcs_view(r@) == tcs_view(v@),
{
    let mut out: Vec<ToolCall> = Vec::new();
    let mut i: usize = 0;
    while i < v.len()
        invariant
            i <= v@.len(),
            out@.len() == i,
            forall|k: int| 0 <= k < i ==> tc_view(#[trigger] out@[k]) == tc_view(v@[k]),
        decreases v.len() - i,
    {
        out.push(v[i].copy());
        i = i + 1;
    }
    assert(tcs_view(out@) =~= tcs_view(v@));
    out
}

impl Message {
    /// Create a new system message.
    pub fn system(content: &str) -> (r: Self)
        ensures
            r@ == plain_message(Role::System, content@),
    {
        Message { role: Role::System, content: Some(content.to_owned()), tool_calls: None, tool_call_id: None, name: None }
    }

    /// Create a new user message.
    pub fn user(content: &str) -> (r: Self)
        ensures
            r@ == plain_message(Role::User, content@),
    {
        Message { role: Role::User, content: Some(content.to_owned()), tool_calls: None, tool_call_id: None, name: None }
    }

    /// Create a new assistant message.
    pub fn assistant(content: &str) -> (r: Self)
        ensures
            r@ == plain_message(Role::Assistant, content@),
    {
        Message {
            role: Role::Assistant,
            content: Some(content.to_owned()),
            tool_calls: None,
            tool_call_id: None,
            name: None,
        }
    }

    /// Create a new tool result message.
    pub fn tool(tool_call_id: &str, content: &str) -> (r: Self)
        ensures
            r@ == (MessageV {
                role: Role::Tool,
                content: Some(content@),
                tool_calls: None,
                tool_call_id: Some(tool_call_id@),
                name: None,
            }),
    {
        Message {
            role: Role::Tool,
            content: Some(content.to_owned()),
            tool_calls: None,
            tool_call_id: Some(tool_call_id.to_owned()),
            name: None,
        }
    }

    /// A copy of the message.
    pub fn copy(&self) -> (r: Message)
        ensures
            r@ == self@,
    {
        let tool_calls = match &self.tool_calls {
            Some(v) => Some(copy_tool_calls(v)),
            None => None,
        };
        Message {
            role: self.role,
            content: copy_opt(&self.content),
            tool_calls,
            tool_call_id: copy_opt(&self.tool_call_id),
            name: copy_opt(&self.name),
        }
    }
}

/// A copy of a range of a list of messages.
pub fn copy_messages(v: &Vec<Message>, from: usize, to: usize) -> (r: Vec<Message>)
    requires
        from <= to <= v@.len(),
    ensures
        msgs_view(r@) == msgs_view(v@.subrange(from as int, to as int)),
{
    let mut out: Vec<Message> = Vec::new();
    let mut i: usize = from;
    while i < to
        invariant
            from <= i <= to,
            to <= v@.len(),
            out@.len() == i - from,
            forall|k: int| 0 <= k < i - from ==> (#[trigger] out@[k])@ == v@[from + k]@,
        decreases to - i,
    {
        out.push(v[i].copy());
        i = i + 1;
    }
    assert(msgs_view(out@) =~= msgs_view(v@.subrange(from as int, to as int)));
    out
}

/// Definition of a tool available to the LLM: name, description and the
/// JSON Schema of its parameters.
#[derive(Debug)]
pub struct ToolDefinition {
    /// Unique name of the tool.
    pub name: String,
    /// Human-readable description of what the tool does.
    pub description: String,
    /// JSON Schema describing the tool's parameters.
    pub parameters: Json,
}

/// Identifies the type of messaging channel.
#[derive(Debug, Clone, Copy, PartialEq, Eq, Hash, Structural)]
pub enum ChannelKind {
    /// Feishu / Lark
    Feishu,
    /// WeChat Work
    WeChat,
    /// QQ
    QQ,
}

/// The lowercase name of a channel kind.
pub open spec fn channel_kind_name(k: ChannelKind) -> Seq<char> {
    match k {
        ChannelKind::Feishu => "feishu"@,
        ChannelKind::WeChat => "wechat"@,
        ChannelKind::QQ => "qq"@,
    }
}

impl ChannelKind {
    /// The lowercase name of the kind (how it is displayed and serialized).
    pub fn as_str(&self) -> (r: &'static str)
        ensures
            r@ == channel_kind_name(*self),
    {
        match self {
            ChannelKind::Feishu => "feishu",
            ChannelKind::WeChat => "wechat",
            ChannelKind::QQ => "qq",
        }
    }

    /// The lowercase name of the kind as an owned string.
    pub fn to_string(&self) -> (r: String)
        ensures
            r@ == channel_kind_name(*self),
    {
        self.as_str().to_owned()
    }
}

} // verus!
