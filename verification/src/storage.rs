//! How sessions are laid out in the session database: the stored name of a
//! role, the JSON column that holds a message's tool calls, and the values
//! of a message row.  Running the SQL happens outside the library.
use vstd::prelude::*;
use crate::error::McError;
use crate::json::{
    Json, JsonV, jv, jget, jfield, jstr, json_parsed, json_text, json_to_string, parse_json, make_object, make_array,
    push_entry, push_elem, str_json, elems_view, entries_view, field, str_of,
};
use crate::message::{FunctionCall, Message, MessageV, Role, ToolCall, ToolCallV, ostr, tc_view, tcs_view};
use crate::text::{chars_of, extend_chars, str_eq, string_of};

verus! {

/// The name under which a role is stored.
pub open spec fn role_str_s(r: Role) -> Seq<char> {
    match r {
        Role::System => "system"@,
        Role::User => "user"@,
        Role::Assistant => "assistant"@,
        Role::Tool => "tool"@,
    }
}

/// The role a stored name denotes; an unknown name reads as `User`.
pub open spec fn str_role_s(s: Seq<char>) -> Role {
    if s == "system"@ {
        Role::System
    } else if s == "user"@ {
        Role::User
    } else if s == "assistant"@ {
        Role::Assistant
    } else if s == "tool"@ {
        Role::Tool
    } else {
        Role::User
    }
}

/// Convert a role to its storage string.
pub fn role_to_str(role: Role) -> (r: &'static str)
    ensures
        r@ == role_str_s(role),
{
    match role {
        Role::System => "system",
        Role::User => "user",
        Role::Assistant => "assistant",
        Role::Tool => "tool",
    }
}

/// Convert a storage string back to a role (`User` for an unknown name).
pub fn str_to_role(s: &str) -> (r: Role)
    ensures
        r == str_role_s(s@),
{
    if str_eq(s, "system") {
        Role::System
    } else if str_eq(s, "user") {
        Role::User
    } else if str_eq(s, "assistant") {
        Role::Assistant
    } else if str_eq(s, "tool") {
        Role::Tool
    } else {
        Role::User
    }
}

/// A tool call as stored: `{"id": .., "function": {"name": .., "arguments": ..}}`.
pub open spec fn stored_call_s(t: ToolCallV) -> JsonV {
    JsonV::Object(
        seq![
            ("id"@, JsonV::Str(t.0)),
            ("function"@, JsonV::Object(seq![("name"@, JsonV::Str(t.1)), ("arguments"@, JsonV::Str(t.2))])),
        ],
    )
}

/// A list of tool calls as stored: an array of stored calls.
pub open spec fn stored_calls_s(ts: Seq<ToolCallV>) -> JsonV {
    JsonV::Array(ts.map_values(|t: ToolCallV| stored_call_s(t)))
}

/// The tool call a stored value denotes, when it has a string `id` and a
/// `function` object with string `name` and `arguments`.
pub open spec fn read_call_s(v: JsonV) -> Option<ToolCallV> {
    let f = jget(v, "function"@);
    match (jstr(jget(v, "id"@)), jstr(jfield(f, "name"@)), jstr(jfield(f, "arguments"@))) {
        (Some(id), Some(n), Some(a)) => Some((id, n, a)),
        _ => None,
    }
}

/// The tool calls a stored value denotes: an array whose every element is
/// a well-formed call; `None` as soon as one is not.
pub open spec fn read_calls_s(v: JsonV) -> Option<Seq<ToolCallV>> {
    match v {
        JsonV::Array(a) => if forall|i: int| 0 <= i < a.len() ==> (#[trigger] read_call_s(a[i])) is Some {
            Some(a.map_values(|e: JsonV| read_call_s(e)->Some_0))
        } else {
            None
        },
        _ => None,
    }
}

/// A tool call as a stored JSON value.
fn stored_call(t: &ToolCall) -> (r: Json)
    ensures
        r@ == stored_call_s(tc_view(*t)),
{
    let mut f: Vec<(String, Json)> = Vec::new();
    assert(entries_view(f@) =~= seq![]);
    push_entry(&mut f, "name", str_json(t.function.name.as_str()));
    push_entry(&mut f, "arguments", str_json(t.function.arguments.as_str()));
    assert(entries_view(f@) =~= seq![("name"@, JsonV::Str(t.function.name@)), ("arguments"@, JsonV::Str(t.function.arguments@))]);
    let fj = make_object(f);
    let mut o: Vec<(String, Json)> = Vec::new();
    assert(entries_view(o@) =~= seq![]);
    push_entry(&mut o, "id", str_json(t.id.as_str()));
    push_entry(&mut o, "function", fj);
    assert(entries_view(o@) =~= stored_call_s(tc_view(*t))->Object_0);
    make_object(o)
}

/// The stored JSON value of a list of tool calls.
pub fn tool_calls_to_json(calls: &Vec<ToolCall>) -> (r: Json)
    ensures
        r@ == stored_calls_s(tcs_view(calls@)),
{
    let mut v: Vec<Json> = Vec::new();
    let mut i: usize = 0;
    while i < calls.len()
        invariant
            i <= calls@.len(),
            elems_view(v@) == tcs_view(calls@.take(i as int)).map_values(|t: ToolCallV| stored_call_s(t)),
        decreases calls.len() - i,
    {
        push_elem(&mut v, stored_call(&calls[i]));
        assert(tcs_view(calls@.take(i + 1)) =~= tcs_view(calls@.take(i as int)).push(tc_view(calls@[i as int])));
        assert(elems_view(v@) =~= tcs_view(calls@.take(i + 1)).map_values(|t: ToolCallV| stored_call_s(t)));
        i = i + 1;
    }
    assert(calls@.take(calls@.len() as int) =~= calls@);
    make_array(v)
}

/// The text of the `tool_calls_json` column of a message with tool calls.
pub fn encode_tool_calls(calls: &Vec<ToolCall>) -> (r: String)
    ensures
        r@ == json_text(stored_calls_s(tcs_view(calls@))),
{
    json_to_string(&tool_calls_to_json(calls))
}

/// The tool calls a stored JSON value holds, when it holds a list of them.
pub fn tool_calls_from_json(j: &Json) -> (r: Option<Vec<ToolCall>>)
    ensures
        match r {
            Some(v) => read_calls_s(j@) == Some(tcs_view(v@)),
            None => read_calls_s(j@) is None,
        },
{
    let arr = match j.as_array() {
        Some(a) => a,
        None => return None,
    };
    let ghost a = j@->Array_0;
    let mut out: Vec<ToolCall> = Vec::new();
    let mut i: usize = 0;
    while i < arr.len()
        invariant
            i <= arr@.len(),
            a.len() == arr@.len(),
            forall|k: int| 0 <= k < arr@.len() ==> jv(#[trigger] arr@[k]) == a[k],
            j@ == JsonV::Array(a),
            out@.len() == i,
            forall|k: int| 0 <= k < i ==> (#[trigger] read_call_s(a[k])) == Some(tc_view(out@[k])),
        decreases arr.len() - i,
    {
        let tc = &arr[i];
        assert(jv(*tc) == a[i as int]);
        let f = tc.get("function");
        let id = str_of(tc.get("id"));
        let name = str_of(field(f, "name"));
        let args = str_of(field(f, "arguments"));
        match (id, name, args) {
            (Some(id), Some(name), Some(args)) => {
                out.push(ToolCall {
                    id: id.to_owned(),
                    function: FunctionCall { name: name.to_owned(), arguments: args.to_owned() },
                });
            },
            _ => {
                assert(read_call_s(a[i as int]) is None);
                return None;
            },
        }
        i = i + 1;
    }
    assert(tcs_view(out@) =~= a.map_values(|e: JsonV| read_call_s(e)->Some_0));
    Some(out)
}

/// The tool calls of a stored `tool_calls_json` text: `None` when the text
/// is not JSON or not a list of tool calls.
pub fn decode_tool_calls(text: &str) -> (r: Option<Vec<ToolCall>>)
    ensures
        match r {
            Some(v) => json_parsed(text@) matches Some(j) && read_calls_s(j) == Some(tcs_view(v@)),
            None => match json_parsed(text@) {
                Some(j) => read_calls_s(j) is None,
                None => true,
            },
        },
{
    match parse_json(text) {
        Ok(j) => tool_calls_from_json(&j),
        Err(_) => None,
    }
}

/// The message a stored row denotes.
pub fn message_from_row(
    role: &str,
    content: Option<String>,
    tool_calls_json: Option<String>,
    tool_call_id: Option<String>,
    name: Option<String>,
) -> (r: Message)
    ensures
        r.role == str_role_s(role@),
        ostr(r.content) == ostr(content),
        ostr(r.tool_call_id) == ostr(tool_call_id),
        ostr(r.name) == ostr(name),
        match tool_calls_json {
            None => r.tool_calls is None,
            Some(t) => match r.tool_calls {
                Some(v) => json_parsed(t@) matches Some(j) && read_calls_s(j) == Some(tcs_view(v@)),
                None => match json_parsed(t@) {
                    Some(j) => read_calls_s(j) is None,
                    None => true,
                },
            },
        },
{
    let tool_calls = match &tool_calls_json {
        Some(t) => decode_tool_calls(t.as_str()),
        None => None,
    };
    Message { role: str_to_role(role), content, tool_calls, tool_call_id, name }
}

/// The values of a message's row: role name, content, tool calls as JSON
/// text, tool call id and name.
pub struct MessageRow {
    pub role: &'static str,
    pub content: Option<String>,
    pub tool_calls_json: Option<String>,
    pub tool_call_id: Option<String>,
    pub name: Option<String>,
}

/// The row that stores a message.
pub fn message_row(msg: &Message) -> (r: MessageRow)
    ensures
        r.role@ == role_str_s(msg.role),
        ostr(r.content) == ostr(msg.content),
        ostr(r.tool_call_id) == ostr(msg.tool_call_id),
        ostr(r.name) == ostr(msg.name),
        match msg.tool_calls {
            Some(v) => r.tool_calls_json matches Some(t) && t@ == json_text(stored_calls_s(tcs_view(v@))),
            None => r.tool_calls_json is None,
        },
{
    MessageRow {
        role: role_to_str(msg.role),
        content: crate::message::copy_opt(&msg.content),
        tool_calls_json: match &msg.tool_calls {
            Some(v) => Some(encode_tool_calls(v)),
            None => None,
        },
        tool_call_id: crate::message::copy_opt(&msg.tool_call_id),
        name: crate::message::copy_opt(&msg.name),
    }
}

/// The index of the `offset`-th appended message after the largest stored
/// index `max_idx` (`-1` when the session has no message).
pub fn appended_index(max_idx: i64, offset: usize) -> (r: i64)
    requires
        max_idx >= -1,
        max_idx + 1 + offset <= i64::MAX,
    ensures
        r == max_idx + 1 + offset,
{
    max_idx + 1 + offset as i64
}

/// The error for a session that does not exist.
pub fn session_not_found(id: &str) -> (r: McError)
    ensures
        r matches McError::Storage(m) && m@ == "session not found: "@ + id@,
{
    let mut v: Vec<char> = Vec::new();
    extend_chars(&mut v, "session not found: ");
    extend_chars(&mut v, id);
    McError::Storage(string_of(v.as_slice()))
}

} // verus!
