//! The decisions of the command-line program: which agent to run, where
//! its skills and memory live, how a streamed reply is put together, and
//! how long texts are shortened for display.
use vstd::prelude::*;
use crate::config::{AgentConfig, MemoryConfig, SkillsConfig};
use crate::llm::{
    chunk_view, delta_view, finish_view, opt_finish_view, DeltaV, FinishReason, FinishV, StreamChunk, ToolCallDelta,
};
use crate::message::{FunctionCall, ToolCall, ToolCallV, ostr, tcs_view};
use crate::text::{
    byte_prefix, byte_prefix_chars, chars_of, decimal_s, extend_chars, is_boundary, push_decimal, str_byte_len,
    string_of, utf8_len,
};

verus! {

// ---------------------------------------------------------------------------
// Display
// ---------------------------------------------------------------------------

/// A text shortened to `max_len` bytes for display: kept whole when it
/// fits, else its first `max_len - 3` bytes followed by `...`.
pub open spec fn truncate_s(s: Seq<char>, max_len: int) -> Seq<char> {
    if utf8_len(s) <= max_len {
        s
    } else {
        byte_prefix(s, max_len - 3) + "..."@
    }
}

/// Truncate a string to `max_len` bytes, appending `...` if truncated.
pub fn truncate(s: &str, max_len: usize) -> (r: String)
    requires
        utf8_len(s@) > max_len ==> max_len >= 3 && is_boundary(s@, max_len - 3),
    ensures
        r@ == truncate_s(s@, max_len as int),
{
    if str_byte_len(s) <= max_len {
        s.to_owned()
    } else {
        let cs = chars_of(s);
        let mut out = byte_prefix_chars(cs.as_slice(), max_len - 3);
        extend_chars(&mut out, "...");
        string_of(out.as_slice())
    }
}

// ---------------------------------------------------------------------------
// Configuration
// ---------------------------------------------------------------------------

/// The agent to run: the one with the given ID, else the first one.
pub open spec fn agent_choice_s(ids: Seq<Seq<char>>, agent_id: Option<Seq<char>>) -> Option<int> {
    match agent_id {
        Some(id) => if exists|k: int| 0 <= k < ids.len() && ids[k] == id {
            Some(choose|k: int| 0 <= k < ids.len() && ids[k] == id && forall|j: int| 0 <= j < k ==> ids[j] != id)
        } else {
            None
        },
        None => if ids.len() > 0 {
            Some(0)
        } else {
            None
        },
    }
}

/// The IDs of a list of agents.
pub open spec fn agent_ids(agents: Seq<AgentConfig>) -> Seq<Seq<char>> {
    agents.map_values(|a: AgentConfig| a.id@)
}

/// Resolve the agent configuration to use: the agent with ID `agent_id`,
/// or the first agent when none is named.
pub fn resolve_agent_config<'a>(agents: &'a Vec<AgentConfig>, agent_id: Option<&str>) -> (r: Result<
    &'a AgentConfig,
    String,
>)
    ensures
        match agent_choice_s(
            agent_ids(agents@),
            match agent_id {
                Some(id) => Some(id@),
                None => None,
            },
        ) {
            Some(k) => r matches Ok(a) && *a == agents@[k],
            None => r matches Err(m) && m@ == match agent_id {
                Some(id) => "Agent '"@ + id@ + "' not found in configuration"@,
                None => "No agents defined in configuration"@,
            },
        },
{
    let ghost ids = agent_ids(agents@);
    match agent_id {
        Some(id) => {
            let mut i: usize = 0;
            while i < agents.len()
                invariant
                    i <= agents@.len(),
                    ids == agent_ids(agents@),
                    forall|j: int| 0 <= j < i ==> ids[j] != id@,
                    agent_id == Some(id),
                decreases agents.len() - i,
            {
                assert(ids[i as int] == agents@[i as int].id@);
                if crate::text::str_eq(agents[i].id.as_str(), id) {
                    proof {
                        let p = |k: int| 0 <= k < ids.len() && ids[k] == id@ && forall|j: int| 0 <= j < k ==> ids[j] != id@;
                        assert(p(i as int));
                        let k = choose|k: int| 0 <= k < ids.len() && ids[k] == id@ && forall|j: int| 0 <= j < k ==> ids[j] != id@;
                        assert(0 <= k < ids.len() && ids[k] == id@ && forall|j: int| 0 <= j < k ==> ids[j] != id@);
                        if k < i {
                            assert(ids[k] != id@);
                        }
                        if k > i {
                            assert(ids[i as int] != id@);
                        }
                        assert(k == i);
                        assert(agent_choice_s(ids, Some(id@)) == Some(i as int));
                    }
                    return Ok(&agents[i]);
                }
                i = i + 1;
            }
            let mut v: Vec<char> = Vec::new();
            extend_chars(&mut v, "Agent '");
            extend_chars(&mut v, id);
            extend_chars(&mut v, "' not found in configuration");
            Err(string_of(v.as_slice()))
        },
        None => {
            if agents.len() > 0 {
                Ok(&agents[0])
            } else {
                Err("No agents defined in configuration".to_owned())
            }
        },
    }
}

/// Where an agent's skills and memory live, and whether each is enabled.
pub struct AgentDirs {
    /// The skills directory.
    pub skills_dir: String,
    /// Skills are loaded.
    pub skills_enabled: bool,
    /// The memory directory.
    pub memory_dir: String,
    /// Memory is kept.
    pub memory_enabled: bool,
}

/// The agent's own directory when it names one, else the shared one.
pub open spec fn dir_or(own: Option<String>, shared: Seq<char>) -> Seq<char> {
    match own {
        Some(d) => d@,
        None => shared,
    }
}

/// The skills and memory directories of an agent.
pub fn agent_dirs(agent: &AgentConfig, skills: &SkillsConfig, memory: &MemoryConfig) -> (r: AgentDirs)
    ensures
        r.skills_dir@ == dir_or(agent.skills_dir, skills.path@),
        r.skills_enabled == skills.enabled,
        r.memory_dir@ == dir_or(agent.memory_dir, memory.path@),
        r.memory_enabled == memory.enabled,
{
    let skills_dir = match &agent.skills_dir {
        Some(d) => d.clone(),
        None => skills.path.clone(),
    };
    let memory_dir = match &agent.memory_dir {
        Some(d) => d.clone(),
        None => memory.path.clone(),
    };
    AgentDirs { skills_dir, skills_enabled: skills.enabled, memory_dir, memory_enabled: memory.enabled }
}

// ---------------------------------------------------------------------------
// Streamed replies
// ---------------------------------------------------------------------------

/// The parts of one tool call gathered from a stream: `(index, id, name,
/// arguments)`.
pub type PartsV = (u32, Seq<char>, Seq<char>, Seq<char>);

/// The parts of a tool call after one more delta: the latest ID and name
/// win, argument fragments are appended.
pub open spec fn merge_delta(e: PartsV, d: DeltaV) -> PartsV {
    (
        e.0,
        match d.1 {
            Some(x) => x,
            None => e.1,
        },
        match d.2 {
            Some(x) => x,
            None => e.2,
        },
        e.3 + match d.3 {
            Some(x) => x,
            None => Seq::empty(),
        },
    )
}

/// Nothing gathered yet for the call with this index.
pub open spec fn fresh_parts(i: u32) -> PartsV {
    (i, Seq::empty(), Seq::empty(), Seq::empty())
}

/// The gathered calls, in ascending index order, after one more delta.
pub open spec fn add_delta(s: Seq<PartsV>, d: DeltaV) -> Seq<PartsV>
    decreases s.len(),
{
    if s.len() == 0 {
        seq![merge_delta(fresh_parts(d.0), d)]
    } else if s[0].0 == d.0 {
        seq![merge_delta(s[0], d)] + s.drop_first()
    } else if d.0 < s[0].0 {
        seq![merge_delta(fresh_parts(d.0), d)] + s
    } else {
        seq![s[0]] + add_delta(s.drop_first(), d)
    }
}

/// The indices of gathered calls are strictly ascending.
pub open spec fn ascending(s: Seq<PartsV>) -> bool {
    forall|i: int, j: int| 0 <= i < j < s.len() ==> s[i].0 < s[j].0
}

/// The complete calls (with an ID and a name), in order.
pub open spec fn complete_calls(s: Seq<PartsV>) -> Seq<ToolCallV>
    decreases s.len(),
{
    if s.len() == 0 {
        Seq::empty()
    } else {
        complete_calls(s.drop_last()) + if s.last().1.len() > 0 && s.last().2.len() > 0 {
            seq![(s.last().1, s.last().2, s.last().3)]
        } else {
            Seq::empty()
        }
    }
}

/// The parts of one tool call.
pub struct CallParts {
    pub index: u32,
    pub id: String,
    pub name: String,
    pub arguments: String,
}

/// The plain value of the parts of a call.
pub open spec fn parts_view(p: CallParts) -> PartsV {
    (p.index, p.id@, p.name@, p.arguments@)
}

/// Puts a streamed reply together: the text, the tool calls by index, the
/// last finish reason, and the number of bytes of text received.
pub struct StreamCollector {
    content: String,
    parts: Vec<CallParts>,
    finish_reason: Option<FinishReason>,
    char_count: usize,
}

/// The outcome of a stream: its text, its complete tool calls (`None` when
/// no tool call delta came), and its finish reason.
pub struct CollectedStream {
    pub content: String,
    pub tool_calls: Option<Vec<ToolCall>>,
    pub finish_reason: Option<FinishReason>,
}

proof fn lemma_add_delta_at(s: Seq<PartsV>, d: DeltaV, i: int)
    requires
        0 <= i <= s.len(),
        forall|k: int| 0 <= k < i ==> s[k].0 < d.0,
        i < s.len() ==> s[i].0 >= d.0,
    ensures
        add_delta(s, d) == if i < s.len() && s[i].0 == d.0 {
            s.take(i) + seq![merge_delta(s[i], d)] + s.skip(i + 1)
        } else {
            s.take(i) + seq![merge_delta(fresh_parts(d.0), d)] + s.skip(i)
        },
    decreases i,
{
    if i == 0 {
        assert(s.take(0) =~= Seq::<PartsV>::empty());
        if s.len() > 0 && s[0].0 == d.0 {
            assert(s.skip(1) =~= s.drop_first());
            assert(seq![merge_delta(s[0], d)] + s.drop_first() =~= s.take(0) + seq![merge_delta(s[0], d)] + s.skip(
                1,
            ));
        } else {
            assert(s.skip(0) =~= s);
            assert(add_delta(s, d) =~= s.take(0) + seq![merge_delta(fresh_parts(d.0), d)] + s.skip(0));
        }
    } else {
        let t = s.drop_first();
        assert forall|k: int| 0 <= k < i - 1 implies t[k].0 < d.0 by {
            assert(t[k] == s[k + 1]);
        }
        lemma_add_delta_at(t, d, i - 1);
        assert(s[0].0 < d.0);
        if i < s.len() && s[i].0 == d.0 {
            assert(add_delta(s, d) =~= s.take(i) + seq![merge_delta(s[i], d)] + s.skip(i + 1));
        } else {
            assert(add_delta(s, d) =~= s.take(i) + seq![merge_delta(fresh_parts(d.0), d)] + s.skip(i));
        }
    }
}

/// One more delta keeps the indices ascending.
pub proof fn law_add_delta_ascending(s: Seq<PartsV>, d: DeltaV)
    requires
        ascending(s),
    ensures
        ascending(add_delta(s, d)),
        add_delta(s, d).len() >= s.len(),
    decreases s.len(),
{
    if s.len() > 0 && s[0].0 != d.0 && !(d.0 < s[0].0) {
        let t = s.drop_first();
        assert(ascending(t)) by {
            assert forall|i: int, j: int| 0 <= i < j < t.len() implies t[i].0 < t[j].0 by {
                assert(t[i] == s[i + 1] && t[j] == s[j + 1]);
            }
        }
        law_add_delta_ascending(t, d);
        let r = add_delta(t, d);
        assert forall|k: int| 0 <= k < r.len() implies s[0].0 < r[k].0 by {
            lemma_add_delta_members(t, d, k);
        }
        assert(add_delta(s, d) =~= seq![s[0]] + r);
    }
}

proof fn lemma_add_delta_members(s: Seq<PartsV>, d: DeltaV, k: int)
    requires
        0 <= k < add_delta(s, d).len(),
    ensures
        add_delta(s, d)[k].0 == d.0 || exists|j: int| 0 <= j < s.len() && add_delta(s, d)[k].0 == s[j].0,
    decreases s.len(),
{
    if s.len() > 0 && s[0].0 != d.0 && !(d.0 < s[0].0) {
        if k > 0 {
            lemma_add_delta_members(s.drop_first(), d, k - 1);
            let t = s.drop_first();
            if exists|j: int| 0 <= j < t.len() && add_delta(t, d)[k - 1].0 == t[j].0 {
                let j = choose|j: int| 0 <= j < t.len() && add_delta(t, d)[k - 1].0 == t[j].0;
                assert(t[j] == s[j + 1]);
            }
        }
    } else if s.len() > 0 && s[0].0 == d.0 {
        if k > 0 {
            assert(add_delta(s, d)[k] == s[k]);
        }
    } else if s.len() > 0 {
        if k > 0 {
            assert(add_delta(s, d)[k] == s[k - 1]);
        }
    }
}

impl StreamCollector {
    /// The text gathered so far.
    pub closed spec fn content_s(&self) -> Seq<char> {
        self.content@
    }

    /// The tool call parts gathered so far.
    pub closed spec fn parts_s(&self) -> Seq<PartsV> {
        self.parts@.map_values(|p: CallParts| parts_view(p))
    }

    /// The last finish reason seen.
    pub closed spec fn finish_s(&self) -> Option<FinishV> {
        opt_finish_view(self.finish_reason)
    }

    /// Bytes of text received.
    pub closed spec fn count_s(&self) -> usize {
        self.char_count
    }

    /// Nothing received yet.
    pub fn new() -> (r: Self)
        ensures
            r.content_s() == Seq::<char>::empty(),
            r.parts_s() == Seq::<PartsV>::empty(),
            r.finish_s() is None,
            r.count_s() == 0,
    {
        let r = StreamCollector { content: String::new(), parts: Vec::new(), finish_reason: None, char_count: 0 };
        assert(r.parts_s() =~= Seq::<PartsV>::empty());
        r
    }

    /// Bytes of text received.
    pub fn char_count(&self) -> (r: usize)
        ensures
            r == self.count_s(),
    {
        self.char_count
    }

    /// Fold in one tool call delta.
    fn add(&mut self, d: &ToolCallDelta)
        ensures
            final(self).parts_s() == add_delta(old(self).parts_s(), delta_view(*d)),
            final(self).content_s() == old(self).content_s(),
            final(self).finish_s() == old(self).finish_s(),
            final(self).count_s() == old(self).count_s(),
    {
        let ghost s = self.parts_s();
        let mut i: usize = 0;
        while i < self.parts.len() && self.parts[i].index < d.index
            invariant
                i <= self.parts@.len(),
                s == self.parts@.map_values(|p: CallParts| parts_view(p)),
                forall|k: int| 0 <= k < i ==> s[k].0 < d.index,
            decreases self.parts.len() - i,
        {
            assert(s[i as int] == parts_view(self.parts@[i as int]));
            i = i + 1;
        }
        proof {
            if i < self.parts@.len() {
                assert(s[i as int] == parts_view(self.parts@[i as int]));
            }
            lemma_add_delta_at(s, delta_view(*d), i as int);
        }
        let found = i < self.parts.len() && self.parts[i].index == d.index;
        let (id, name, mut arguments, index) = if found {
            (self.parts[i].id.clone(), self.parts[i].name.clone(), self.parts[i].arguments.clone(), self.parts[i].index)
        } else {
            (String::new(), String::new(), String::new(), d.index)
        };
        let id = match &d.id {
            Some(x) => x.clone(),
            None => id,
        };
        let name = match &d.name {
            Some(x) => x.clone(),
            None => name,
        };
        let arguments = match &d.arguments_delta {
            Some(x) => {
                let mut v = chars_of(arguments.as_str());
                extend_chars(&mut v, x.as_str());
                string_of(v.as_slice())
            },
            None => arguments,
        };
        let p = CallParts { index, id, name, arguments };
        let ghost merged = parts_view(p);
        if found {
            assert(merged == merge_delta(s[i as int], delta_view(*d)));
            let ghost before = self.parts@;
            self.parts.set(i, p);
            assert(self.parts_s() =~= s.take(i as int) + seq![merged] + s.skip(i + 1));
        } else {
            assert(merged == merge_delta(fresh_parts(d.index), delta_view(*d)));
            self.parts.insert(i, p);
            assert(self.parts_s() =~= s.take(i as int) + seq![merged] + s.skip(i as int));
        }
    }

    /// Fold in one chunk: its text is appended and counted, its tool call
    /// delta gathered, and its finish reason, when it has one, kept.
    pub fn push(&mut self, chunk: &StreamChunk)
        requires
            old(self).count_s() + utf8_len(chunk.delta@) <= usize::MAX,
        ensures
            final(self).content_s() == old(self).content_s() + chunk.delta@,
            final(self).count_s() == old(self).count_s() + utf8_len(chunk.delta@),
            final(self).parts_s() == match chunk.tool_call_delta {
                Some(d) => add_delta(old(self).parts_s(), delta_view(d)),
                None => old(self).parts_s(),
            },
            final(self).finish_s() == match chunk.finish_reason {
                Some(f) => Some(finish_view(f)),
                None => old(self).finish_s(),
            },
    {
        let n = str_byte_len(chunk.delta.as_str());
        if n > 0 {
            let mut v = chars_of(self.content.as_str());
            extend_chars(&mut v, chunk.delta.as_str());
            self.content = string_of(v.as_slice());
            self.char_count = self.char_count + n;
        } else {
            assert(chunk.delta@ =~= Seq::<char>::empty()) by {
                crate::text::lemma_utf8_len_ge_len(chunk.delta@);
            }
            assert(self.content@ + chunk.delta@ =~= self.content@);
        }
        if let Some(d) = &chunk.tool_call_delta {
            self.add(d);
        }
        if let Some(f) = &chunk.finish_reason {
            self.finish_reason = Some(f.copy());
        }
    }

    /// The text, the complete tool calls in index order (`None` when no tool
    /// call delta came), and the finish reason.
    pub fn finish(&self) -> (r: CollectedStream)
        ensures
            r.content@ == self.content_s(),
            match r.tool_calls {
                None => self.parts_s().len() == 0,
                Some(v) => self.parts_s().len() > 0 && tcs_view(v@) == complete_calls(self.parts_s()),
            },
            opt_finish_view(r.finish_reason) == self.finish_s(),
    {
        let tool_calls = if self.parts.len() == 0 {
            None
        } else {
            let mut out: Vec<ToolCall> = Vec::new();
            let mut i: usize = 0;
            let ghost s = self.parts_s();
            while i < self.parts.len()
                invariant
                    i <= self.parts@.len(),
                    s == self.parts@.map_values(|p: CallParts| parts_view(p)),
                    tcs_view(out@) == complete_calls(s.take(i as int)),
                decreases self.parts.len() - i,
            {
                let p = &self.parts[i];
                proof {
                    assert(s.take(i + 1).drop_last() =~= s.take(i as int));
                    assert(s.take(i + 1).last() == parts_view(*p));
                }
                let ghost prev = out@;
                if p.id.as_str().is_empty() || p.name.as_str().is_empty() {
                    assert(tcs_view(out@) =~= complete_calls(s.take(i + 1)));
                } else {
                    out.push(
                        ToolCall {
                            id: p.id.clone(),
                            function: FunctionCall { name: p.name.clone(), arguments: p.arguments.clone() },
                        },
                    );
                    assert(tcs_view(out@) =~= tcs_view(prev) + seq![(p.id@, p.name@, p.arguments@)]);
                }
                i = i + 1;
            }
            assert(s.take(s.len() as int) =~= s);
            Some(out)
        };
        let finish_reason = match &self.finish_reason {
            Some(f) => Some(f.copy()),
            None => None,
        };
        CollectedStream { content: self.content.clone(), tool_calls, finish_reason }
    }

    /// The line printed after a streamed reply: its size in bytes and a
    /// rough token estimate of a quarter of that.
    pub fn summary_line(&self) -> (r: String)
        ensures
            r@ == "  ["@ + decimal_s(self.count_s() as nat) + " chars, ~"@ + decimal_s((self.count_s() / 4) as nat)
                + " tokens]\n"@,
    {
        let mut v: Vec<char> = Vec::new();
        extend_chars(&mut v, "  [");
        push_decimal(&mut v, self.char_count as u64);
        extend_chars(&mut v, " chars, ~");
        push_decimal(&mut v, (self.char_count / 4) as u64);
        extend_chars(&mut v, " tokens]\n");
        string_of(v.as_slice())
    }
}

} // verus!
