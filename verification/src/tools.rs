//! The built-in tools: argument handling, the memory tool's operations on
//! a [`MemoryStore`], size limits, output formatting and the tool
//! definitions the LLM sees.  Process spawning and directory walks are done
//! by the caller, which hands their results in.
use vstd::prelude::*;
use crate::error::McError;
use crate::json::{Json, JsonV, jv, jget, jstr, ju64, opt_jv, str_of, u64_of, entries_view, elems_view, make_object, make_array, push_entry, push_elem, str_json};
use crate::memory::{MemoryFile, MemoryStore, append_text_s, replace_section_s, other_file};
use crate::message::ToolDefinition;
use crate::security::{SecurityConfig, is_tool_error, first_pattern_s};
use crate::text::{
    chars_of, extend_chars, extend_range, string_of, str_eq, push_decimal, decimal_s, utf8_len,
    str_byte_len, lines_s, lines_of, contains_s, contains_chars, join_s, sort_strings, strs_view,
    sorted_strs, str_lower, push_str,
};

verus! {

/// Maximum size of a single content payload (1 MiB).
pub const MAX_CONTENT_SIZE: usize = 1048576;

/// Maximum total file size for memory files (10 MiB).
pub const MAX_FILE_SIZE: usize = 10485760;

// ───────────────────────────── helpers ─────────────────────────────

/// The upper-case form of a character (`char::to_uppercase`), which may be
/// several characters.
pub uninterp spec fn char_upper(c: char) -> Seq<char>;

/// Upper-case a character (`char::to_uppercase`, collected to a string).
#[verifier::external_body]
fn upper_char(c: char) -> (r: String)
    ensures
        r@ == char_upper(c),
{
    c.to_uppercase().to_string()
}

/// The text with its first character upper-cased.
pub open spec fn capitalize_s(s: Seq<char>) -> Seq<char> {
    if s.len() == 0 {
        Seq::empty()
    } else {
        char_upper(s[0]) + s.skip(1)
    }
}

/// Capitalize the first character of a string.
pub fn capitalize(s: &str) -> (r: String)
    ensures
        r@ == capitalize_s(s@),
{
    let v = chars_of(s);
    if v.len() == 0 {
        return String::new();
    }
    let mut out = upper_char(v[0]);
    let mut rest: Vec<char> = Vec::new();
    extend_range(&mut rest, v.as_slice(), 1, v.len());
    assert(rest@ =~= s@.skip(1));
    let r = string_of(rest.as_slice());
    push_str(&mut out, r.as_str());
    out
}

/// The decimal text of a byte count.
fn push_count(v: &mut Vec<char>, n: usize)
    ensures
        final(v)@ == old(v)@ + decimal_s(n as nat),
{
    push_decimal(v, n as u64);
}

/// The error for an over-long content payload.
pub open spec fn content_size_error_s(len: nat) -> Seq<char> {
    "content exceeds maximum size ("@ + decimal_s(len) + " bytes > 1048576 bytes limit)"@
}

/// Validate that content does not exceed the single-write limit.
pub fn check_content_size(content: &str) -> (r: Result<(), McError>)
    ensures
        utf8_len(content@) > MAX_CONTENT_SIZE ==> (r matches Err(e) && is_tool_error(e, content_size_error_s(utf8_len(content@)))),
        utf8_len(content@) <= MAX_CONTENT_SIZE ==> r is Ok,
{
    let n = str_byte_len(content);
    if n > MAX_CONTENT_SIZE {
        let mut m: Vec<char> = Vec::new();
        extend_chars(&mut m, "content exceeds maximum size (");
        push_count(&mut m, n);
        extend_chars(&mut m, " bytes > 1048576 bytes limit)");
        return Err(McError::Tool(string_of(m.as_slice())));
    }
    Ok(())
}

/// The error for an append that would make a memory file too large.
pub open spec fn file_size_error_s(total: nat) -> Seq<char> {
    "memory file would exceed maximum size after append ("@ + decimal_s(total) + " bytes > 10485760 bytes limit)"@
}

/// Validate that appending `content` won't push the file over the total limit.
pub fn check_file_size_after_append(store: &MemoryStore, file: MemoryFile, content: &str) -> (r: Result<(), McError>)
    ensures
        ({
            let total = utf8_len(store.contents(file)) + utf8_len(content@);
            &&& total > MAX_FILE_SIZE ==> (r matches Err(e) && is_tool_error(e, file_size_error_s(total)))
            &&& total <= MAX_FILE_SIZE ==> r is Ok
        }),
{
    let existing = store.read_file(file);
    let a = str_byte_len(existing.as_str());
    let b = str_byte_len(content);
    let total: u128 = a as u128 + b as u128;
    if total > MAX_FILE_SIZE as u128 {
        let mut m: Vec<char> = Vec::new();
        extend_chars(&mut m, "memory file would exceed maximum size after append (");
        crate::text::push_decimal_wide(&mut m, total);
        extend_chars(&mut m, " bytes > 10485760 bytes limit)");
        return Err(McError::Tool(string_of(m.as_slice())));
    }
    Ok(())
}

// ───────────────────────────── the memory tool ─────────────────────────────

/// The memory file a `file` argument names.
pub open spec fn memory_file_s(f: Seq<char>) -> Option<MemoryFile> {
    if f == "agent"@ {
        Some(MemoryFile::Agent)
    } else if f == "user"@ {
        Some(MemoryFile::User)
    } else {
        None
    }
}

/// A string argument of a tool call.
pub open spec fn arg_s(args: JsonV, k: Seq<char>) -> Option<Seq<char>> {
    jstr(jget(args, k))
}

/// The contents of both memory files.
pub type Contents = (Seq<char>, Seq<char>);

/// The contents of one file.
pub open spec fn file_contents(c: Contents, f: MemoryFile) -> Seq<char> {
    match f {
        MemoryFile::Agent => c.0,
        MemoryFile::User => c.1,
    }
}

/// The contents with one file replaced.
pub open spec fn with_file(c: Contents, f: MemoryFile, t: Seq<char>) -> Contents {
    match f {
        MemoryFile::Agent => (t, c.1),
        MemoryFile::User => (c.0, t),
    }
}

/// What a memory tool call answers (`Ok` text or error message) and the
/// file contents it leaves.
pub open spec fn memory_op_s(args: JsonV, c: Contents) -> (Result<Seq<char>, Seq<char>>, Contents) {
    match arg_s(args, "operation"@) {
        None => (Err("missing required field 'operation'"@), c),
        Some(op) => match arg_s(args, "file"@) {
            None => (Err("missing required field 'file'"@), c),
            Some(fname) => match memory_file_s(fname) {
                None => (Err("invalid file '"@ + fname + "', must be 'agent' or 'user'"@), c),
                Some(f) => {
                    let cur = file_contents(c, f);
                    if op == "read"@ {
                        if cur.len() == 0 {
                            (Ok(capitalize_s(fname) + " memory is empty."@), c)
                        } else {
                            (Ok(cur), c)
                        }
                    } else if op == "write"@ {
                        match arg_s(args, "content"@) {
                            None => (Err("write requires 'content' field"@), c),
                            Some(t) => if utf8_len(t) > MAX_CONTENT_SIZE {
                                (Err(content_size_error_s(utf8_len(t))), c)
                            } else {
                                (
                                    Ok(capitalize_s(fname) + " memory updated ("@ + decimal_s(utf8_len(t)) + " bytes)."@),
                                    with_file(c, f, t),
                                )
                            },
                        }
                    } else if op == "append"@ {
                        match arg_s(args, "content"@) {
                            None => (Err("append requires 'content' field"@), c),
                            Some(t) => if utf8_len(t) > MAX_CONTENT_SIZE {
                                (Err(content_size_error_s(utf8_len(t))), c)
                            } else if utf8_len(cur) + utf8_len(t) > MAX_FILE_SIZE {
                                (Err(file_size_error_s(utf8_len(cur) + utf8_len(t))), c)
                            } else {
                                (
                                    Ok("Appended to "@ + fname + " memory ("@ + decimal_s(utf8_len(t)) + " bytes)."@),
                                    with_file(c, f, append_text_s(cur, t)),
                                )
                            },
                        }
                    } else if op == "update_section"@ {
                        match arg_s(args, "heading"@) {
                            None => (Err("update_section requires 'heading' field"@), c),
                            Some(h) => match arg_s(args, "content"@) {
                                None => (Err("update_section requires 'content' field"@), c),
                                Some(t) => if utf8_len(t) > MAX_CONTENT_SIZE {
                                    (Err(content_size_error_s(utf8_len(t))), c)
                                } else {
                                    match replace_section_s(cur, h, t) {
                                        Some(n) => (
                                            Ok("Section '## "@ + h + "' in "@ + fname + " memory updated."@),
                                            with_file(c, f, n),
                                        ),
                                        None => (
                                            Ok("Section '## "@ + h + "' not found in "@ + fname + " memory. No changes made."@),
                                            c,
                                        ),
                                    }
                                },
                            },
                        }
                    } else {
                        (Err("unknown memory operation '"@ + op + "', expected: read, write, append, update_section"@), c)
                    }
                },
            },
        },
    }
}

/// Tool that exposes memory CRUD operations to the LLM: `read`, `write`,
/// `append` and `update_section` on MEMORY.md (`agent`) or USER.md (`user`).
#[derive(Debug)]
pub struct MemoryTool {
    store: MemoryStore,
}

/// The contents of both files of a store.
pub open spec fn store_contents(s: MemoryStore) -> Contents {
    (s.contents(MemoryFile::Agent), s.contents(MemoryFile::User))
}

impl MemoryTool {
    /// Create a new `MemoryTool` over the given store.
    pub fn new(store: MemoryStore) -> (r: Self)
        ensures
            r.store_s() == store,
    {
        MemoryTool { store }
    }

    /// The store the tool works on.
    pub closed spec fn store_s(&self) -> MemoryStore {
        self.store
    }

    /// The store the tool works on.
    pub fn store(&self) -> (r: &MemoryStore)
        ensures
            *r == self.store_s(),
    {
        &self.store
    }

    /// Run one memory operation.
    pub fn execute(&mut self, args: &Json) -> (r: Result<String, McError>)
        ensures
            ({
                let (res, c) = memory_op_s(args@, store_contents(old(self).store_s()));
                &&& store_contents(final(self).store_s()) == c
                &&& final(self).store_s().base_path_s() == old(self).store_s().base_path_s()
                &&& match res {
                    Ok(t) => r matches Ok(s) && s@ == t,
                    Err(m) => r matches Err(e) && is_tool_error(e, m),
                }
            }),
    {
        let operation = match str_of(args.get("operation")) {
            Some(o) => o,
            None => {
                return Err(McError::Tool("missing required field 'operation'".to_owned()));
            },
        };
        let file_str = match str_of(args.get("file")) {
            Some(f) => f,
            None => {
                return Err(McError::Tool("missing required field 'file'".to_owned()));
            },
        };
        proof {
            reveal_strlit("agent");
            reveal_strlit("user");
        }
        let file = if str_eq(file_str, "agent") {
            MemoryFile::Agent
        } else if str_eq(file_str, "user") {
            MemoryFile::User
        } else {
            let mut m: Vec<char> = Vec::new();
            extend_chars(&mut m, "invalid file '");
            extend_chars(&mut m, file_str);
            extend_chars(&mut m, "', must be 'agent' or 'user'");
            return Err(McError::Tool(string_of(m.as_slice())));
        };
        let ghost c0 = store_contents(self.store);
        let ghost fname = file_str@;
        assert(memory_file_s(fname) == Some(file));
        if str_eq(operation, "read") {
            let content = self.store.read_file(file);
            if content.as_str().is_empty() {
                let mut out = capitalize(file_str);
                push_str(&mut out, " memory is empty.");
                return Ok(out);
            }
            return Ok(content);
        }
        if str_eq(operation, "write") {
            let content = match str_of(args.get("content")) {
                Some(t) => t,
                None => {
                    return Err(McError::Tool("write requires 'content' field".to_owned()));
                },
            };
            check_content_size(content)?;
            self.store.write_file(file, content);
            let mut m: Vec<char> = Vec::new();
            let cap = capitalize(file_str);
            extend_chars(&mut m, cap.as_str());
            extend_chars(&mut m, " memory updated (");
            push_count(&mut m, str_byte_len(content));
            extend_chars(&mut m, " bytes).");
            proof {
                match file {
                    MemoryFile::Agent => assert(store_contents(self.store) == with_file(c0, file, content@)),
                    MemoryFile::User => assert(store_contents(self.store) == with_file(c0, file, content@)),
                }
            }
            return Ok(string_of(m.as_slice()));
        }
        if str_eq(operation, "append") {
            let content = match str_of(args.get("content")) {
                Some(t) => t,
                None => {
                    return Err(McError::Tool("append requires 'content' field".to_owned()));
                },
            };
            check_content_size(content)?;
            check_file_size_after_append(&self.store, file, content)?;
            self.store.append_file(file, content);
            let mut m: Vec<char> = Vec::new();
            extend_chars(&mut m, "Appended to ");
            extend_chars(&mut m, file_str);
            extend_chars(&mut m, " memory (");
            push_count(&mut m, str_byte_len(content));
            extend_chars(&mut m, " bytes).");
            proof {
                match file {
                    MemoryFile::Agent => assert(store_contents(self.store) == with_file(c0, file, append_text_s(file_contents(c0, file), content@))),
                    MemoryFile::User => assert(store_contents(self.store) == with_file(c0, file, append_text_s(file_contents(c0, file), content@))),
                }
            }
            return Ok(string_of(m.as_slice()));
        }
        if str_eq(operation, "update_section") {
            let heading = match str_of(args.get("heading")) {
                Some(h) => h,
                None => {
                    return Err(McError::Tool("update_section requires 'heading' field".to_owned()));
                },
            };
            let content = match str_of(args.get("content")) {
                Some(t) => t,
                None => {
                    return Err(McError::Tool("update_section requires 'content' field".to_owned()));
                },
            };
            check_content_size(content)?;
            let found = self.store.update_section(file, heading, content);
            let mut m: Vec<char> = Vec::new();
            extend_chars(&mut m, "Section '## ");
            extend_chars(&mut m, heading);
            if found {
                extend_chars(&mut m, "' in ");
                extend_chars(&mut m, file_str);
                extend_chars(&mut m, " memory updated.");
                proof {
                    let n = replace_section_s(file_contents(c0, file), heading@, content@).unwrap();
                    match file {
                        MemoryFile::Agent => assert(store_contents(self.store) == with_file(c0, file, n)),
                        MemoryFile::User => assert(store_contents(self.store) == with_file(c0, file, n)),
                    }
                }
            } else {
                extend_chars(&mut m, "' not found in ");
                extend_chars(&mut m, file_str);
                extend_chars(&mut m, " memory. No changes made.");
                proof {
                    match file {
                        MemoryFile::Agent => assert(store_contents(self.store) == c0),
                        MemoryFile::User => assert(store_contents(self.store) == c0),
                    }
                }
            }
            return Ok(string_of(m.as_slice()));
        }
        let mut m: Vec<char> = Vec::new();
        extend_chars(&mut m, "unknown memory operation '");
        extend_chars(&mut m, operation);
        extend_chars(&mut m, "', expected: read, write, append, update_section");
        Err(McError::Tool(string_of(m.as_slice())))
    }
}

// ───────────────────────────── file and search tools ─────────────────────────────

/// A required string argument, or the tool's "missing parameter" error.
pub fn required_arg<'a>(args: &'a Json, name: &str) -> (r: Result<&'a str, McError>)
    ensures
        match arg_s(args@, name@) {
            Some(v) => r matches Ok(s) && s@ == v,
            None => r matches Err(e) && is_tool_error(e, "Missing required parameter: "@ + name@),
        },
{
    match str_of(args.get(name)) {
        Some(v) => Ok(v),
        None => {
            let mut m: Vec<char> = Vec::new();
            extend_chars(&mut m, "Missing required parameter: ");
            extend_chars(&mut m, name);
            Err(McError::Tool(string_of(m.as_slice())))
        },
    }
}

/// `"{n}: {line}"`.
pub open spec fn numbered_s(n: nat, line: Seq<char>) -> Seq<char> {
    decimal_s(n) + ": "@ + line
}

/// The lines of a file from 1-based line `offset` (at least 1), at most
/// `limit` of them, each prefixed with its line number, joined by newlines;
/// empty when the offset is past the end.
pub open spec fn read_output_s(content: Seq<char>, offset: u64, limit: Option<u64>) -> Seq<char> {
    let ls = lines_s(content);
    let start: int = if offset >= 1 { offset - 1 } else { 0 };
    if start >= ls.len() {
        Seq::empty()
    } else {
        let end: int = match limit {
            Some(l) => if start + l < ls.len() { start + l } else { ls.len() as int },
            None => ls.len() as int,
        };
        join_s(Seq::new((end - start) as nat, |i: int| numbered_s((start + i + 1) as nat, ls[start + i])), "\n"@)
    }
}

/// Format the part of a file that `read_file` returns.
pub fn read_file_output(content: &str, offset: u64, limit: Option<u64>) -> (r: String)
    requires
        offset <= usize::MAX,
        limit matches Some(l) ==> (if offset >= 1 { offset - 1 } else { 0 }) + l <= usize::MAX,
    ensures
        r@ == read_output_s(content@, offset, limit),
{
    let cv = chars_of(content);
    let lines = lines_of(cv.as_slice());
    let ghost ls = lines_s(content@);
    let start: usize = if offset >= 1 { (offset - 1) as usize } else { 0 };
    if start >= lines.len() {
        return String::new();
    }
    let end: usize = match limit {
        Some(l) => if start + (l as usize) < lines.len() { start + (l as usize) } else { lines.len() },
        None => lines.len(),
    };
    let ghost parts = Seq::new((end - start) as nat, |i: int| numbered_s((start + i + 1) as nat, ls[start + i]));
    let mut out: Vec<char> = Vec::new();
    let mut i: usize = start;
    while i < end
        invariant
            start <= i <= end <= lines@.len(),
            lines@.len() == ls.len(),
            forall|k: int| 0 <= k < lines@.len() ==> #[trigger] lines@[k]@ == ls[k],
            parts == Seq::new((end - start) as nat, |i: int| numbered_s((start + i + 1) as nat, ls[start + i])),
            out@ == join_s(parts.take(i - start), "\n"@),
        decreases end - i,
    {
        if i > start {
            extend_chars(&mut out, "\n");
        }
        let ghost before = out@;
        push_decimal(&mut out, (i + 1) as u64);
        extend_chars(&mut out, ": ");
        extend_range(&mut out, lines[i].as_slice(), 0, lines[i].len());
        proof {
            let l = lines@[i as int]@;
            assert(l.subrange(0, l.len() as int) =~= l);
            assert(parts.take(i + 1 - start).drop_last() =~= parts.take(i - start));
            assert(parts[i - start] == numbered_s((i + 1) as nat, ls[i as int]));
            if i > start {
                crate::text::lemma_join_push(parts.take(i - start), "\n"@, parts[i - start]);
                assert(parts.take(i - start).push(parts[i - start]) =~= parts.take(i + 1 - start));
            } else {
                assert(parts.take(1) =~= seq![parts[0]]);
            }
            assert(out@ =~= join_s(parts.take(i + 1 - start), "\n"@));
        }
        i = i + 1;
    }
    assert(parts.take(end - start) =~= parts);
    string_of(out.as_slice())
}

/// The `(path, offset, limit)` arguments of `read_file`: offset defaults to 1.
pub fn read_file_args(args: &Json) -> (r: Result<(String, u64, Option<u64>), McError>)
    ensures
        match arg_s(args@, "path"@) {
            Some(p) => r matches Ok((path, off, lim)) && path@ == p
                && off == (match ju64(jget(args@, "offset"@)) { Some(o) => o, None => 1u64 })
                && lim == ju64(jget(args@, "limit"@)),
            None => r matches Err(e) && is_tool_error(e, "Missing required parameter: "@ + "path"@),
        },
{
    let path = required_arg(args, "path")?;
    let offset = match u64_of(args.get("offset")) {
        Some(o) => o,
        None => 1,
    };
    let limit = u64_of(args.get("limit"));
    Ok((path.to_owned(), offset, limit))
}

/// `"{file}:{n}: {line}"`.
pub open spec fn grep_hit_s(display: Seq<char>, n: nat, line: Seq<char>) -> Seq<char> {
    display + ":"@ + decimal_s(n) + ": "@ + line
}

/// The lines of a file containing `pattern`, as `file:line: text`, in order.
pub open spec fn grep_hits_s(display: Seq<char>, ls: Seq<Seq<char>>, pattern: Seq<char>, n: int) -> Seq<Seq<char>>
    decreases n,
{
    if n <= 0 || n > ls.len() {
        seq![]
    } else {
        grep_hits_s(display, ls, pattern, n - 1) + if contains_s(ls[n - 1], pattern) {
            seq![grep_hit_s(display, n as nat, ls[n - 1])]
        } else {
            seq![]
        }
    }
}

/// Search one file's content for `pattern`, appending matching lines.
pub fn search_file(display: &str, content: &str, pattern: &str, results: &mut Vec<String>)
    ensures
        strs_view(final(results)@) == strs_view(old(results)@) + grep_hits_s(
            display@,
            lines_s(content@),
            pattern@,
            lines_s(content@).len() as int,
        ),
{
    let cv = chars_of(content);
    let pv = chars_of(pattern);
    let lines = lines_of(cv.as_slice());
    let ghost ls = lines_s(content@);
    let ghost start = strs_view(results@);
    let mut i: usize = 0;
    while i < lines.len()
        invariant
            i <= lines@.len(),
            lines@.len() == ls.len(),
            forall|k: int| 0 <= k < lines@.len() ==> #[trigger] lines@[k]@ == ls[k],
            pv@ == pattern@,
            strs_view(results@) == start + grep_hits_s(display@, ls, pattern@, i as int),
        decreases lines.len() - i,
    {
        let ghost before = strs_view(results@);
        if contains_chars(lines[i].as_slice(), pv.as_slice()) {
            let mut m: Vec<char> = Vec::new();
            extend_chars(&mut m, display);
            extend_chars(&mut m, ":");
            push_decimal(&mut m, (i + 1) as u64);
            extend_chars(&mut m, ": ");
            extend_range(&mut m, lines[i].as_slice(), 0, lines[i].len());
            proof {
                let l = lines@[i as int]@;
                assert(l.subrange(0, l.len() as int) =~= l);
            }
            results.push(string_of(m.as_slice()));
            assert(strs_view(results@) =~= before.push(grep_hit_s(display@, (i + 1) as nat, ls[i as int])));
        } else {
            assert(before + seq![] =~= before);
        }
        assert(strs_view(results@) =~= start + grep_hits_s(display@, ls, pattern@, i + 1));
        i = i + 1;
    }
}

/// The grep report: the hits joined by newlines, or `No matches found.`.
pub fn grep_report(results: &Vec<String>) -> (r: String)
    ensures
        r@ == if results@.len() == 0 { "No matches found."@ } else { join_s(strs_view(results@), "\n"@) },
{
    if results.len() == 0 {
        return "No matches found.".to_owned();
    }
    join_strings(results, "\n")
}

/// Strings joined by a separator.
pub fn join_strings(items: &Vec<String>, sep: &str) -> (r: String)
    ensures
        r@ == join_s(strs_view(items@), sep@),
{
    let mut out: Vec<char> = Vec::new();
    let mut i: usize = 0;
    while i < items.len()
        invariant
            i <= items@.len(),
            out@ == join_s(strs_view(items@.take(i as int)), sep@),
        decreases items.len() - i,
    {
        if i > 0 {
            extend_chars(&mut out, sep);
        }
        extend_chars(&mut out, items[i].as_str());
        proof {
            let prev = strs_view(items@.take(i as int));
            assert(strs_view(items@.take(i + 1)) =~= prev.push(items@[i as int]@));
            if i > 0 {
                crate::text::lemma_join_push(prev, sep@, items@[i as int]@);
            } else {
                assert(prev.push(items@[i as int]@) =~= seq![items@[i as int]@]);
            }
        }
        i = i + 1;
    }
    assert(items@.take(items@.len() as int) =~= items@);
    string_of(out.as_slice())
}

/// A directory listing or a list of matches: sorted, one per line.
pub fn sorted_listing(items: &Vec<String>) -> (r: String)
    ensures
        exists|s: Seq<Seq<char>>| sorted_strs(s) && s.to_multiset() == strs_view(items@).to_multiset()
            && r@ == join_s(s, "\n"@),
{
    let sorted = sort_strings(items);
    join_strings(&sorted, "\n")
}

/// A directory entry as `list_dir` shows it: directories get a trailing `/`.
pub fn dir_entry_name(name: &str, is_dir: bool) -> (r: String)
    ensures
        r@ == if is_dir { name@ + "/"@ } else { name@ },
{
    let mut s = name.to_owned();
    if is_dir {
        push_str(&mut s, "/");
    }
    s
}

// ───────────────────────────── bash ─────────────────────────────

/// Milliseconds a shell command may run by default.
pub const DEFAULT_TIMEOUT_MS: u64 = 30000;

/// The `(command, timeout)` of a bash call once the command passed the
/// dangerous-command check.
pub fn bash_args(security: &SecurityConfig, args: &Json) -> (r: Result<(String, u64), McError>)
    ensures
        match arg_s(args@, "command"@) {
            None => r matches Err(e) && is_tool_error(e, "Missing required parameter: "@ + "command"@),
            Some(c) => match first_pattern_s(str_lower(c), security.patterns()) {
                Some(k) => r matches Err(e) && is_tool_error(
                    e,
                    "Blocked dangerous command: matches pattern '"@ + security.patterns()[k] + "'"@,
                ),
                None => r matches Ok((cmd, t)) && cmd@ == c && t == (match ju64(jget(args@, "timeout_ms"@)) {
                    Some(x) => x,
                    None => DEFAULT_TIMEOUT_MS,
                }),
            },
        },
{
    let command = required_arg(args, "command")?;
    security.check_command(command)?;
    let timeout_ms = match u64_of(args.get("timeout_ms")) {
        Some(t) => t,
        None => DEFAULT_TIMEOUT_MS,
    };
    Ok((command.to_owned(), timeout_ms))
}

/// How a shell command ended.
#[derive(Debug, Clone)]
pub enum ProcessOutcome {
    /// It ran to completion.
    Finished { success: bool, code: Option<i32>, stdout: String, stderr: String },
    /// Waiting for it failed.
    Failed(String),
    /// It did not finish in time.
    TimedOut,
}

/// The bash tool's answer: stdout on success; otherwise the exit code
/// (-1 when killed by a signal) and both outputs.
pub fn bash_output(outcome: &ProcessOutcome, timeout_ms: u64) -> (r: Result<String, McError>)
    ensures
        match *outcome {
            ProcessOutcome::Finished { success, code, stdout, stderr } => if success {
                r matches Ok(s) && s@ == stdout@
            } else {
                r matches Ok(s) && s@ == "Exit code: "@ + crate::text::signed_decimal_s(
                    match code {
                        Some(c) => c as int,
                        None => -1,
                    },
                ) + "\n"@ + stdout@ + stderr@
            },
            ProcessOutcome::Failed(e) => r matches Err(x) && is_tool_error(x, "Process error: "@ + e@),
            ProcessOutcome::TimedOut => r matches Err(x) && is_tool_error(
                x,
                "Command timed out after "@ + decimal_s(timeout_ms as nat) + "ms"@,
            ),
        },
{
    match outcome {
        ProcessOutcome::Finished { success, code, stdout, stderr } => {
            if *success {
                return Ok(stdout.clone());
            }
            let c: i64 = match code {
                Some(c) => *c as i64,
                None => -1,
            };
            let mut m: Vec<char> = Vec::new();
            extend_chars(&mut m, "Exit code: ");
            crate::text::push_i64(&mut m, c);
            extend_chars(&mut m, "\n");
            extend_chars(&mut m, stdout.as_str());
            extend_chars(&mut m, stderr.as_str());
            Ok(string_of(m.as_slice()))
        },
        ProcessOutcome::Failed(e) => {
            let mut m: Vec<char> = Vec::new();
            extend_chars(&mut m, "Process error: ");
            extend_chars(&mut m, e.as_str());
            Err(McError::Tool(string_of(m.as_slice())))
        },
        ProcessOutcome::TimedOut => {
            let mut m: Vec<char> = Vec::new();
            extend_chars(&mut m, "Command timed out after ");
            push_decimal(&mut m, timeout_ms);
            extend_chars(&mut m, "ms");
            Err(McError::Tool(string_of(m.as_slice())))
        },
    }
}

/// What `write_file` reports.
pub fn write_report(content: &str, path_display: &str) -> (r: String)
    ensures
        r@ == "Wrote "@ + decimal_s(utf8_len(content@)) + " bytes to "@ + path_display@,
{
    let mut m: Vec<char> = Vec::new();
    extend_chars(&mut m, "Wrote ");
    push_count(&mut m, str_byte_len(content));
    extend_chars(&mut m, " bytes to ");
    extend_chars(&mut m, path_display);
    string_of(m.as_slice())
}

// ───────────────────────────── definitions ─────────────────────────────

/// A schema property `{type, description}`.
pub open spec fn prop_s(ty: Seq<char>, desc: Seq<char>) -> JsonV {
    JsonV::Object(seq![("type"@, JsonV::Str(ty)), ("description"@, JsonV::Str(desc))])
}

/// A schema property with allowed values `{type, enum, description}`.
pub open spec fn prop_enum_s(ty: Seq<char>, choices: Seq<Seq<char>>, desc: Seq<char>) -> JsonV {
    JsonV::Object(
        seq![
            ("type"@, JsonV::Str(ty)),
            ("enum"@, JsonV::Array(choices.map_values(|c: Seq<char>| JsonV::Str(c)))),
            ("description"@, JsonV::Str(desc)),
        ],
    )
}

/// An object schema `{type: "object", properties, required}`.
pub open spec fn schema_s(props: Seq<(Seq<char>, JsonV)>, required: Seq<Seq<char>>) -> JsonV {
    JsonV::Object(
        seq![
            ("type"@, JsonV::Str("object"@)),
            ("properties"@, JsonV::Object(props)),
            ("required"@, JsonV::Array(required.map_values(|c: Seq<char>| JsonV::Str(c)))),
        ],
    )
}

/// The views of a list of string slices.
pub open spec fn slices_view(v: Seq<&str>) -> Seq<Seq<char>> {
    v.map_values(|s: &str| s@)
}

/// A JSON array of strings.
fn str_array(items: &[&str]) -> (r: Json)
    ensures
        r@ == JsonV::Array(slices_view(items@).map_values(|c: Seq<char>| JsonV::Str(c))),
{
    let mut v: Vec<Json> = Vec::new();
    let mut i: usize = 0;
    while i < items.len()
        invariant
            i <= items@.len(),
            elems_view(v@) =~= slices_view(items@.take(i as int)).map_values(|c: Seq<char>| JsonV::Str(c)),
        decreases items.len() - i,
    {
        push_elem(&mut v, str_json(items[i]));
        assert(slices_view(items@.take(i + 1)) =~= slices_view(items@.take(i as int)).push(items@[i as int]@));
        i = i + 1;
    }
    assert(items@.take(items@.len() as int) =~= items@);
    make_array(v)
}

/// A schema property.
fn prop(ty: &str, desc: &str) -> (r: Json)
    ensures
        r@ == prop_s(ty@, desc@),
{
    let mut o: Vec<(String, Json)> = Vec::new();
    assert(entries_view(o@) =~= seq![]);
    push_entry(&mut o, "type", str_json(ty));
    push_entry(&mut o, "description", str_json(desc));
    assert(entries_view(o@) =~= prop_s(ty@, desc@)->Object_0);
    make_object(o)
}

/// A schema property with allowed values.
fn prop_enum(ty: &str, choices: &[&str], desc: &str) -> (r: Json)
    ensures
        r@ == prop_enum_s(ty@, slices_view(choices@), desc@),
{
    let mut o: Vec<(String, Json)> = Vec::new();
    assert(entries_view(o@) =~= seq![]);
    push_entry(&mut o, "type", str_json(ty));
    push_entry(&mut o, "enum", str_array(choices));
    push_entry(&mut o, "description", str_json(desc));
    assert(entries_view(o@) =~= prop_enum_s(ty@, slices_view(choices@), desc@)->Object_0);
    make_object(o)
}

/// An object schema.
fn schema(props: Vec<(String, Json)>, required: &[&str]) -> (r: Json)
    ensures
        r@ == schema_s(entries_view(props@), slices_view(required@)),
{
    let mut o: Vec<(String, Json)> = Vec::new();
    assert(entries_view(o@) =~= seq![]);
    push_entry(&mut o, "type", str_json("object"));
    push_entry(&mut o, "properties", make_object(props));
    push_entry(&mut o, "required", str_array(required));
    assert(entries_view(o@) =~= schema_s(entries_view(props@), slices_view(required@))->Object_0);
    make_object(o)
}

/// The view of a tool definition.
pub open spec fn def_is(d: ToolDefinition, name: Seq<char>, desc: Seq<char>, params: JsonV) -> bool {
    d.name@ == name && d.description@ == desc && jv(d.parameters) == params
}

/// The memory tool's parameter schema.
pub open spec fn memory_schema_s() -> JsonV {
    schema_s(
        seq![
            ("operation"@, prop_enum_s("string"@, seq!["read"@, "write"@, "append"@, "update_section"@], "The memory operation to perform."@)),
            ("file"@, prop_enum_s("string"@, seq!["agent"@, "user"@], "Which memory file: 'agent' for MEMORY.md (agent knowledge), 'user' for USER.md (user profile)."@)),
            ("content"@, prop_s("string"@, "Content for write/append/update_section operations. Required for write and append; for update_section this is the new section body."@)),
            ("heading"@, prop_s("string"@, "Section heading (without ##) for update_section operation. Required for update_section."@)),
        ],
        seq!["operation"@, "file"@],
    )
}

impl MemoryTool {
    /// The memory tool's definition.
    pub fn definition(&self) -> (r: ToolDefinition)
        ensures
            def_is(r, "memory"@, "Read, write, append, or update memory files (MEMORY.md for agent knowledge, USER.md for user profile). Operations: 'read' (read file), 'write' (overwrite file), 'append' (add to end), 'update_section' (replace section under a ## heading)."@, memory_schema_s()),
    {
        let ops: [&str; 4] = ["read", "write", "append", "update_section"];
        let files: [&str; 2] = ["agent", "user"];
        let required: [&str; 2] = ["operation", "file"];
        let mut props: Vec<(String, Json)> = Vec::new();
        assert(entries_view(props@) =~= seq![]);
        push_entry(&mut props, "operation", prop_enum("string", ops.as_slice(), "The memory operation to perform."));
        push_entry(&mut props, "file", prop_enum("string", files.as_slice(), "Which memory file: 'agent' for MEMORY.md (agent knowledge), 'user' for USER.md (user profile)."));
        push_entry(&mut props, "content", prop("string", "Content for write/append/update_section operations. Required for write and append; for update_section this is the new section body."));
        push_entry(&mut props, "heading", prop("string", "Section heading (without ##) for update_section operation. Required for update_section."));
        assert(slices_view(ops@) =~= seq!["read"@, "write"@, "append"@, "update_section"@]);
        assert(slices_view(files@) =~= seq!["agent"@, "user"@]);
        assert(slices_view(required@) =~= seq!["operation"@, "file"@]);
        assert(entries_view(props@) =~= memory_schema_s()->Object_0[1].1->Object_0);
        ToolDefinition {
            name: "memory".to_owned(),
            description: "Read, write, append, or update memory files (MEMORY.md for agent knowledge, USER.md for user profile). Operations: 'read' (read file), 'write' (overwrite file), 'append' (add to end), 'update_section' (replace section under a ## heading).".to_owned(),
            parameters: schema(props, required.as_slice()),
        }
    }
}


/// The `bash` tool's parameter schema.
pub open spec fn bash_tool_schema_s() -> JsonV {
    schema_s(
        seq![
            ("command"@, prop_s("string"@, "The shell command to execute"@)),
            ("timeout_ms"@, prop_s("integer"@, "Timeout in milliseconds (default 30000)"@)),
        ],
        seq!["command"@],
    )
}

/// Executes shell commands after the dangerous-command check.
#[derive(Debug, Clone)]
pub struct BashTool {
    security: SecurityConfig,
}

impl BashTool {
    /// Create the tool with a security policy.
    pub fn new(security: SecurityConfig) -> (r: Self)
        ensures
            r.security_s() == security,
    {
        BashTool { security }
    }

    /// The tool's security policy.
    pub closed spec fn security_s(&self) -> SecurityConfig {
        self.security
    }

    /// The tool's security policy.
    pub fn security(&self) -> (r: &SecurityConfig)
        ensures
            *r == self.security_s(),
    {
        &self.security
    }

    /// The tool's definition.
    pub fn definition(&self) -> (r: ToolDefinition)
        ensures
            def_is(r, "bash"@, "Execute a shell command and return its output. Uses PowerShell on Windows, /bin/sh on Unix."@, bash_tool_schema_s()),
    {
        let required: [&str; 1] = ["command"];
        let mut props: Vec<(String, Json)> = Vec::new();
        assert(entries_view(props@) =~= seq![]);
        push_entry(&mut props, "command", prop("string", "The shell command to execute"));
        push_entry(&mut props, "timeout_ms", prop("integer", "Timeout in milliseconds (default 30000)"));
        assert(slices_view(required@) =~= seq!["command"@]);
        assert(entries_view(props@) =~= bash_tool_schema_s()->Object_0[1].1->Object_0);
        ToolDefinition {
            name: "bash".to_owned(),
            description: "Execute a shell command and return its output. Uses PowerShell on Windows, /bin/sh on Unix.".to_owned(),
            parameters: schema(props, required.as_slice()),
        }
    }
}

/// The `read_file` tool's parameter schema.
pub open spec fn read_file_tool_schema_s() -> JsonV {
    schema_s(
        seq![
            ("path"@, prop_s("string"@, "Path to the file (relative to cwd or absolute)"@)),
            ("offset"@, prop_s("integer"@, "Line number to start reading from (1-indexed, default 1)"@)),
            ("limit"@, prop_s("integer"@, "Maximum number of lines to read (default: all)"@)),
        ],
        seq!["path"@],
    )
}

/// Reads files with line numbers, within the security policy.
#[derive(Debug, Clone)]
pub struct ReadFileTool {
    security: SecurityConfig,
}

impl ReadFileTool {
    /// Create the tool with a security policy.
    pub fn new(security: SecurityConfig) -> (r: Self)
        ensures
            r.security_s() == security,
    {
        ReadFileTool { security }
    }

    /// The tool's security policy.
    pub closed spec fn security_s(&self) -> SecurityConfig {
        self.security
    }

    /// The tool's security policy.
    pub fn security(&self) -> (r: &SecurityConfig)
        ensures
            *r == self.security_s(),
    {
        &self.security
    }

    /// The tool's definition.
    pub fn definition(&self) -> (r: ToolDefinition)
        ensures
            def_is(r, "read_file"@, "Read the content of a file. Returns lines prefixed with their 1-indexed line numbers. Supports offset and limit."@, read_file_tool_schema_s()),
    {
        let required: [&str; 1] = ["path"];
        let mut props: Vec<(String, Json)> = Vec::new();
        assert(entries_view(props@) =~= seq![]);
        push_entry(&mut props, "path", prop("string", "Path to the file (relative to cwd or absolute)"));
        push_entry(&mut props, "offset", prop("integer", "Line number to start reading from (1-indexed, default 1)"));
        push_entry(&mut props, "limit", prop("integer", "Maximum number of lines to read (default: all)"));
        assert(slices_view(required@) =~= seq!["path"@]);
        assert(entries_view(props@) =~= read_file_tool_schema_s()->Object_0[1].1->Object_0);
        ToolDefinition {
            name: "read_file".to_owned(),
            description: "Read the content of a file. Returns lines prefixed with their 1-indexed line numbers. Supports offset and limit.".to_owned(),
            parameters: schema(props, required.as_slice()),
        }
    }
}

/// The `write_file` tool's parameter schema.
pub open spec fn write_file_tool_schema_s() -> JsonV {
    schema_s(
        seq![
            ("path"@, prop_s("string"@, "Path to the file (relative to cwd or absolute)"@)),
            ("content"@, prop_s("string"@, "Content to write to the file"@)),
        ],
        seq!["path"@, "content"@],
    )
}

/// Writes files, within the security policy.
#[derive(Debug, Clone)]
pub struct WriteFileTool {
    security: SecurityConfig,
}

impl WriteFileTool {
    /// Create the tool with a security policy.
    pub fn new(security: SecurityConfig) -> (r: Self)
        ensures
            r.security_s() == security,
    {
        WriteFileTool { security }
    }

    /// The tool's security policy.
    pub closed spec fn security_s(&self) -> SecurityConfig {
        self.security
    }

    /// The tool's security policy.
    pub fn security(&self) -> (r: &SecurityConfig)
        ensures
            *r == self.security_s(),
    {
        &self.security
    }

    /// The tool's definition.
    pub fn definition(&self) -> (r: ToolDefinition)
        ensures
            def_is(r, "write_file"@, "Write content to a file. Creates the file if it doesn't exist, overwrites if it does. Parent directories are created automatically."@, write_file_tool_schema_s()),
    {
        let required: [&str; 2] = ["path", "content"];
        let mut props: Vec<(String, Json)> = Vec::new();
        assert(entries_view(props@) =~= seq![]);
        push_entry(&mut props, "path", prop("string", "Path to the file (relative to cwd or absolute)"));
        push_entry(&mut props, "content", prop("string", "Content to write to the file"));
        assert(slices_view(required@) =~= seq!["path"@, "content"@]);
        assert(entries_view(props@) =~= write_file_tool_schema_s()->Object_0[1].1->Object_0);
        ToolDefinition {
            name: "write_file".to_owned(),
            description: "Write content to a file. Creates the file if it doesn't exist, overwrites if it does. Parent directories are created automatically.".to_owned(),
            parameters: schema(props, required.as_slice()),
        }
    }
}

/// The `list_dir` tool's parameter schema.
pub open spec fn list_dir_tool_schema_s() -> JsonV {
    schema_s(
        seq![
            ("path"@, prop_s("string"@, "Directory path to list"@)),
        ],
        seq!["path"@],
    )
}

/// Lists directories, within the security policy.
#[derive(Debug, Clone)]
pub struct ListDirTool {
    security: SecurityConfig,
}

impl ListDirTool {
    /// Create the tool with a security policy.
    pub fn new(security: SecurityConfig) -> (r: Self)
        ensures
            r.security_s() == security,
    {
        ListDirTool { security }
    }

    /// The tool's security policy.
    pub closed spec fn security_s(&self) -> SecurityConfig {
        self.security
    }

    /// The tool's security policy.
    pub fn security(&self) -> (r: &SecurityConfig)
        ensures
            *r == self.security_s(),
    {
        &self.security
    }

    /// The tool's definition.
    pub fn definition(&self) -> (r: ToolDefinition)
        ensures
            def_is(r, "list_dir"@, "List the contents of a directory. Directories are shown with a trailing slash."@, list_dir_tool_schema_s()),
    {
        let required: [&str; 1] = ["path"];
        let mut props: Vec<(String, Json)> = Vec::new();
        assert(entries_view(props@) =~= seq![]);
        push_entry(&mut props, "path", prop("string", "Directory path to list"));
        assert(slices_view(required@) =~= seq!["path"@]);
        assert(entries_view(props@) =~= list_dir_tool_schema_s()->Object_0[1].1->Object_0);
        ToolDefinition {
            name: "list_dir".to_owned(),
            description: "List the contents of a directory. Directories are shown with a trailing slash.".to_owned(),
            parameters: schema(props, required.as_slice()),
        }
    }
}

/// The `glob` tool's parameter schema.
pub open spec fn glob_tool_schema_s() -> JsonV {
    schema_s(
        seq![
            ("pattern"@, prop_s("string"@, "Glob pattern (e.g. '**/*.rs', 'src/**/*.ts')"@)),
            ("root"@, prop_s("string"@, "Root directory to search from (default: cwd)"@)),
        ],
        seq!["pattern"@],
    )
}

/// Finds files matching a glob pattern; root and pattern are checked against the security policy.
#[derive(Debug, Clone)]
pub struct GlobTool {
    security: SecurityConfig,
}

impl GlobTool {
    /// Create the tool with a security policy.
    pub fn new(security: SecurityConfig) -> (r: Self)
        ensures
            r.security_s() == security,
    {
        GlobTool { security }
    }

    /// The tool's security policy.
    pub closed spec fn security_s(&self) -> SecurityConfig {
        self.security
    }

    /// The tool's security policy.
    pub fn security(&self) -> (r: &SecurityConfig)
        ensures
            *r == self.security_s(),
    {
        &self.security
    }

    /// The tool's definition.
    pub fn definition(&self) -> (r: ToolDefinition)
        ensures
            def_is(r, "glob"@, "Find files matching a glob pattern. Supports *, ?, and **. Paths are returned relative to the root."@, glob_tool_schema_s()),
    {
        let required: [&str; 1] = ["pattern"];
        let mut props: Vec<(String, Json)> = Vec::new();
        assert(entries_view(props@) =~= seq![]);
        push_entry(&mut props, "pattern", prop("string", "Glob pattern (e.g. '**/*.rs', 'src/**/*.ts')"));
        push_entry(&mut props, "root", prop("string", "Root directory to search from (default: cwd)"));
        assert(slices_view(required@) =~= seq!["pattern"@]);
        assert(entries_view(props@) =~= glob_tool_schema_s()->Object_0[1].1->Object_0);
        ToolDefinition {
            name: "glob".to_owned(),
            description: "Find files matching a glob pattern. Supports *, ?, and **. Paths are returned relative to the root.".to_owned(),
            parameters: schema(props, required.as_slice()),
        }
    }
}

/// The `grep` tool's parameter schema.
pub open spec fn grep_tool_schema_s() -> JsonV {
    schema_s(
        seq![
            ("pattern"@, prop_s("string"@, "Text to search for (substring match)"@)),
            ("path"@, prop_s("string"@, "File or directory to search in"@)),
            ("include"@, prop_s("string"@, "Glob to filter filenames, e.g. '*.rs'"@)),
        ],
        seq!["pattern"@, "path"@],
    )
}

/// Searches files for plain-text matches; the search path is checked against the security policy.
#[derive(Debug, Clone)]
pub struct GrepTool {
    security: SecurityConfig,
}

impl GrepTool {
    /// Create the tool with a security policy.
    pub fn new(security: SecurityConfig) -> (r: Self)
        ensures
            r.security_s() == security,
    {
        GrepTool { security }
    }

    /// The tool's security policy.
    pub closed spec fn security_s(&self) -> SecurityConfig {
        self.security
    }

    /// The tool's security policy.
    pub fn security(&self) -> (r: &SecurityConfig)
        ensures
            *r == self.security_s(),
    {
        &self.security
    }

    /// The tool's definition.
    pub fn definition(&self) -> (r: ToolDefinition)
        ensures
            def_is(r, "grep"@, "Search for a text pattern in files (simple substring match). Returns matching lines with file path and line number."@, grep_tool_schema_s()),
    {
        let required: [&str; 2] = ["pattern", "path"];
        let mut props: Vec<(String, Json)> = Vec::new();
        assert(entries_view(props@) =~= seq![]);
        push_entry(&mut props, "pattern", prop("string", "Text to search for (substring match)"));
        push_entry(&mut props, "path", prop("string", "File or directory to search in"));
        push_entry(&mut props, "include", prop("string", "Glob to filter filenames, e.g. '*.rs'"));
        assert(slices_view(required@) =~= seq!["pattern"@, "path"@]);
        assert(entries_view(props@) =~= grep_tool_schema_s()->Object_0[1].1->Object_0);
        ToolDefinition {
            name: "grep".to_owned(),
            description: "Search for a text pattern in files (simple substring match). Returns matching lines with file path and line number.".to_owned(),
            parameters: schema(props, required.as_slice()),
        }
    }
}

} // verus!
