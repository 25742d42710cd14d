//! Memory files (`MEMORY.md` for the agent's knowledge, `USER.md` for the
//! user's profile) and their section-level editing.
//!
//! A [`MemoryStore`] holds the directory the two files live in together with
//! their contents as last loaded; an absent file has empty contents.  Writing
//! the contents back to disk is the caller's business.
use vstd::prelude::*;
use crate::text::{
    chars_of, extend_chars, extend_range, lines_of, lines_s, lines_text, occurs_at_exec,
    starts_with_s, string_of, trim_end_len, trim_end_s, lemma_lines_text_push,
};

verus! {

/// Identifies which memory file to operate on.
#[derive(Debug, Clone, Copy, PartialEq, Eq)]
pub enum MemoryFile {
    /// Agent knowledge base — `MEMORY.md`.
    Agent,
    /// User profile — `USER.md`.
    User,
}

impl MemoryFile {
    /// The file name of this memory file.
    pub open spec fn filename_s(self) -> Seq<char> {
        match self {
            MemoryFile::Agent => "MEMORY.md"@,
            MemoryFile::User => "USER.md"@,
        }
    }

    /// Returns the filename for this memory file type.
    pub fn filename(&self) -> (r: &'static str)
        ensures
            r@ == self.filename_s(),
    {
        match self {
            MemoryFile::Agent => "MEMORY.md",
            MemoryFile::User => "USER.md",
        }
    }
}

// ───────────────────────────── section specifications ─────────────────────────────

/// Views of a list of character buffers.
pub open spec fn views(ls: Seq<Vec<char>>) -> Seq<Seq<char>> {
    ls.map_values(|l: Vec<char>| l@)
}

/// `line` is the heading `## {h}` (trailing whitespace ignored).
pub open spec fn is_heading(line: Seq<char>, h: Seq<char>) -> bool {
    trim_end_s(line) == "## "@ + h
}

/// `line` starts a section (`## ` after trailing whitespace is ignored).
pub open spec fn is_any_heading(line: Seq<char>) -> bool {
    starts_with_s(trim_end_s(line), "## "@)
}

/// Index of the first line that is the heading `## {h}`.
pub open spec fn section_start(ls: Seq<Seq<char>>, h: Seq<char>) -> Option<int> {
    if exists|k: int| 0 <= k < ls.len() && is_heading(#[trigger] ls[k], h) {
        Some(
            choose|k: int|
                0 <= k < ls.len() && is_heading(#[trigger] ls[k], h) && forall|j: int|
                    0 <= j < k ==> !is_heading(#[trigger] ls[j], h),
        )
    } else {
        None
    }
}

/// Index of the first section heading after line `start`, or the number of lines.
pub open spec fn section_end(ls: Seq<Seq<char>>, start: int) -> int {
    if exists|k: int| start < k < ls.len() && is_any_heading(#[trigger] ls[k]) {
        choose|k: int|
            start < k < ls.len() && is_any_heading(#[trigger] ls[k]) && forall|j: int|
                start < j < k ==> !is_any_heading(#[trigger] ls[j])
    } else {
        ls.len() as int
    }
}

/// `section_start` is the first heading `## {h}`, or `None` when there is none.
pub proof fn lemma_section_start(ls: Seq<Seq<char>>, h: Seq<char>)
    ensures
        match section_start(ls, h) {
            Some(k) => 0 <= k < ls.len() && is_heading(ls[k], h) && forall|j: int| 0 <= j < k ==> !is_heading(#[trigger] ls[j], h),
            None => forall|k: int| 0 <= k < ls.len() ==> !is_heading(#[trigger] ls[k], h),
        },
{
    if exists|k: int| 0 <= k < ls.len() && is_heading(#[trigger] ls[k], h) {
        let k = choose|k: int| 0 <= k < ls.len() && is_heading(#[trigger] ls[k], h);
        let p = |i: int| 0 <= i < ls.len() && is_heading(ls[i], h);
        assert(p(k));
        crate::text::lemma_least_from(p, 0, k);
        let m = choose|m: int| 0 <= m <= k && #[trigger] p(m) && forall|j: int| 0 <= j < m ==> !#[trigger] p(j);
        assert forall|j: int| 0 <= j < m implies !is_heading(#[trigger] ls[j], h) by {
            assert(!p(j));
        }
    }
}

/// `section_end` is the first section heading after `start`, or the number
/// of lines when there is none.
pub proof fn lemma_section_end(ls: Seq<Seq<char>>, start: int)
    ensures
        start < section_end(ls, start) <= ls.len() || (section_end(ls, start) == ls.len() && start >= ls.len() - 1),
        section_end(ls, start) < ls.len() ==> is_any_heading(ls[section_end(ls, start)]),
        forall|j: int| start < j < section_end(ls, start) ==> !is_any_heading(#[trigger] ls[j]),
{
    if exists|k: int| start < k < ls.len() && is_any_heading(#[trigger] ls[k]) {
        let k = choose|k: int| start < k < ls.len() && is_any_heading(#[trigger] ls[k]);
        let p = |i: int| start < i < ls.len() && is_any_heading(ls[i]);
        assert(p(k));
        crate::text::lemma_least_from(p, start + 1, k);
        let m = choose|m: int| start + 1 <= m <= k && #[trigger] p(m) && forall|j: int| start + 1 <= j < m ==> !#[trigger] p(j);
        assert forall|j: int| start < j < m implies !is_any_heading(#[trigger] ls[j]) by {
            assert(!p(j));
        }
    }
}

/// `body` followed by a newline unless it already ends with one.
pub open spec fn with_final_newline(body: Seq<char>) -> Seq<char> {
    if body.len() > 0 && body.last() == '\n' {
        body
    } else {
        body.push('\n')
    }
}

/// The text with the body of section `## {h}` replaced by `body`;
/// `None` when the heading is absent.
pub open spec fn replace_section_s(text: Seq<char>, h: Seq<char>, body: Seq<char>) -> Option<Seq<char>> {
    let ls = lines_s(text);
    match section_start(ls, h) {
        None => None,
        Some(st) => Some(
            lines_text(ls.take(st)) + "## "@ + h + seq!['\n'] + with_final_newline(body)
                + lines_text(ls.skip(section_end(ls, st))),
        ),
    }
}

/// The text without section `## {h}` (heading and body); `None` when the heading is absent.
pub open spec fn remove_section_s(text: Seq<char>, h: Seq<char>) -> Option<Seq<char>> {
    let ls = lines_s(text);
    match section_start(ls, h) {
        None => None,
        Some(st) => Some(lines_text(ls.take(st) + ls.skip(section_end(ls, st)))),
    }
}

/// Contents after appending `content` to a memory file holding `existing`:
/// a newline separates them unless `existing` is empty or already ends with
/// one, and the result always ends with a newline.
pub open spec fn append_text_s(existing: Seq<char>, content: Seq<char>) -> Seq<char> {
    let a = if existing.len() > 0 && existing.last() != '\n' {
        existing.push('\n')
    } else {
        existing
    };
    let b = a + content;
    if b.len() > 0 && b.last() == '\n' {
        b
    } else {
        b.push('\n')
    }
}

/// A file name joined under a directory path (`Path::join` of a relative name).
pub open spec fn join_path_s(base: Seq<char>, name: Seq<char>) -> Seq<char> {
    if base.len() == 0 {
        name
    } else if base.last() == '/' {
        base + name
    } else {
        base + seq!['/'] + name
    }
}

// ───────────────────────────── section functions ─────────────────────────────

/// Whether `a[..n]` equals `b`.
fn prefix_eq(a: &[char], n: usize, b: &[char]) -> (r: bool)
    requires
        n <= a@.len(),
    ensures
        r == (a@.take(n as int) == b@),
{
    if n != b.len() {
        return false;
    }
    let r = occurs_at_exec(a, b, 0);
    assert(a@.subrange(0, n as int) =~= a@.take(n as int));
    r
}

/// Whether `line` is the heading `## {heading}`.
fn line_is_heading(line: &[char], hl: &Vec<char>, Ghost(h): Ghost<Seq<char>>) -> (r: bool)
    requires
        hl@ == "## "@ + h,
    ensures
        r == is_heading(line@, h),
{
    let e = trim_end_len(line);
    prefix_eq(line, e, hl.as_slice())
}

/// Whether `line` starts a section.
fn line_is_any_heading(line: &[char], marker: &Vec<char>) -> (r: bool)
    requires
        marker@ == "## "@,
    ensures
        r == is_any_heading(line@),
{
    let e = trim_end_len(line);
    let ghost t = line@.take(e as int);
    if e < marker.len() {
        return false;
    }
    let r = occurs_at_exec(line, marker.as_slice(), 0);
    assert(r == starts_with_s(t, "## "@)) by {
        assert(t.subrange(0, marker@.len() as int) =~= line@.subrange(0, marker@.len() as int));
    }
    r
}

/// Find the line index where `## heading` starts (exact match after `## `).
pub fn find_section_start(lines: &Vec<Vec<char>>, heading: &str) -> (r: Option<usize>)
    ensures
        r matches Some(k) ==> section_start(views(lines@), heading@) == Some(k as int) && k < lines@.len(),
        r is None ==> section_start(views(lines@), heading@) is None,
{
    let ghost ls = views(lines@);
    let mut hl: Vec<char> = Vec::new();
    extend_chars(&mut hl, "## ");
    extend_chars(&mut hl, heading);
    let mut k: usize = 0;
    while k < lines.len()
        invariant
            ls == views(lines@),
            hl@ == "## "@ + heading@,
            k <= lines@.len(),
            forall|j: int| 0 <= j < k ==> !is_heading(#[trigger] ls[j], heading@),
        decreases lines.len() - k,
    {
        if line_is_heading(lines[k].as_slice(), &hl, Ghost(heading@)) {
            proof {
                assert(ls[k as int] == lines@[k as int]@);
                let c = choose|c: int|
                    0 <= c < ls.len() && is_heading(#[trigger] ls[c], heading@) && forall|j: int|
                        0 <= j < c ==> !is_heading(#[trigger] ls[j], heading@);
                assert(0 <= c < ls.len() && is_heading(ls[c], heading@));
                if c < k {
                    assert(!is_heading(ls[c], heading@));
                }
                if k < c {
                    assert(!is_heading(ls[k as int], heading@));
                }
            }
            return Some(k);
        }
        assert(ls[k as int] == lines@[k as int]@);
        k = k + 1;
    }
    None
}

/// Find the line index where the next `## ` section starts after `start`.
pub fn find_section_end(lines: &Vec<Vec<char>>, start: usize) -> (r: usize)
    ensures
        r == section_end(views(lines@), start as int),
        start < r <= lines@.len() || (r == lines@.len() && start >= lines@.len()),
{
    let ghost ls = views(lines@);
    let mut marker: Vec<char> = Vec::new();
    extend_chars(&mut marker, "## ");
    if start >= lines.len() {
        return lines.len();
    }
    let mut k: usize = start + 1;
    while k < lines.len()
        invariant
            ls == views(lines@),
            marker@ == "## "@,
            start < k <= lines@.len(),
            forall|j: int| start < j < k ==> !is_any_heading(#[trigger] ls[j]),
        decreases lines.len() - k,
    {
        if line_is_any_heading(lines[k].as_slice(), &marker) {
            proof {
                assert(ls[k as int] == lines@[k as int]@);
                let c = choose|c: int|
                    start < c < ls.len() && is_any_heading(#[trigger] ls[c]) && forall|j: int|
                        start < j < c ==> !is_any_heading(#[trigger] ls[j]);
                assert(start < c < ls.len() && is_any_heading(ls[c]));
                if c < k {
                    assert(!is_any_heading(ls[c]));
                }
                if k < c {
                    assert(!is_any_heading(ls[k as int]));
                }
            }
            return k;
        }
        assert(ls[k as int] == lines@[k as int]@);
        k = k + 1;
    }
    lines.len()
}

/// Append `lines[from..to]`, each followed by a newline.
pub fn push_lines(out: &mut Vec<char>, lines: &Vec<Vec<char>>, from: usize, to: usize)
    requires
        from <= to <= lines@.len(),
    ensures
        final(out)@ == old(out)@ + lines_text(views(lines@).subrange(from as int, to as int)),
{
    let ghost start = out@;
    let mut i = from;
    while i < to
        invariant
            from <= i <= to <= lines@.len(),
            out@ == start + lines_text(views(lines@).subrange(from as int, i as int)),
        decreases to - i,
    {
        let ghost prev = views(lines@).subrange(from as int, i as int);
        extend_range(out, lines[i].as_slice(), 0, lines[i].len());
        out.push('\n');
        proof {
            let l = lines@[i as int]@;
            assert(views(lines@).subrange(from as int, i + 1) =~= prev.push(l));
            lemma_lines_text_push(prev, l);
            assert(l.subrange(0, l.len() as int) =~= l);
            assert(out@ =~= start + lines_text(views(lines@).subrange(from as int, i + 1)));
        }
        i = i + 1;
    }
}

pub proof fn lemma_lines_text_concat(a: Seq<Seq<char>>, b: Seq<Seq<char>>)
    ensures
        lines_text(a + b) == lines_text(a) + lines_text(b),
    decreases b.len(),
{
    if b.len() == 0 {
        assert(a + b =~= a);
        assert(lines_text(a) + seq![] =~= lines_text(a));
    } else {
        lemma_lines_text_concat(a, b.drop_last());
        assert((a + b).drop_last() =~= a + b.drop_last());
        assert(lines_text(a) + lines_text(b.drop_last()) + b.last() + seq!['\n'] =~= lines_text(a)
            + (lines_text(b.drop_last()) + b.last() + seq!['\n']));
    }
}

pub proof fn lemma_text_split(u: Seq<Seq<char>>, k: int)
    requires
        0 <= k <= u.len(),
    ensures
        lines_text(u) == lines_text(u.subrange(0, k)) + lines_text(u.subrange(k, u.len() as int)),
{
    lemma_lines_text_concat(u.subrange(0, k), u.subrange(k, u.len() as int));
    assert(u.subrange(0, k) + u.subrange(k, u.len() as int) =~= u);
}

/// Replace a section's body (everything between the heading and the next `## `).
///
/// Returns `None` if the heading is not found.
#[verifier::rlimit(40)]
pub fn replace_section(text: &str, heading: &str, new_content: &str) -> (r: Option<String>)
    ensures
        r matches Some(t) ==> replace_section_s(text@, heading@, new_content@) == Some(t@),
        r is None ==> replace_section_s(text@, heading@, new_content@) is None,
{
    let tv = chars_of(text);
    let lines = lines_of(tv.as_slice());
    assert(views(lines@) =~= lines_s(text@));
    let start = match find_section_start(&lines, heading) {
        Some(s) => s,
        None => return None,
    };
    let end = find_section_end(&lines, start);
    let ghost ls = views(lines@);
    let mut out: Vec<char> = Vec::new();
    push_lines(&mut out, &lines, 0, start);
    assert(ls.subrange(0, start as int) =~= ls.take(start as int));
    let ghost a = out@;
    assert(a =~= lines_text(ls.take(start as int)));
    extend_chars(&mut out, "## ");
    extend_chars(&mut out, heading);
    out.push('\n');
    let ghost b = out@;
    assert(b =~= a + "## "@ + heading@ + seq!['\n']);
    let body = chars_of(new_content);
    extend_range(&mut out, body.as_slice(), 0, body.len());
    let n = body.len();
    if !(n > 0 && body[n - 1] == '\n') {
        out.push('\n');
    }
    let ghost c = out@;
    assert(body@.subrange(0, n as int) =~= body@);
    assert(c =~= b + with_final_newline(new_content@));
    push_lines(&mut out, &lines, end, lines.len());
    assert(ls.subrange(end as int, ls.len() as int) =~= ls.skip(end as int));
    assert(out@ =~= c + lines_text(ls.skip(end as int)));
    Some(string_of(out.as_slice()))
}

/// Remove a section entirely (heading + body).
///
/// Returns `None` if the heading is not found.
pub fn remove_section_from_text(text: &str, heading: &str) -> (r: Option<String>)
    ensures
        r matches Some(t) ==> remove_section_s(text@, heading@) == Some(t@),
        r is None ==> remove_section_s(text@, heading@) is None,
{
    let tv = chars_of(text);
    let lines = lines_of(tv.as_slice());
    assert(views(lines@) =~= lines_s(text@));
    let start = match find_section_start(&lines, heading) {
        Some(s) => s,
        None => return None,
    };
    let end = find_section_end(&lines, start);
    let mut out: Vec<char> = Vec::new();
    push_lines(&mut out, &lines, 0, start);
    push_lines(&mut out, &lines, end, lines.len());
    proof {
        let ls = views(lines@);
        assert(ls.subrange(0, start as int) =~= ls.take(start as int));
        assert(ls.subrange(end as int, ls.len() as int) =~= ls.skip(end as int));
        lemma_lines_text_concat(ls.take(start as int), ls.skip(end as int));
        assert(out@ =~= lines_text(ls.take(start as int) + ls.skip(end as int)));
    }
    Some(string_of(out.as_slice()))
}

/// Contents after appending `content` to a memory file holding `existing`.
pub fn append_text(existing: &str, content: &str) -> (r: String)
    ensures
        r@ == append_text_s(existing@, content@),
{
    let mut v = chars_of(existing);
    let n = v.len();
    if n > 0 && v[n - 1] != '\n' {
        v.push('\n');
    }
    extend_chars(&mut v, content);
    let m = v.len();
    if !(m > 0 && v[m - 1] == '\n') {
        v.push('\n');
    }
    string_of(v.as_slice())
}

/// `base` joined with a relative file name.
pub fn join_path(base: &str, name: &str) -> (r: String)
    ensures
        r@ == join_path_s(base@, name@),
{
    let mut v = chars_of(base);
    let n = v.len();
    if n > 0 && v[n - 1] != '/' {
        v.push('/');
    }
    extend_chars(&mut v, name);
    string_of(v.as_slice())
}

// ───────────────────────────── the store ─────────────────────────────

/// The two memory files of one directory, with their contents as last loaded.
///
/// A file that does not exist reads as empty; appending creates it.
#[derive(Debug, Clone)]
pub struct MemoryStore {
    base_path: String,
    agent: String,
    user: String,
}

impl MemoryStore {
    /// The directory the files live in.
    pub closed spec fn base_path_s(&self) -> Seq<char> {
        self.base_path@
    }

    /// Current contents of a memory file.
    pub closed spec fn contents(&self, file: MemoryFile) -> Seq<char> {
        match file {
            MemoryFile::Agent => self.agent@,
            MemoryFile::User => self.user@,
        }
    }

    /// Create a new store rooted at `base_path`; both files read as empty.
    pub fn new(base_path: &str) -> (r: Self)
        ensures
            r.base_path_s() == base_path@,
            r.contents(MemoryFile::Agent) == Seq::<char>::empty(),
            r.contents(MemoryFile::User) == Seq::<char>::empty(),
    {
        MemoryStore { base_path: string_of(chars_of(base_path).as_slice()), agent: String::new(), user: String::new() }
    }

    /// A store rooted at `base_path` with the given file contents (as loaded from disk).
    pub fn with_contents(base_path: &str, agent: &str, user: &str) -> (r: Self)
        ensures
            r.base_path_s() == base_path@,
            r.contents(MemoryFile::Agent) == agent@,
            r.contents(MemoryFile::User) == user@,
    {
        MemoryStore {
            base_path: string_of(chars_of(base_path).as_slice()),
            agent: string_of(chars_of(agent).as_slice()),
            user: string_of(chars_of(user).as_slice()),
        }
    }

    /// Returns the base directory path.
    pub fn base_path(&self) -> (r: &str)
        ensures
            r@ == self.base_path_s(),
    {
        self.base_path.as_str()
    }

    /// Resolve the full path for a given memory file type.
    pub fn path_for(&self, file: MemoryFile) -> (r: String)
        ensures
            r@ == join_path_s(self.base_path_s(), file.filename_s()),
    {
        join_path(self.base_path.as_str(), file.filename())
    }

    /// Read the contents of a memory file. Returns empty string if missing.
    pub fn read_file(&self, file: MemoryFile) -> (r: String)
        ensures
            r@ == self.contents(file),
    {
        match file {
            MemoryFile::Agent => string_of(chars_of(self.agent.as_str()).as_slice()),
            MemoryFile::User => string_of(chars_of(self.user.as_str()).as_slice()),
        }
    }

    /// Read agent memory. Returns empty string if file doesn't exist.
    pub fn read_agent_memory(&self) -> (r: String)
        ensures
            r@ == self.contents(MemoryFile::Agent),
    {
        self.read_file(MemoryFile::Agent)
    }

    /// Read user memory. Returns empty string if file doesn't exist.
    pub fn read_user_memory(&self) -> (r: String)
        ensures
            r@ == self.contents(MemoryFile::User),
    {
        self.read_file(MemoryFile::User)
    }

    /// Write raw content to a memory file, overwriting existing content.
    pub fn write_file(&mut self, file: MemoryFile, content: &str)
        ensures
            final(self).contents(file) == content@,
            final(self).contents(other_file(file)) == old(self).contents(other_file(file)),
            final(self).base_path_s() == old(self).base_path_s(),
    {
        let s = string_of(chars_of(content).as_slice());
        match file {
            MemoryFile::Agent => self.agent = s,
            MemoryFile::User => self.user = s,
        }
    }

    /// Append content to a memory file.
    pub fn append_file(&mut self, file: MemoryFile, content: &str)
        ensures
            final(self).contents(file) == append_text_s(old(self).contents(file), content@),
            final(self).contents(other_file(file)) == old(self).contents(other_file(file)),
            final(self).base_path_s() == old(self).base_path_s(),
    {
        let existing = self.read_file(file);
        let updated = append_text(existing.as_str(), content);
        self.write_file(file, updated.as_str());
    }

    /// Append content to agent memory. Creates the file if it doesn't exist.
    pub fn append_agent_memory(&mut self, content: &str)
        ensures
            final(self).contents(MemoryFile::Agent) == append_text_s(
                old(self).contents(MemoryFile::Agent),
                content@,
            ),
            final(self).contents(MemoryFile::User) == old(self).contents(MemoryFile::User),
            final(self).base_path_s() == old(self).base_path_s(),
    {
        self.append_file(MemoryFile::Agent, content)
    }

    /// Append content to user memory. Creates the file if it doesn't exist.
    pub fn append_user_memory(&mut self, content: &str)
        ensures
            final(self).contents(MemoryFile::User) == append_text_s(
                old(self).contents(MemoryFile::User),
                content@,
            ),
            final(self).contents(MemoryFile::Agent) == old(self).contents(MemoryFile::Agent),
            final(self).base_path_s() == old(self).base_path_s(),
    {
        self.append_file(MemoryFile::User, content)
    }

    /// Update a section identified by `## heading`.
    ///
    /// Replaces everything from the line after the heading until the next
    /// `## ` heading (or end of file) with `new_content`.  Returns `true` if
    /// the section was found and updated, `false` (and changes nothing) if not.
    pub fn update_section(&mut self, file: MemoryFile, heading: &str, new_content: &str) -> (found: bool)
        ensures
            found == (replace_section_s(old(self).contents(file), heading@, new_content@) is Some),
            found ==> Some(final(self).contents(file)) == replace_section_s(
                old(self).contents(file),
                heading@,
                new_content@,
            ),
            !found ==> final(self).contents(file) == old(self).contents(file),
            final(self).contents(other_file(file)) == old(self).contents(other_file(file)),
            final(self).base_path_s() == old(self).base_path_s(),
    {
        let current = self.read_file(file);
        match replace_section(current.as_str(), heading, new_content) {
            Some(updated) => {
                self.write_file(file, updated.as_str());
                true
            },
            None => false,
        }
    }

    /// Remove a section identified by `## heading` (heading and body).
    ///
    /// Returns `true` if the section was found and removed, `false` (and
    /// changes nothing) if not.
    pub fn remove_section(&mut self, file: MemoryFile, heading: &str) -> (found: bool)
        ensures
            found == (remove_section_s(old(self).contents(file), heading@) is Some),
            found ==> Some(final(self).contents(file)) == remove_section_s(
                old(self).contents(file),
                heading@,
            ),
            !found ==> final(self).contents(file) == old(self).contents(file),
            final(self).contents(other_file(file)) == old(self).contents(other_file(file)),
            final(self).base_path_s() == old(self).base_path_s(),
    {
        let current = self.read_file(file);
        match remove_section_from_text(current.as_str(), heading) {
            Some(updated) => {
                self.write_file(file, updated.as_str());
                true
            },
            None => false,
        }
    }
}

/// The memory file that is not `file`.
pub open spec fn other_file(file: MemoryFile) -> MemoryFile {
    match file {
        MemoryFile::Agent => MemoryFile::User,
        MemoryFile::User => MemoryFile::Agent,
    }
}

} // verus!
