//! Skill files (`<skills_dir>/<name>/SKILL.md`): paths, and the partial
//! patches that rewrite parts of a file (trigger words in the YAML
//! frontmatter, the description line, the body).
use vstd::prelude::*;
use crate::error::{McError, owned};
use crate::memory::{MemoryStore, views, join_path, join_path_s, push_lines};
use crate::text::{
    chars_of, extend_chars, extend_range, lines_of, lines_s, lines_text, occurs_at_exec,
    starts_with_s, string_of, trim_bounds, trim_s, trim_start_s, is_ws, char_is_ws,
    lemma_lines_text_push, lemma_trim_start_skip,
};

verus! {

/// A partial update of a skill file. Fields left `None` are unchanged.
#[derive(Debug, Clone, Default)]
pub struct SkillPatch {
    /// New trigger words (replaces the `trigger_words` frontmatter field).
    pub trigger_words: Option<Vec<String>>,
    /// New description line (the first non-empty line after the frontmatter).
    pub description: Option<String>,
    /// New body (everything after the frontmatter).
    pub content: Option<String>,
}

// ───────────────────────────── specifications ─────────────────────────────

/// A frontmatter fence line.
pub open spec fn is_fence(l: Seq<char>) -> bool {
    trim_s(l) == "---"@
}

/// Index of the first fence line at or after `from`.
pub open spec fn first_fence_from(ls: Seq<Seq<char>>, from: int) -> Option<int> {
    if exists|k: int| from <= k < ls.len() && is_fence(#[trigger] ls[k]) {
        Some(
            choose|k: int|
                from <= k < ls.len() && is_fence(#[trigger] ls[k]) && forall|j: int|
                    from <= j < k ==> !is_fence(#[trigger] ls[j]),
        )
    } else {
        None
    }
}

/// `l` (with leading whitespace ignored) starts with `{key}:`.
pub open spec fn is_key_line(l: Seq<char>, key: Seq<char>) -> bool {
    starts_with_s(trim_start_s(l), key + ":"@)
}

/// Index of the first line in `(start, end)` that starts the field `key`.
pub open spec fn key_line(ls: Seq<Seq<char>>, key: Seq<char>, start: int, end: int) -> Option<int> {
    if exists|k: int| start < k < end && is_key_line(#[trigger] ls[k], key) {
        Some(
            choose|k: int|
                start < k < end && is_key_line(#[trigger] ls[k], key) && forall|j: int|
                    start < j < k ==> !is_key_line(#[trigger] ls[j], key),
        )
    } else {
        None
    }
}

/// A line that continues a YAML field value: indented, or a list item.
pub open spec fn is_continuation(l: Seq<char>) -> bool {
    starts_with_s(l, "  "@) || starts_with_s(l, "\t"@) || starts_with_s(trim_start_s(l), "- "@)
}

/// The first non-empty line in `[from, to)` continues the field.
pub open spec fn next_continues(ls: Seq<Seq<char>>, from: int, to: int) -> bool {
    exists|j: int|
        from <= j < to && ls[j].len() > 0 && is_continuation(#[trigger] ls[j]) && forall|m: int|
            from <= m < j ==> (#[trigger] ls[m]).len() == 0
}

/// Line `i` is where the field value ends.
pub open spec fn ends_field(ls: Seq<Seq<char>>, i: int, fm_end: int) -> bool {
    if ls[i].len() > 0 {
        !is_continuation(ls[i])
    } else {
        !next_continues(ls, i + 1, fm_end)
    }
}

/// The line index where the value of the field on line `key_idx` ends.
pub open spec fn field_end_s(ls: Seq<Seq<char>>, key_idx: int, fm_end: int) -> int {
    if exists|i: int| key_idx < i < fm_end && ends_field(ls, i, fm_end) {
        choose|i: int|
            key_idx < i < fm_end && ends_field(ls, i, fm_end) && forall|j: int|
                key_idx < j < i ==> !ends_field(ls, j, fm_end)
    } else {
        fm_end
    }
}

/// The frontmatter of `raw` with field `key` set to `value` (the text after the colon).
pub open spec fn replace_field_s(raw: Seq<char>, key: Seq<char>, value: Seq<char>) -> Result<Seq<char>, Seq<char>> {
    let ls = lines_s(raw);
    match first_fence_from(ls, 0) {
        None => Err("missing YAML frontmatter opening"@),
        Some(start) => match first_fence_from(ls, start + 1) {
            None => Err("missing YAML frontmatter closing"@),
            Some(end) => match key_line(ls, key, start, end) {
                None => Ok(lines_text(ls.take(end)) + key + ":"@ + value + seq!['\n'] + lines_text(ls.skip(end))),
                Some(k) => Ok(lines_text(ls.take(k)) + key + ":"@ + value + seq!['\n'] + lines_text(
                    ls.skip(field_end_s(ls, k, end)),
                )),
            },
        },
    }
}

/// Index of the first line after line 0 that holds nothing but `---`.
pub open spec fn description_line(ls: Seq<Seq<char>>) -> Option<int> {
    match first_fence_from(ls, 1) {
        None => None,
        Some(e) => if exists|i: int| e < i < ls.len() && trim_s(#[trigger] ls[i]).len() > 0 {
            Some(
                choose|i: int|
                    e < i < ls.len() && trim_s(#[trigger] ls[i]).len() > 0 && forall|j: int|
                        e < j < i ==> trim_s(#[trigger] ls[j]).len() == 0,
            )
        } else {
            None
        },
    }
}

/// `raw` with its description line replaced by `desc`, or `raw` unchanged when it has none.
pub open spec fn replace_description_s(raw: Seq<char>, desc: Seq<char>) -> Seq<char> {
    let ls = lines_s(raw);
    match description_line(ls) {
        None => raw,
        Some(i) => lines_text(ls.update(i, desc)),
    }
}

/// `description_line` is the first non-blank line after the closing fence,
/// or `None` when there is no closing fence or no such line.
pub proof fn lemma_description_line(ls: Seq<Seq<char>>)
    ensures
        match description_line(ls) {
            Some(i) => first_fence_from(ls, 1) matches Some(e) && e < i < ls.len() && trim_s(ls[i]).len() > 0
                && forall|j: int| e < j < i ==> trim_s(#[trigger] ls[j]).len() == 0,
            None => match first_fence_from(ls, 1) {
                None => true,
                Some(e) => forall|i: int| e < i < ls.len() ==> trim_s(#[trigger] ls[i]).len() == 0,
            },
        },
{
    if let Some(e) = first_fence_from(ls, 1) {
        if exists|i: int| e < i < ls.len() && trim_s(#[trigger] ls[i]).len() > 0 {
            let k = choose|i: int| e < i < ls.len() && trim_s(#[trigger] ls[i]).len() > 0;
            let p = |i: int| e < i < ls.len() && trim_s(ls[i]).len() > 0;
            assert(p(k));
            crate::text::lemma_least_from(p, e + 1, k);
            let m = choose|m: int| e + 1 <= m <= k && #[trigger] p(m) && forall|j: int| e + 1 <= j < m ==> !#[trigger] p(j);
            assert forall|j: int| e < j < m implies trim_s(#[trigger] ls[j]).len() == 0 by {
                assert(!p(j));
            }
        }
    }
}

/// `body` followed by a newline unless it already ends with one.
pub open spec fn ensure_newline(body: Seq<char>) -> Seq<char> {
    if body.len() > 0 && body.last() == '\n' {
        body
    } else {
        body.push('\n')
    }
}

/// The frontmatter of `raw` (through its closing fence), a blank line, then `body`.
pub open spec fn replace_body_s(raw: Seq<char>, body: Seq<char>) -> Result<Seq<char>, Seq<char>> {
    let ls = lines_s(raw);
    match first_fence_from(ls, 0) {
        None => Err("missing YAML frontmatter opening"@),
        Some(start) => match first_fence_from(ls, start + 1) {
            None => Err("missing YAML frontmatter closing"@),
            Some(end) => Ok(lines_text(ls.take(end + 1)) + seq!['\n'] + ensure_newline(body)),
        },
    }
}

/// The items as YAML block-list lines, each on a new line after `  - `.
pub open spec fn yaml_items(items: Seq<Seq<char>>) -> Seq<char>
    decreases items.len(),
{
    if items.len() == 0 {
        seq![]
    } else {
        yaml_items(items.drop_last()) + "\n  - "@ + items.last()
    }
}

/// A list as the value of a YAML field: `[]` when empty, else a block list.
pub open spec fn yaml_list_s(items: Seq<Seq<char>>) -> Seq<char> {
    if items.len() == 0 {
        "[]"@
    } else {
        yaml_items(items)
    }
}

/// Views of a list of strings.
pub open spec fn string_views(v: Seq<String>) -> Seq<Seq<char>> {
    v.map_values(|s: String| s@)
}

/// The result of applying a patch: trigger words, then description, then body.
pub open spec fn apply_patch_s(raw: Seq<char>, patch: SkillPatch) -> Result<Seq<char>, Seq<char>> {
    let r1 = match patch.trigger_words {
        Some(tw) => replace_field_s(raw, "trigger_words"@, yaml_list_s(string_views(tw@))),
        None => Ok(raw),
    };
    match r1 {
        Err(e) => Err(e),
        Ok(t1) => {
            let t2 = match patch.description {
                Some(d) => replace_description_s(t1, d@),
                None => t1,
            };
            match patch.content {
                Some(c) => replace_body_s(t2, c@),
                None => Ok(t2),
            }
        },
    }
}

/// A skill error carrying exactly the message `m`.
pub open spec fn is_skill_error(e: McError, m: Seq<char>) -> bool {
    e matches McError::Skill(s) && s@ == m
}

// ───────────────────────────── executable functions ─────────────────────────────

/// Whether a line holds nothing but `---` (surrounding whitespace ignored).
fn line_is_fence(l: &[char], fence: &Vec<char>) -> (r: bool)
    requires
        fence@ == "---"@,
    ensures
        r == is_fence(l@),
{
    let (a, b) = trim_bounds(l);
    if b - a != fence.len() {
        return false;
    }
    let r = occurs_at_exec(l, fence.as_slice(), a);
    assert(l@.subrange(a as int, a + fence@.len()) =~= l@.subrange(a as int, b as int));
    r
}

/// Index of the first fence line at or after `from`.
fn find_fence(lines: &Vec<Vec<char>>, from: usize) -> (r: Option<usize>)
    ensures
        r matches Some(k) ==> first_fence_from(views(lines@), from as int) == Some(k as int) && from
            <= k < lines@.len(),
        r is None ==> first_fence_from(views(lines@), from as int) is None,
{
    let ghost ls = views(lines@);
    let mut fence: Vec<char> = Vec::new();
    extend_chars(&mut fence, "---");
    let mut k = from;
    while k < lines.len()
        invariant
            ls == views(lines@),
            fence@ == "---"@,
            from <= k,
            k <= lines@.len() || k == from,
            forall|j: int| from <= j < k && j < ls.len() ==> !is_fence(#[trigger] ls[j]),
        decreases lines.len() - k,
    {
        assert(ls[k as int] == lines@[k as int]@);
        if line_is_fence(lines[k].as_slice(), &fence) {
            proof {
                let c = choose|c: int|
                    from <= c < ls.len() && is_fence(#[trigger] ls[c]) && forall|j: int|
                        from <= j < c ==> !is_fence(#[trigger] ls[j]);
                assert(from <= c < ls.len() && is_fence(ls[c]));
                if c < k {
                    assert(!is_fence(ls[c]));
                }
                if k < c {
                    assert(!is_fence(ls[k as int]));
                }
            }
            return Some(k);
        }
        k = k + 1;
    }
    None
}

/// Leading-whitespace-trimmed start of `l`.
pub fn trim_start_index(l: &[char]) -> (i: usize)
    ensures
        i <= l@.len(),
        trim_start_s(l@) == l@.skip(i as int),
{
    let mut i: usize = 0;
    while i < l.len() && char_is_ws(l[i])
        invariant
            i <= l@.len(),
            forall|j: int| 0 <= j < i ==> is_ws(#[trigger] l@[j]),
        decreases l.len() - i,
    {
        i = i + 1;
    }
    proof {
        lemma_trim_start_skip(l@, i as int);
        if i < l@.len() {
            assert(l@.skip(i as int)[0] == l@[i as int]);
        }
        assert(trim_start_s(l@.skip(i as int)) == l@.skip(i as int));
    }
    i
}

/// Whether `t` (a string slice) occurs in `l` at position `i`.
fn occurs_str(l: &[char], t: &Vec<char>, i: usize) -> (r: bool)
    requires
        i <= l@.len(),
    ensures
        r == starts_with_s(l@.skip(i as int), t@),
{
    let r = occurs_at_exec(l, t.as_slice(), i);
    proof {
        if i + t@.len() <= l@.len() {
            assert(l@.skip(i as int).subrange(0, t@.len() as int) =~= l@.subrange(
                i as int,
                i + t@.len(),
            ));
        }
    }
    r
}

/// Whether the line starts the field `key`.
fn line_is_key(l: &[char], key_colon: &Vec<char>, Ghost(key): Ghost<Seq<char>>) -> (r: bool)
    requires
        key_colon@ == key + ":"@,
    ensures
        r == is_key_line(l@, key),
{
    let i = trim_start_index(l);
    occurs_str(l, key_colon, i)
}

/// Whether the line continues a field value.
fn line_is_continuation(l: &[char]) -> (r: bool)
    ensures
        r == is_continuation(l@),
{
    let mut two: Vec<char> = Vec::new();
    extend_chars(&mut two, "  ");
    let mut tab: Vec<char> = Vec::new();
    extend_chars(&mut tab, "\t");
    let mut dash: Vec<char> = Vec::new();
    extend_chars(&mut dash, "- ");
    assert(l@.skip(0) =~= l@);
    let a = occurs_str(l, &two, 0);
    let b = occurs_str(l, &tab, 0);
    let i = trim_start_index(l);
    let c = occurs_str(l, &dash, i);
    a || b || c
}

/// Whether the first non-empty line in `[from, to)` continues the field.
fn next_continues_exec(lines: &Vec<Vec<char>>, from: usize, to: usize) -> (r: bool)
    requires
        from <= to <= lines@.len(),
    ensures
        r == next_continues(views(lines@), from as int, to as int),
{
    let ghost ls = views(lines@);
    let mut j = from;
    while j < to
        invariant
            ls == views(lines@),
            from <= j <= to <= lines@.len(),
            forall|m: int| from <= m < j ==> (#[trigger] ls[m]).len() == 0,
        decreases to - j,
    {
        assert(ls[j as int] == lines@[j as int]@);
        if lines[j].len() > 0 {
            let r = line_is_continuation(lines[j].as_slice());
            proof {
                if !r {
                    assert forall|j2: int|
                        !(from <= j2 < to && ls[j2].len() > 0 && is_continuation(#[trigger] ls[j2])
                            && forall|m: int| from <= m < j2 ==> (#[trigger] ls[m]).len() == 0) by {
                        if from <= j2 < to && ls[j2].len() > 0 && forall|m: int|
                            from <= m < j2 ==> (#[trigger] ls[m]).len() == 0 {
                            if j2 > j {
                                assert(ls[j as int].len() == 0);
                            }
                        }
                    }
                }
            }
            return r;
        }
        j = j + 1;
    }
    proof {
        assert forall|j2: int|
            !(from <= j2 < to && ls[j2].len() > 0 && is_continuation(#[trigger] ls[j2]) && forall|m: int|
                from <= m < j2 ==> (#[trigger] ls[m]).len() == 0) by {
            if from <= j2 < to {
                assert(ls[j2].len() == 0);
            }
        }
    }
    false
}

/// Find the line index where a YAML field's value ends.
///
/// A field's value continues on indented lines or list items (`  - `).
/// It ends when we hit a non-indented line or the closing `---`.
pub fn find_field_end(lines: &Vec<Vec<char>>, key_idx: usize, frontmatter_end: usize) -> (r: usize)
    requires
        key_idx < frontmatter_end <= lines@.len(),
    ensures
        r == field_end_s(views(lines@), key_idx as int, frontmatter_end as int),
        key_idx < r <= frontmatter_end,
{
    let ghost ls = views(lines@);
    let mut i = key_idx + 1;
    while i < frontmatter_end
        invariant
            ls == views(lines@),
            key_idx < i <= frontmatter_end <= lines@.len(),
            forall|j: int| key_idx < j < i ==> !ends_field(ls, j, frontmatter_end as int),
        decreases frontmatter_end - i,
    {
        assert(ls[i as int] == lines@[i as int]@);
        let ends = if lines[i].len() > 0 {
            !line_is_continuation(lines[i].as_slice())
        } else {
            !next_continues_exec(lines, i + 1, frontmatter_end)
        };
        if ends {
            assert(ends_field(ls, i as int, frontmatter_end as int));
            proof {
                let c = choose|c: int|
                    key_idx < c < frontmatter_end && ends_field(ls, c, frontmatter_end as int)
                        && forall|j: int| key_idx < j < c ==> !ends_field(ls, j, frontmatter_end as int);
                assert(key_idx < c < frontmatter_end && ends_field(ls, c, frontmatter_end as int));
                if c < i {
                    assert(!ends_field(ls, c, frontmatter_end as int));
                }
                if i < c {
                    assert(!ends_field(ls, i as int, frontmatter_end as int));
                }
            }
            return i;
        }
        i = i + 1;
    }
    frontmatter_end
}

/// Index of the first line in `(start, end)` that starts the field `key`.
fn find_key_line(lines: &Vec<Vec<char>>, key: &str, start: usize, end: usize) -> (r: Option<usize>)
    requires
        start < end <= lines@.len(),
    ensures
        r matches Some(k) ==> key_line(views(lines@), key@, start as int, end as int) == Some(k as int)
            && start < k < end,
        r is None ==> key_line(views(lines@), key@, start as int, end as int) is None,
{
    let ghost ls = views(lines@);
    let mut key_colon: Vec<char> = Vec::new();
    extend_chars(&mut key_colon, key);
    extend_chars(&mut key_colon, ":");
    let mut k = start + 1;
    while k < end
        invariant
            ls == views(lines@),
            key_colon@ == key@ + ":"@,
            start < k <= end <= lines@.len(),
            forall|j: int| start < j < k ==> !is_key_line(#[trigger] ls[j], key@),
        decreases end - k,
    {
        assert(ls[k as int] == lines@[k as int]@);
        if line_is_key(lines[k].as_slice(), &key_colon, Ghost(key@)) {
            proof {
                let c = choose|c: int|
                    start < c < end && is_key_line(#[trigger] ls[c], key@) && forall|j: int|
                        start < j < c ==> !is_key_line(#[trigger] ls[j], key@);
                assert(start < c < end && is_key_line(ls[c], key@));
                if c < k {
                    assert(!is_key_line(ls[c], key@));
                }
                if k < c {
                    assert(!is_key_line(ls[k as int], key@));
                }
            }
            return Some(k);
        }
        k = k + 1;
    }
    None
}

/// Replace a field's value in the YAML frontmatter.
///
/// Finds the line starting with `{key}:` inside the `---` fences and replaces
/// everything from that line until the next top-level key (or closing `---`).
/// A missing key is added just before the closing fence.
pub fn replace_frontmatter_field(raw: &str, key: &str, new_value: &str) -> (r: Result<String, McError>)
    ensures
        r matches Ok(t) ==> replace_field_s(raw@, key@, new_value@) == Ok::<Seq<char>, Seq<char>>(t@),
        r matches Err(e) ==> replace_field_s(raw@, key@, new_value@) matches Err(m) && is_skill_error(e, m),
{
    let rv = chars_of(raw);
    let lines = lines_of(rv.as_slice());
    let ghost ls = views(lines@);
    assert(ls =~= lines_s(raw@));
    let start = match find_fence(&lines, 0) {
        Some(s) => s,
        None => return Err(McError::Skill(owned("missing YAML frontmatter opening"))),
    };
    let end = match find_fence(&lines, start + 1) {
        Some(e) => e,
        None => return Err(McError::Skill(owned("missing YAML frontmatter closing"))),
    };
    let mut out: Vec<char> = Vec::new();
    let (keep_to, resume_at) = match find_key_line(&lines, key, start, end) {
        None => (end, end),
        Some(k) => (k, find_field_end(&lines, k, end)),
    };
    push_lines(&mut out, &lines, 0, keep_to);
    let ghost a = out@;
    assert(ls.subrange(0, keep_to as int) =~= ls.take(keep_to as int));
    extend_chars(&mut out, key);
    extend_chars(&mut out, ":");
    extend_chars(&mut out, new_value);
    out.push('\n');
    let ghost b = out@;
    assert(b =~= a + key@ + ":"@ + new_value@ + seq!['\n']);
    push_lines(&mut out, &lines, resume_at, lines.len());
    assert(ls.subrange(resume_at as int, ls.len() as int) =~= ls.skip(resume_at as int));
    assert(out@ =~= b + lines_text(ls.skip(resume_at as int)));
    Ok(string_of(out.as_slice()))
}

/// Replace the description line (first non-empty line after the closing `---`).
pub fn replace_description_line(raw: &str, new_desc: &str) -> (r: String)
    ensures
        r@ == replace_description_s(raw@, new_desc@),
{
    let rv = chars_of(raw);
    let lines = lines_of(rv.as_slice());
    let ghost ls = views(lines@);
    assert(ls =~= lines_s(raw@));
    let end_fence = match find_fence(&lines, 1) {
        Some(e) => e,
        None => return owned(raw),
    };
    let mut i = end_fence + 1;
    while i < lines.len()
        invariant
            ls == views(lines@),
            ls == lines_s(raw@),
            first_fence_from(ls, 1) == Some(end_fence as int),
            end_fence < i <= lines@.len(),
            forall|j: int| end_fence < j < i ==> trim_s(#[trigger] ls[j]).len() == 0,
        decreases lines.len() - i,
    {
        assert(ls[i as int] == lines@[i as int]@);
        let (a, b) = trim_bounds(lines[i].as_slice());
        if b > a {
            assert(trim_s(ls[i as int]).len() > 0);
            proof {
                let c = choose|c: int|
                    end_fence < c < ls.len() && trim_s(#[trigger] ls[c]).len() > 0 && forall|j: int|
                        end_fence < j < c ==> trim_s(#[trigger] ls[j]).len() == 0;
                assert(end_fence < c < ls.len() && trim_s(ls[c]).len() > 0);
                if c < i {
                    assert(trim_s(ls[c]).len() == 0);
                }
                if i < c {
                    assert(trim_s(ls[i as int]).len() == 0);
                }
            }
            let mut out: Vec<char> = Vec::new();
            push_lines(&mut out, &lines, 0, i);
            let ghost p1 = out@;
            extend_chars(&mut out, new_desc);
            out.push('\n');
            let ghost p2 = out@;
            push_lines(&mut out, &lines, i + 1, lines.len());
            proof {
                let u = ls.update(i as int, new_desc@);
                assert(u.subrange(0, i as int) =~= ls.subrange(0, i as int));
                assert(u.subrange(0, i + 1) =~= ls.subrange(0, i as int).push(new_desc@));
                lemma_lines_text_push(ls.subrange(0, i as int), new_desc@);
                assert(p2 =~= lines_text(u.subrange(0, i + 1)));
                assert(u.subrange(i + 1, u.len() as int) =~= ls.subrange(i + 1, ls.len() as int));
                crate::memory::lemma_text_split(u, i + 1);
                assert(out@ == p2 + lines_text(ls.subrange(i + 1, ls.len() as int)));
                assert(out@ == lines_text(u));
                assert(description_line(ls) == Some(i as int));
            }
            return string_of(out.as_slice());
        }
        i = i + 1;
    }
    owned(raw)
}

/// Replace everything after the YAML frontmatter with new body content.
#[verifier::rlimit(40)]
pub fn replace_body(raw: &str, new_body: &str) -> (r: Result<String, McError>)
    ensures
        r matches Ok(t) ==> replace_body_s(raw@, new_body@) == Ok::<Seq<char>, Seq<char>>(t@),
        r matches Err(e) ==> replace_body_s(raw@, new_body@) matches Err(m) && is_skill_error(e, m),
{
    let rv = chars_of(raw);
    let lines = lines_of(rv.as_slice());
    let ghost ls = views(lines@);
    assert(ls =~= lines_s(raw@));
    let start = match find_fence(&lines, 0) {
        Some(s) => s,
        None => return Err(McError::Skill(owned("missing YAML frontmatter opening"))),
    };
    let end = match find_fence(&lines, start + 1) {
        Some(e) => e,
        None => return Err(McError::Skill(owned("missing YAML frontmatter closing"))),
    };
    let mut out: Vec<char> = Vec::new();
    push_lines(&mut out, &lines, 0, end + 1);
    assert(ls.subrange(0, end + 1) =~= ls.take(end + 1));
    out.push('\n');
    let ghost a = out@;
    assert(a =~= lines_text(ls.take(end + 1)) + seq!['\n']);
    let body = chars_of(new_body);
    extend_range(&mut out, body.as_slice(), 0, body.len());
    assert(body@.subrange(0, body@.len() as int) =~= body@);
    let n = body.len();
    if !(n > 0 && body[n - 1] == '\n') {
        out.push('\n');
    }
    assert(out@ =~= a + ensure_newline(new_body@));
    Ok(string_of(out.as_slice()))
}

/// Format a list of strings as the value of a YAML field.
///
/// ```yaml
/// trigger_words:
///   - foo
///   - bar
/// ```
pub fn format_yaml_list(items: &[String]) -> (r: String)
    ensures
        r@ == yaml_list_s(string_views(items@)),
{
    if items.len() == 0 {
        return owned("[]");
    }
    let mut out: Vec<char> = Vec::new();
    let mut i: usize = 0;
    while i < items.len()
        invariant
            i <= items@.len(),
            out@ == yaml_items(string_views(items@.take(i as int))),
        decreases items.len() - i,
    {
        extend_chars(&mut out, "\n  - ");
        extend_chars(&mut out, items[i].as_str());
        proof {
            let sv = string_views(items@.take(i + 1));
            assert(sv.drop_last() =~= string_views(items@.take(i as int)));
            assert(sv.last() == items@[i as int]@);
        }
        i = i + 1;
    }
    assert(items@.take(items@.len() as int) =~= items@);
    string_of(out.as_slice())
}

/// Apply a `SkillPatch` to the raw SKILL.md content.
///
/// Returns the patched content. Only non-`None` fields are modified.
pub fn apply_patch(raw: &str, patch: &SkillPatch) -> (r: Result<String, McError>)
    ensures
        r matches Ok(t) ==> apply_patch_s(raw@, *patch) == Ok::<Seq<char>, Seq<char>>(t@),
        r matches Err(e) ==> apply_patch_s(raw@, *patch) matches Err(m) && is_skill_error(e, m),
{
    let mut result = owned(raw);
    if let Some(trigger_words) = &patch.trigger_words {
        let list = format_yaml_list(trigger_words.as_slice());
        result = replace_frontmatter_field(result.as_str(), "trigger_words", list.as_str())?;
    }
    if let Some(description) = &patch.description {
        result = replace_description_line(result.as_str(), description.as_str());
    }
    if let Some(content) = &patch.content {
        result = replace_body(result.as_str(), content.as_str())?;
    }
    Ok(result)
}

// ───────────────────────────── the manager ─────────────────────────────

/// Where skills live: each skill at `<skills_dir>/<name>/SKILL.md`.
#[derive(Debug, Clone)]
pub struct SkillManager {
    skills_dir: String,
    memory_store: MemoryStore,
}

impl SkillManager {
    /// The skills directory.
    pub closed spec fn skills_dir_s(&self) -> Seq<char> {
        self.skills_dir@
    }

    /// The memory store handed in at creation.
    pub closed spec fn memory_store_s(&self) -> MemoryStore {
        self.memory_store
    }

    /// Create a new SkillManager.
    pub fn new(skills_dir: &str, memory_store: MemoryStore) -> (r: Self)
        ensures
            r.skills_dir_s() == skills_dir@,
            r.memory_store_s() == memory_store,
    {
        SkillManager { skills_dir: owned(skills_dir), memory_store }
    }

    /// Return the skills directory path.
    pub fn skills_dir(&self) -> (r: &str)
        ensures
            r@ == self.skills_dir_s(),
    {
        self.skills_dir.as_str()
    }

    /// Return a reference to the underlying memory store.
    pub fn memory_store(&self) -> (r: &MemoryStore)
        ensures
            *r == self.memory_store_s(),
    {
        &self.memory_store
    }

    /// Resolve the directory path for a skill.
    pub fn skill_dir(&self, name: &str) -> (r: String)
        ensures
            r@ == join_path_s(self.skills_dir_s(), name@),
    {
        join_path(self.skills_dir.as_str(), name)
    }

    /// The path of a skill's `SKILL.md`.
    pub fn skill_file(&self, name: &str) -> (r: String)
        ensures
            r@ == join_path_s(join_path_s(self.skills_dir_s(), name@), "SKILL.md"@),
    {
        let d = self.skill_dir(name);
        join_path(d.as_str(), "SKILL.md")
    }
}


/// A lifecycle operation on a skill.
#[derive(Debug, Clone, Copy, PartialEq, Eq, Structural)]
pub enum UsageOperation {
    /// The skill was created.
    Create,
    /// Its whole text was replaced.
    Edit,
    /// Parts of it were patched.
    Patch,
    /// It was deleted.
    Delete,
}

/// Who asked for an operation.
#[derive(Debug, Clone, Copy, PartialEq, Eq, Structural)]
pub enum SkillProvenance {
    /// The agent itself (for example after a background review).
    Agent,
    /// The user.
    User,
}

/// One recorded operation. The time is UNIX seconds.
#[derive(Debug, Clone)]
pub struct UsageEntry {
    /// The skill operated on.
    pub skill_name: String,
    /// What was done.
    pub operation: UsageOperation,
    /// Who asked for it.
    pub provenance: SkillProvenance,
    /// When.
    pub timestamp: i64,
}

/// The recorded operations, oldest first.
#[derive(Debug, Clone)]
pub struct SkillUsageLog {
    /// The entries, in the order they were recorded.
    pub entries: Vec<UsageEntry>,
}

impl SkillUsageLog {
    /// An empty log (what a missing or unreadable log file reads as).
    pub fn new() -> (r: Self)
        ensures
            r.entries@.len() == 0,
    {
        SkillUsageLog { entries: Vec::new() }
    }

    /// Record an operation at `now`: the log gains one entry at its end and
    /// keeps every earlier one.
    pub fn record(&mut self, skill_name: &str, operation: UsageOperation, provenance: SkillProvenance, now: i64)
        ensures
            final(self).entries@.len() == old(self).entries@.len() + 1,
            final(self).entries@.take(old(self).entries@.len() as int) == old(self).entries@,
            final(self).entries@.last().skill_name@ == skill_name@,
            final(self).entries@.last().operation == operation,
            final(self).entries@.last().provenance == provenance,
            final(self).entries@.last().timestamp == now,
    {
        let ghost before = self.entries@;
        self.entries.push(UsageEntry { skill_name: owned(skill_name), operation, provenance, timestamp: now });
        assert(self.entries@.take(before.len() as int) =~= before);
    }
}

/// Records the lifecycle events of skills in `.usage-log.json` inside the
/// skills directory: the log's entries are kept by [`SkillUsageLog`]; the
/// file is read and written by the caller.
pub struct UsageTracker {
    path: String,
}

impl UsageTracker {
    /// The file the events are recorded in.
    pub closed spec fn path_s(&self) -> Seq<char> {
        self.path@
    }

    /// A tracker that writes to `<skills_dir>/.usage-log.json`.
    pub fn new(skills_dir: &str) -> (r: Self)
        ensures
            r.path_s() == crate::memory::join_path_s(skills_dir@, ".usage-log.json"@),
    {
        UsageTracker { path: crate::memory::join_path(skills_dir, ".usage-log.json") }
    }

    /// Return the path to the usage file.
    pub fn path(&self) -> (r: &str)
        ensures
            r@ == self.path_s(),
    {
        self.path.as_str()
    }
}

} // verus!
