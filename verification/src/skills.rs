//! Skills: SKILL.md frontmatter splitting, trigger matching, summaries for
//! the system prompt, and the set of loaded skills with fuzzy lookup.
//! Walking directories and parsing the YAML frontmatter happen outside the
//! library.
use vstd::prelude::*;
use crate::manager::trim_start_index;
use crate::text::{
    chars_of, extend_chars, extend_range, string_of, str_eq, trim_s, trim_start_s, find_s, find_chars,
    starts_with_s, starts_with_chars, lines_s, lines_of, trim_chars, contains_s, contains_chars,
    str_lower, to_lowercase, strs_view, sort_strings, sorted_strs, join_s, push_str, occurs_at,
};
use crate::tools::join_strings;

verus! {

/// Metadata parsed from the YAML frontmatter of a SKILL.md file.
#[derive(Debug, Clone)]
pub struct SkillMetadata {
    /// Words or phrases that trigger this skill.
    pub trigger_words: Vec<String>,
    /// Semantic version string (e.g. "1.0.0").
    pub version: String,
    /// Author or maintainer name.
    pub author: String,
    /// Names of other skills this skill depends on.
    pub dependencies: Vec<String>,
}

impl SkillMetadata {
    /// No trigger words, version, author or dependencies.
    pub fn empty() -> (r: Self)
        ensures
            r.trigger_words@.len() == 0,
            r.version@ == Seq::<char>::empty(),
            r.author@ == Seq::<char>::empty(),
            r.dependencies@.len() == 0,
    {
        SkillMetadata { trigger_words: Vec::new(), version: String::new(), author: String::new(), dependencies: Vec::new() }
    }
}

/// A fully loaded skill from a SKILL.md file.
#[derive(Debug, Clone)]
pub struct Skill {
    /// Skill name (the containing directory's name).
    pub name: String,
    /// One-line description (the first non-empty body line, without `#`).
    pub description: String,
    /// The Markdown body (everything after the frontmatter), trimmed.
    pub content: String,
    /// Parsed YAML frontmatter metadata.
    pub metadata: SkillMetadata,
    /// Path to the SKILL.md file on disk.
    pub path: String,
}

/// `name — description`.
pub open spec fn skill_summary_s(name: Seq<char>, description: Seq<char>) -> Seq<char> {
    name + " — "@ + description
}

/// A trigger word matches a query when either contains the other,
/// ignoring case.
pub open spec fn trigger_hit_s(word: Seq<char>, query: Seq<char>) -> bool {
    contains_s(str_lower(query), str_lower(word)) || contains_s(str_lower(word), str_lower(query))
}

/// Some trigger word matches the query.
pub open spec fn matches_trigger_s(words: Seq<Seq<char>>, query: Seq<char>) -> bool {
    exists|k: int| 0 <= k < words.len() && trigger_hit_s(#[trigger] words[k], query)
}

/// The skills a list of references points to.
pub open spec fn deref_skills(v: Seq<&Skill>) -> Seq<Skill> {
    v.map_values(|s: &Skill| *s)
}

/// The skills a query triggers.
pub open spec fn trigger_pred(query: Seq<char>) -> spec_fn(Skill) -> bool {
    |s: Skill| matches_trigger_s(strs_view(s.metadata.trigger_words@), query)
}

impl Skill {
    /// A short summary suitable for system-prompt injection: `name — description`.
    pub fn summary(&self) -> (r: String)
        ensures
            r@ == skill_summary_s(self.name@, self.description@),
    {
        let mut s = self.name.clone();
        push_str(&mut s, " — ");
        push_str(&mut s, self.description.as_str());
        s
    }

    /// Whether `query` matches any of this skill's trigger words
    /// (case-insensitive, substring either way).
    pub fn matches_trigger(&self, query: &str) -> (r: bool)
        ensures
            r == matches_trigger_s(strs_view(self.metadata.trigger_words@), query@),
    {
        let q = chars_of(to_lowercase(query).as_str());
        let ghost words = strs_view(self.metadata.trigger_words@);
        let mut i: usize = 0;
        while i < self.metadata.trigger_words.len()
            invariant
                i <= self.metadata.trigger_words@.len(),
                words == strs_view(self.metadata.trigger_words@),
                q@ == str_lower(query@),
                forall|k: int| 0 <= k < i ==> !trigger_hit_s(#[trigger] words[k], query@),
            decreases self.metadata.trigger_words.len() - i,
        {
            let w = chars_of(to_lowercase(self.metadata.trigger_words[i].as_str()).as_str());
            if contains_chars(q.as_slice(), w.as_slice()) || contains_chars(w.as_slice(), q.as_slice()) {
                assert(trigger_hit_s(words[i as int], query@));
                return true;
            }
            i = i + 1;
        }
        false
    }
}

// ───────────────────────────── SKILL.md ─────────────────────────────

/// The pieces of a SKILL.md file: the YAML frontmatter text, the body and
/// the description.
#[derive(Debug, Clone)]
pub struct SkillParts {
    /// The frontmatter between the `---` lines (not yet parsed).
    pub frontmatter: String,
    /// The body after the frontmatter, trimmed.
    pub body: String,
    /// The first non-empty body line, trimmed and without leading `#`.
    pub description: String,
}

/// Leading `#` characters removed.
pub open spec fn strip_hashes_s(s: Seq<char>) -> Seq<char>
    decreases s.len(),
{
    if s.len() > 0 && s[0] == '#' {
        strip_hashes_s(s.drop_first())
    } else {
        s
    }
}

/// The first line of `ls` from `i` on that is not blank.
pub open spec fn first_nonblank(ls: Seq<Seq<char>>, i: int) -> Option<Seq<char>>
    decreases ls.len() - i,
{
    if i < 0 || i >= ls.len() {
        None
    } else if trim_s(ls[i]).len() > 0 {
        Some(ls[i])
    } else {
        first_nonblank(ls, i + 1)
    }
}

/// The description of a body: its first non-blank line, trimmed, without
/// leading `#`, trimmed again; empty when there is none.
pub open spec fn description_s(body: Seq<char>) -> Seq<char> {
    match first_nonblank(lines_s(body), 0) {
        Some(l) => trim_s(strip_hashes_s(trim_s(l))),
        None => Seq::empty(),
    }
}

/// How a SKILL.md text splits: frontmatter, body and description, or the
/// error for a missing or unterminated frontmatter.
pub open spec fn skill_md_s(raw: Seq<char>) -> Result<(Seq<char>, Seq<char>, Seq<char>), Seq<char>> {
    let t = trim_start_s(raw);
    if !starts_with_s(t, "---"@) {
        Err("missing YAML frontmatter (must start with '---')"@)
    } else {
        let after = t.skip(3);
        match find_s(after, "\n---"@) {
            None => Err("unterminated YAML frontmatter (missing closing '---')"@),
            Some(end) => {
                let body = trim_s(after.skip(end + 4));
                Ok((after.take(end), body, description_s(body)))
            },
        }
    }
}

/// The description of a skill body.
pub fn describe(body: &Vec<char>) -> (r: Vec<char>)
    ensures
        r@ == description_s(body@),
{
    let lines = lines_of(body.as_slice());
    let ghost ls = lines_s(body@);
    let mut i: usize = 0;
    while i < lines.len()
        invariant
            i <= lines@.len(),
            lines@.len() == ls.len(),
            forall|k: int| 0 <= k < lines@.len() ==> #[trigger] lines@[k]@ == ls[k],
            first_nonblank(ls, i as int) == first_nonblank(ls, 0),
            ls == lines_s(body@),
        decreases lines.len() - i,
    {
        let t = trim_chars(lines[i].as_slice());
        if t.len() > 0 {
            let mut k: usize = 0;
            assert(t@.skip(0) =~= t@);
            while k < t.len() && t[k] == '#'
                invariant
                    k <= t@.len(),
                    strip_hashes_s(t@.skip(k as int)) == strip_hashes_s(t@),
                    t@ == trim_s(ls[i as int]),
                    t@.len() > 0,
                    i < ls.len(),
                    first_nonblank(ls, i as int) == first_nonblank(ls, 0),
                    ls == lines_s(body@),
                decreases t.len() - k,
            {
                assert(t@.skip(k as int).drop_first() =~= t@.skip(k + 1));
                k = k + 1;
            }
            let mut rest: Vec<char> = Vec::new();
            extend_range(&mut rest, t.as_slice(), k, t.len());
            assert(rest@ =~= t@.skip(k as int));
            if k < t.len() {
                assert(rest@[0] == t@[k as int]);
            }
            assert(strip_hashes_s(rest@) == rest@);
            assert(first_nonblank(ls, i as int) == Some(ls[i as int]));
            return trim_chars(rest.as_slice());
        }
        i = i + 1;
    }
    let v: Vec<char> = Vec::new();
    assert(v@ =~= Seq::<char>::empty());
    v
}

/// Split a SKILL.md text into frontmatter, body and description.
///
/// The text must start (after leading whitespace) with `---` and the
/// frontmatter ends at the next line that starts with `---`.
#[verifier::rlimit(40)]
pub fn parse_skill_md(raw: &str) -> (r: Result<SkillParts, String>)
    ensures
        match skill_md_s(raw@) {
            Ok((fm, body, desc)) => r matches Ok(p) && p.frontmatter@ == fm && p.body@ == body && p.description@ == desc,
            Err(m) => r matches Err(e) && e@ == m,
        },
{
    let v = chars_of(raw);
    let ts = trim_start_index(v.as_slice());
    let mut t: Vec<char> = Vec::new();
    extend_range(&mut t, v.as_slice(), ts, v.len());
    assert(t@ =~= trim_start_s(raw@));
    let dashes = chars_of("---");
    if !starts_with_chars(t.as_slice(), dashes.as_slice()) {
        return Err("missing YAML frontmatter (must start with '---')".to_owned());
    }
    proof {
        reveal_strlit("---");
        reveal_strlit("\n---");
    }
    let mut after: Vec<char> = Vec::new();
    extend_range(&mut after, t.as_slice(), 3, t.len());
    assert(after@ =~= t@.skip(3));
    let closing = chars_of("\n---");
    let end = match find_chars(after.as_slice(), closing.as_slice()) {
        Some(e) => e,
        None => {
            return Err("unterminated YAML frontmatter (missing closing '---')".to_owned());
        },
    };
    assert(occurs_at(after@, closing@, end as int));
    let mut fm: Vec<char> = Vec::new();
    extend_range(&mut fm, after.as_slice(), 0, end);
    assert(fm@ =~= after@.take(end as int));
    let mut rest: Vec<char> = Vec::new();
    extend_range(&mut rest, after.as_slice(), end + 4, after.len());
    assert(rest@ =~= after@.skip(end + 4));
    let body = trim_chars(rest.as_slice());
    let desc = describe(&body);
    Ok(SkillParts {
        frontmatter: string_of(fm.as_slice()),
        body: string_of(body.as_slice()),
        description: string_of(desc.as_slice()),
    })
}

impl Skill {
    /// Assemble a skill from its parts, its parsed metadata, its name (the
    /// containing directory) and its path.
    pub fn from_parts(name: &str, parts: SkillParts, metadata: SkillMetadata, path: &str) -> (r: Skill)
        ensures
            r.name@ == name@,
            r.description@ == parts.description@,
            r.content@ == parts.body@,
            r.path@ == path@,
            r.metadata == metadata,
    {
        Skill { name: name.to_owned(), description: parts.description, content: parts.body, metadata, path: path.to_owned() }
    }
}

/// The name a SKILL.md file gives its skill: the name of the directory
/// that holds it, or `unknown` when its path names no such directory.
pub open spec fn skill_name_s(path: Seq<char>) -> Seq<char> {
    let segs = crate::glob::segments(path);
    if segs.len() >= 2 && segs[segs.len() - 2] != "."@ && segs[segs.len() - 2] != ".."@ {
        segs[segs.len() - 2]
    } else {
        "unknown"@
    }
}

/// The name of the skill a SKILL.md path holds.
pub fn skill_name_from_path(path: &str) -> (r: String)
    ensures
        r@ == skill_name_s(path@),
{
    let pv = chars_of(path);
    let segs = crate::glob::split_segments(pv.as_slice());
    let n = segs.len();
    if n >= 2 {
        let d = string_of(segs[n - 2].as_slice());
        if !str_eq(d.as_str(), ".") && !str_eq(d.as_str(), "..") {
            return d;
        }
    }
    "unknown".to_owned()
}

/// A skill as plain values: name, description, content, path, metadata.
pub type SkillV = (Seq<char>, Seq<char>, Seq<char>, Seq<char>, SkillMetadata);

/// The plain value of a skill.
pub open spec fn skill_v(s: Skill) -> SkillV {
    (s.name@, s.description@, s.content@, s.path@, s.metadata)
}

/// The plain values of a list of skills.
pub open spec fn skills_v(v: Seq<Skill>) -> Seq<SkillV> {
    v.map_values(|s: Skill| skill_v(s))
}

/// The names of a list of skill values.
pub open spec fn names_v(v: Seq<SkillV>) -> Seq<Seq<char>> {
    v.map_values(|s: SkillV| s.0)
}

/// The skills after adding one: it replaces the skill of the same name,
/// else it is appended.
pub open spec fn insert_v(vs: Seq<SkillV>, v: SkillV) -> Seq<SkillV> {
    match first_from(names_v(vs), same_name(v.0), 0) {
        Some(i) => vs.update(i, v),
        None => vs.push(v),
    }
}

/// The skill a SKILL.md file at `path` makes from its parts and metadata.
pub open spec fn entry_v(path: Seq<char>, parts: SkillParts, metadata: SkillMetadata) -> SkillV {
    (skill_name_s(path), parts.description@, parts.body@, path, metadata)
}

/// The index of the first file entry that failed.
pub open spec fn first_failed(fs: Seq<(String, Result<(SkillParts, SkillMetadata), String>)>) -> Option<int> {
    if exists|k: int| 0 <= k < fs.len() && (#[trigger] fs[k]).1 is Err {
        Some(choose|k: int| 0 <= k < fs.len() && (#[trigger] fs[k]).1 is Err && forall|j: int| 0 <= j < k ==> (#[trigger] fs[j]).1 is Ok)
    } else {
        None
    }
}

/// The skills after loading file entries in order (failed ones add nothing).
pub open spec fn loaded_v(vs: Seq<SkillV>, fs: Seq<(String, Result<(SkillParts, SkillMetadata), String>)>) -> Seq<SkillV>
    decreases fs.len(),
{
    if fs.len() == 0 {
        vs
    } else {
        let prev = loaded_v(vs, fs.drop_last());
        match fs.last().1 {
            Ok((parts, metadata)) => insert_v(prev, entry_v(fs.last().0@, parts, metadata)),
            Err(_) => prev,
        }
    }
}

proof fn lemma_insert_view(skills: Seq<Skill>, sk: Skill)
    ensures
        skills_v(inserted_skills(skills, sk)) == insert_v(skills_v(skills), skill_v(sk)),
{
    assert(names_v(skills_v(skills)) =~= skill_names(skills));
    match first_from(skill_names(skills), same_name(sk.name@), 0) {
        Some(i) => {
            lemma_first_from_range(skill_names(skills), same_name(sk.name@), 0);
            assert(skills_v(skills.update(i, sk)) =~= skills_v(skills).update(i, skill_v(sk)));
        },
        None => {
            assert(skills_v(skills.push(sk)) =~= skills_v(skills).push(skill_v(sk)));
        },
    }
}

/// The skills after adding one, as values.
pub open spec fn inserted_skills(skills: Seq<Skill>, sk: Skill) -> Seq<Skill> {
    match first_from(skill_names(skills), same_name(sk.name@), 0) {
        Some(i) => skills.update(i, sk),
        None => skills.push(sk),
    }
}

proof fn lemma_first_from_range(names: Seq<Seq<char>>, p: spec_fn(Seq<char>) -> bool, i: int)
    requires
        0 <= i,
    ensures
        first_from(names, p, i) matches Some(k) ==> i <= k < names.len(),
    decreases names.len() - i,
{
    if i < names.len() && !p(names[i]) {
        lemma_first_from_range(names, p, i + 1);
    }
}

proof fn lemma_first_failed_step(fs: Seq<(String, Result<(SkillParts, SkillMetadata), String>)>, c: int)
    requires
        0 <= c < fs.len(),
        first_failed(fs.take(c)) is None,
    ensures
        fs[c].1 is Err ==> first_failed(fs) == Some(c),
        fs[c].1 is Ok ==> first_failed(fs.take(c + 1)) is None,
{
    assert forall|j: int| 0 <= j < c implies (#[trigger] fs[j]).1 is Ok by {
        assert(fs.take(c)[j] == fs[j]);
        if fs[j].1 is Err {
            assert(fs.take(c)[j].1 is Err);
        }
    }
    if fs[c].1 is Err {
        let k = choose|k: int| 0 <= k < fs.len() && (#[trigger] fs[k]).1 is Err && forall|j: int| 0 <= j < k ==> (#[trigger] fs[j]).1 is Ok;
        assert(0 <= c < fs.len() && fs[c].1 is Err && forall|j: int| 0 <= j < c ==> (#[trigger] fs[j]).1 is Ok);
        assert(0 <= k < fs.len() && fs[k].1 is Err && forall|j: int| 0 <= j < k ==> (#[trigger] fs[j]).1 is Ok);
        if k < c {
            assert(fs[k].1 is Ok);
        }
        if k > c {
            assert(fs[c].1 is Ok);
        }
    } else {
        let t = fs.take(c + 1);
        assert forall|j: int| 0 <= j < t.len() implies (#[trigger] t[j]).1 is Ok by {
            assert(t[j] == fs[j]);
        }
    }
}

// ───────────────────────────── the loader ─────────────────────────────

/// The first index from `i` on whose name satisfies `p`.
pub open spec fn first_from(names: Seq<Seq<char>>, p: spec_fn(Seq<char>) -> bool, i: int) -> Option<int>
    decreases names.len() - i,
{
    if i < 0 || i >= names.len() {
        None
    } else if p(names[i]) {
        Some(i)
    } else {
        first_from(names, p, i + 1)
    }
}

/// Names equal to `q`.
pub open spec fn same_name(q: Seq<char>) -> spec_fn(Seq<char>) -> bool {
    |n: Seq<char>| n == q
}

/// Names equal to `q` ignoring case.
pub open spec fn same_lower(q: Seq<char>) -> spec_fn(Seq<char>) -> bool {
    |n: Seq<char>| str_lower(n) == str_lower(q)
}

/// Names that contain `q` or are contained in it, ignoring case.
pub open spec fn overlaps(q: Seq<char>) -> spec_fn(Seq<char>) -> bool {
    |n: Seq<char>| contains_s(str_lower(n), str_lower(q)) || contains_s(str_lower(q), str_lower(n))
}

/// The skill a fuzzy lookup finds: exact name, else the first with the same
/// name ignoring case, else the first whose lowercase name contains the
/// lowercase query or is contained in it.
pub open spec fn load_index_s(names: Seq<Seq<char>>, q: Seq<char>) -> Option<int> {
    match first_from(names, same_name(q), 0) {
        Some(i) => Some(i),
        None => match first_from(names, same_lower(q), 0) {
            Some(i) => Some(i),
            None => first_from(names, overlaps(q), 0),
        },
    }
}

/// The names of a list of skills.
pub open spec fn skill_names(v: Seq<Skill>) -> Seq<Seq<char>> {
    v.map_values(|s: Skill| s.name@)
}

/// No two skills share a name.
pub open spec fn unique_names(v: Seq<Skill>) -> bool {
    forall|i: int, j: int| 0 <= i < j < v.len() ==> (#[trigger] v[i]).name@ != (#[trigger] v[j]).name@
}

/// The loaded skills, by name (names are unique).
#[derive(Debug, Clone)]
pub struct SkillLoader {
    skills: Vec<Skill>,
}

impl SkillLoader {
    /// The loaded skills, in load order.
    pub closed spec fn skills_s(&self) -> Seq<Skill> {
        self.skills@
    }

    /// The loader's invariant: names are unique.
    pub closed spec fn wf(&self) -> bool {
        unique_names(self.skills@)
    }

    /// A well-formed loader holds each name at most once.
    pub proof fn lemma_names_unique(&self)
        requires
            self.wf(),
        ensures
            unique_names(self.skills_s()),
    {
    }

    /// An empty loader.
    pub fn new() -> (r: Self)
        ensures
            r.wf(),
            r.skills_s().len() == 0,
    {
        SkillLoader { skills: Vec::new() }
    }

    /// Add a skill, replacing a loaded skill of the same name.
    pub fn insert(&mut self, skill: Skill) -> (k: usize)
        requires
            old(self).wf(),
        ensures
            final(self).wf(),
            k < final(self).skills_s().len(),
            final(self).skills_s()[k as int] == skill,
            ({
                let old_names = skill_names(old(self).skills_s());
                match first_from(old_names, same_name(skill.name@), 0) {
                    Some(i) => final(self).skills_s() == old(self).skills_s().update(i, skill),
                    None => final(self).skills_s() == old(self).skills_s().push(skill),
                }
            }),
    {
        let ghost names = skill_names(self.skills@);
        let ghost p = same_name(skill.name@);
        let mut i: usize = 0;
        while i < self.skills.len()
            invariant
                i <= self.skills@.len(),
                names == skill_names(self.skills@),
                p == same_name(skill.name@),
                first_from(names, p, i as int) == first_from(names, p, 0),
                unique_names(self.skills@),
                self.skills@ == old(self).skills@,
                names == skill_names(old(self).skills@),
            decreases self.skills.len() - i,
        {
            assert(names[i as int] == self.skills@[i as int].name@);
            if self.skills[i].name == skill.name {
                let ghost before = self.skills@;
                self.skills.set(i, skill);
                assert(unique_names(self.skills@)) by {
                    assert forall|a: int, b: int| 0 <= a < b < self.skills@.len() implies (#[trigger] self.skills@[a]).name@ != (#[trigger] self.skills@[b]).name@ by {
                        if a != i && b != i {
                            assert(self.skills@[a] == before[a]);
                            assert(self.skills@[b] == before[b]);
                        } else if a == i {
                            assert(before[a].name@ != before[b].name@);
                        } else {
                            assert(before[a].name@ != before[b].name@);
                        }
                    }
                }
                return i;
            }
            i = i + 1;
        }
        let ghost before = self.skills@;
        self.skills.push(skill);
        assert(unique_names(self.skills@)) by {
            assert forall|a: int, b: int| 0 <= a < b < self.skills@.len() implies (#[trigger] self.skills@[a]).name@ != (#[trigger] self.skills@[b]).name@ by {
                if b == before.len() {
                    assert(names[a] == before[a].name@);
                    assert(!p(names[a])) by {
                        if p(names[a]) {
                            lemma_first_from_finds(names, p, 0, a);
                        }
                    }
                }
            }
        }
        self.skills.len() - 1
    }

    /// Load one skill file whose text is already split into `parts` and
    /// whose frontmatter decoded to `metadata`; the skill is named after
    /// its directory and replaces a loaded skill of the same name.  Returns
    /// the skill just loaded.
    pub fn load_file(&mut self, path: &str, parts: SkillParts, metadata: SkillMetadata) -> (r: &Skill)
        requires
            old(self).wf(),
        ensures
            final(self).wf(),
            skill_v(*r) == entry_v(path@, parts, metadata),
            exists|k: int| 0 <= k < final(self).skills_s().len() && *r == final(self).skills_s()[k],
            skills_v(final(self).skills_s()) == insert_v(
                skills_v(old(self).skills_s()),
                entry_v(path@, parts, metadata),
            ),
    {
        let name = skill_name_from_path(path);
        let ghost pd = parts.description@;
        let ghost pb = parts.body@;
        let skill = Skill::from_parts(name.as_str(), parts, metadata, path);
        assert(skill.metadata == metadata);
        let ghost sk = skill;
        let ghost before = self.skills_s();
        let k = self.insert(skill);
        proof {
            lemma_insert_view(before, sk);
            assert(skill_v(sk) == entry_v(path@, parts, metadata));
        }
        &self.skills[k]
    }

    /// Load the skill files of a directory, in order: each entry is a
    /// file's path and either its split text with decoded frontmatter or
    /// the error that stopped it.  Stops at the first error; returns the
    /// number of skills loaded.
    #[verifier::rlimit(60)]
    pub fn load_dir(&mut self, files: Vec<(String, Result<(SkillParts, SkillMetadata), String>)>) -> (r: Result<
        usize,
        String,
    >)
        requires
            old(self).wf(),
        ensures
            final(self).wf(),
            match first_failed(files@) {
                None => r == Ok::<usize, String>(files@.len() as usize) && skills_v(final(self).skills_s())
                    == loaded_v(skills_v(old(self).skills_s()), files@),
                Some(k) => r matches Err(e) && files@[k].1 == Err::<(SkillParts, SkillMetadata), String>(e)
                    && skills_v(final(self).skills_s()) == loaded_v(skills_v(old(self).skills_s()), files@.take(k)),
            },
    {
        let n = files.len();
        let ghost fs = files@;
        let ghost start = skills_v(self.skills_s());
        let mut count: usize = 0;
        let mut rest = files;
        while count < n
            invariant
                count <= n,
                n == fs.len(),
                rest@ == fs.skip(count as int),
                self.wf(),
                skills_v(self.skills_s()) == loaded_v(start, fs.take(count as int)),
                first_failed(fs.take(count as int)) is None,
                start == skills_v(old(self).skills_s()),
                fs == files@,
            decreases n - count,
        {
            let (path, item) = rest.remove(0);
            assert(fs[count as int] == (path, item));
            assert(rest@ =~= fs.skip(count + 1));
            assert(fs.take(count + 1).drop_last() =~= fs.take(count as int));
            match item {
                Err(e) => {
                    proof {
                        lemma_first_failed_step(fs, count as int);
                        assert(first_failed(fs) == Some(count as int));
                        assert(fs[count as int].1 == Err::<(SkillParts, SkillMetadata), String>(e));
                    }
                    return Err(e);
                },
                Ok((parts, metadata)) => {
                    self.load_file(path.as_str(), parts, metadata);
                    proof {
                        lemma_first_failed_step(fs, count as int);
                    }
                },
            }
            count = count + 1;
        }
        assert(fs.take(n as int) =~= fs);
        Ok(count)
    }

    /// Load a skill by name with fuzzy matching: exact name, then
    /// case-insensitive name, then substring either way.
    pub fn load(&self, name: &str) -> (r: Option<&Skill>)
        ensures
            match load_index_s(skill_names(self.skills_s()), name@) {
                Some(i) => r matches Some(s) && *s == self.skills_s()[i],
                None => r is None,
            },
    {
        let ghost names = skill_names(self.skills@);
        let ghost p1 = same_name(name@);
        let key = name.to_owned();
        let mut i: usize = 0;
        while i < self.skills.len()
            invariant
                i <= self.skills@.len(),
                names == skill_names(self.skills@),
                p1 == same_name(name@),
                key@ == name@,
                first_from(names, p1, i as int) == first_from(names, p1, 0),
            decreases self.skills.len() - i,
        {
            if self.skills[i].name == key {
                return Some(&self.skills[i]);
            }
            i = i + 1;
        }
        let lower = chars_of(to_lowercase(name).as_str());
        let ghost p2 = same_lower(name@);
        let mut j: usize = 0;
        while j < self.skills.len()
            invariant
                j <= self.skills@.len(),
                names == skill_names(self.skills@),
                p2 == same_lower(name@),
                first_from(names, same_name(name@), 0) is None,
                lower@ == str_lower(name@),
                first_from(names, p2, j as int) == first_from(names, p2, 0),
            decreases self.skills.len() - j,
        {
            let n = chars_of(to_lowercase(self.skills[j].name.as_str()).as_str());
            if crate::text::chars_eq(n.as_slice(), lower.as_slice()) {
                return Some(&self.skills[j]);
            }
            j = j + 1;
        }
        let ghost p3 = overlaps(name@);
        let mut k: usize = 0;
        while k < self.skills.len()
            invariant
                k <= self.skills@.len(),
                names == skill_names(self.skills@),
                p3 == overlaps(name@),
                first_from(names, same_name(name@), 0) is None,
                first_from(names, same_lower(name@), 0) is None,
                lower@ == str_lower(name@),
                first_from(names, p3, k as int) == first_from(names, p3, 0),
            decreases self.skills.len() - k,
        {
            let n = chars_of(to_lowercase(self.skills[k].name.as_str()).as_str());
            if contains_chars(n.as_slice(), lower.as_slice()) || contains_chars(lower.as_slice(), n.as_slice()) {
                return Some(&self.skills[k]);
            }
            k = k + 1;
        }
        None
    }

    /// The skills whose trigger words match `query`, in load order.
    pub fn match_trigger(&self, query: &str) -> (r: Vec<&Skill>)
        ensures
            deref_skills(r@) == self.skills_s().filter(trigger_pred(query@)),
    {
        let ghost pred = trigger_pred(query@);
        proof {
            reveal(Seq::filter);
        }
        let mut out: Vec<&Skill> = Vec::new();
        let mut i: usize = 0;
        assert(deref_skills(out@) =~= self.skills@.take(0).filter(pred));
        while i < self.skills.len()
            invariant
                i <= self.skills@.len(),
                pred == trigger_pred(query@),
                deref_skills(out@) == self.skills@.take(i as int).filter(pred),
            decreases self.skills.len() - i,
        {
            let ghost before = deref_skills(out@);
            assert(self.skills@.take(i + 1).drop_last() =~= self.skills@.take(i as int));
            assert(self.skills@.take(i + 1).last() == self.skills@[i as int]);
            proof {
                reveal(Seq::filter);
            }
            if self.skills[i].matches_trigger(query) {
                out.push(&self.skills[i]);
                assert(deref_skills(out@) =~= before.push(self.skills@[i as int]));
                assert(pred(self.skills@[i as int]));
            } else {
                assert(!pred(self.skills@[i as int]));
            }
            i = i + 1;
        }
        assert(self.skills@.take(self.skills@.len() as int) =~= self.skills@);
        out
    }

    /// One summary line per skill, sorted, joined by newlines.
    pub fn summary(&self) -> (r: String)
        ensures
            exists|s: Seq<Seq<char>>| sorted_strs(s) && s.to_multiset() == self.skills_s().map_values(
                |k: Skill| skill_summary_s(k.name@, k.description@),
            ).to_multiset() && r@ == join_s(s, "\n"@),
    {
        let mut lines: Vec<String> = Vec::new();
        let mut i: usize = 0;
        while i < self.skills.len()
            invariant
                i <= self.skills@.len(),
                lines@.len() == i,
                forall|k: int| 0 <= k < i ==> (#[trigger] lines@[k])@ == skill_summary_s(self.skills@[k].name@, self.skills@[k].description@),
            decreases self.skills.len() - i,
        {
            lines.push(self.skills[i].summary());
            i = i + 1;
        }
        assert(strs_view(lines@) =~= self.skills@.map_values(|k: Skill| skill_summary_s(k.name@, k.description@)));
        let sorted = sort_strings(&lines);
        join_strings(&sorted, "\n")
    }

    /// All loaded skills.
    pub fn all(&self) -> (r: &Vec<Skill>)
        ensures
            r@ == self.skills_s(),
    {
        &self.skills
    }

    /// The skill with exactly this name.
    pub fn get(&self, name: &str) -> (r: Option<&Skill>)
        ensures
            match first_from(skill_names(self.skills_s()), same_name(name@), 0) {
                Some(i) => r matches Some(s) && *s == self.skills_s()[i],
                None => r is None,
            },
    {
        let ghost names = skill_names(self.skills@);
        let ghost p1 = same_name(name@);
        let key = name.to_owned();
        let mut i: usize = 0;
        while i < self.skills.len()
            invariant
                i <= self.skills@.len(),
                names == skill_names(self.skills@),
                p1 == same_name(name@),
                key@ == name@,
                first_from(names, p1, i as int) == first_from(names, p1, 0),
            decreases self.skills.len() - i,
        {
            if self.skills[i].name == key {
                return Some(&self.skills[i]);
            }
            i = i + 1;
        }
        None
    }

    /// Number of loaded skills.
    pub fn len(&self) -> (r: usize)
        ensures
            r == self.skills_s().len(),
    {
        self.skills.len()
    }

    /// Whether no skills are loaded.
    pub fn is_empty(&self) -> (r: bool)
        ensures
            r == (self.skills_s().len() == 0),
    {
        self.skills.len() == 0
    }
}

/// The first lookup index satisfies the predicate and no earlier one does.
/// `first_from` finds the first name from `i` on that satisfies `p`, and
/// finds none exactly when no name from `i` on satisfies it.
pub proof fn lemma_first_from(names: Seq<Seq<char>>, p: spec_fn(Seq<char>) -> bool, i: int)
    requires
        0 <= i,
    ensures
        match first_from(names, p, i) {
            Some(k) => i <= k < names.len() && p(names[k]) && forall|j: int| i <= j < k ==> !p(#[trigger] names[j]),
            None => forall|j: int| i <= j < names.len() ==> !p(#[trigger] names[j]),
        },
    decreases names.len() - i,
{
    if i < names.len() && !p(names[i]) {
        lemma_first_from(names, p, i + 1);
    }
}

proof fn lemma_first_from_finds(names: Seq<Seq<char>>, p: spec_fn(Seq<char>) -> bool, i: int, a: int)
    requires
        0 <= i <= a < names.len(),
        p(names[a]),
    ensures
        first_from(names, p, i) is Some,
    decreases a - i,
{
    if !p(names[i]) {
        lemma_first_from_finds(names, p, i + 1, a);
    }
}

} // verus!
