//! Curator — skill lifecycle: automatic state transitions by inactivity and
//! the consolidation scan that proposes pairs of similarly named skills.
use vstd::prelude::*;
use crate::error::owned;
use crate::memory::{join_path, join_path_s};
use crate::text::{
    chars_of, extend_chars, extend_range, join_chars, join_s, push_decimal, decimal_s,
    replace_char, replace_char_s, split_whitespace, str_lower, to_lowercase, words_s, string_of,
    starts_with_s, occurs_at_exec, utf8_len, str_byte_len, chars_eq, lemma_utf8_len_ge_len, sort_strings,
    sorted_strs, strs_view,
};

verus! {

// ───────────────────────────── lifecycle types ─────────────────────────────

/// Lifecycle state of a skill.
#[derive(Debug, Clone, Copy, PartialEq, Eq, Structural)]
pub enum SkillState {
    /// In use.
    Active,
    /// Unused for a while.
    Stale,
    /// Unused for long; kept but out of rotation.
    Archived,
    /// Never transitioned automatically.
    Pinned,
}

/// Who created a skill.
#[derive(Debug, Clone, Copy, PartialEq, Eq, Structural)]
pub enum SkillOrigin {
    /// Created by the agent itself.
    Agent,
    /// Created by the user.
    User,
    /// Installed from a shared hub.
    Hub,
}

/// Usage telemetry of one skill. Times are UNIX timestamps in seconds.
#[derive(Debug, Clone, Copy, PartialEq, Eq, Structural)]
pub struct SkillUsage {
    /// Who created the skill.
    pub created_by: SkillOrigin,
    /// Current lifecycle state.
    pub state: SkillState,
    /// Pinned skills never transition.
    pub pinned: bool,
    /// When the entry was created.
    pub created_at: i64,
    /// Last time the skill was used or changed.
    pub last_activity_at: i64,
}

impl SkillUsage {
    /// A fresh, active, unpinned entry created `now`.
    pub fn new(created_by: SkillOrigin, now: i64) -> (r: Self)
        ensures
            r == (SkillUsage { created_by, state: SkillState::Active, pinned: false, created_at: now, last_activity_at: now }),
    {
        SkillUsage { created_by, state: SkillState::Active, pinned: false, created_at: now, last_activity_at: now }
    }
}

/// A fresh, active, unpinned entry created `now`.
pub open spec fn fresh_usage_s(created_by: SkillOrigin, now: i64) -> SkillUsage {
    SkillUsage { created_by, state: SkillState::Active, pinned: false, created_at: now, last_activity_at: now }
}

/// One automatic state change.
#[derive(Debug, Clone, PartialEq, Eq)]
pub struct Transition {
    /// The skill that changed.
    pub skill_name: String,
    /// State before.
    pub from: SkillState,
    /// State after.
    pub to: SkillState,
    /// When it was applied (UNIX seconds).
    pub applied_at: i64,
}

/// A transition as plain values: skill name, from, to, when.
pub open spec fn transition_view(t: Transition) -> (Seq<char>, SkillState, SkillState, i64) {
    (t.skill_name@, t.from, t.to, t.applied_at)
}

/// The transitions the rules apply to the entries at time `now`, one per
/// entry whose state moves, in entry order.
pub open spec fn transitions_s(u: Seq<(String, SkillUsage)>, now: i64, cfg: CuratorConfig) -> Seq<(Seq<char>, SkillState, SkillState, i64)>
    decreases u.len(),
{
    if u.len() == 0 {
        seq![]
    } else {
        let rest = transitions_s(u.drop_last(), now, cfg);
        let (n, e) = u.last();
        match next_state_s(e, inactive_days_s(now, e.last_activity_at), cfg) {
            Some(t) => rest.push((n@, e.state, t, now)),
            None => rest,
        }
    }
}

/// Configuration for the Curator lifecycle manager.
#[derive(Debug, Clone, Copy, PartialEq, Eq, Structural)]
pub struct CuratorConfig {
    /// Days of inactivity before a skill transitions from Active to Stale.
    pub stale_after_days: u32,
    /// Days of inactivity before a skill transitions from Stale to Archived.
    pub archive_after_days: u32,
    /// How often the Curator should run (in hours). Default: 168 (7 days).
    pub run_interval_hours: u32,
}

impl CuratorConfig {
    /// 30 days to stale, 90 days to archived, run weekly.
    pub fn default() -> (r: Self)
        ensures
            r == (CuratorConfig { stale_after_days: 30, archive_after_days: 90, run_interval_hours: 168 }),
    {
        CuratorConfig { stale_after_days: 30, archive_after_days: 90, run_interval_hours: 168 }
    }
}

// ───────────────────────────── transitions ─────────────────────────────

/// Whole days between `last` and `now`, negative spans counting as zero, as a `u32`
/// (the day count converted with `as`).
pub open spec fn inactive_days_s(now: i64, last: i64) -> u32 {
    let d = now as int - last as int;
    let days: int = if d > 0 { d / 86400 } else { 0 };
    (if days > i64::MAX { i64::MAX as int } else { days }) as u32
}

/// The state a skill moves to under the rules, if any.
pub open spec fn next_state_s(u: SkillUsage, days: u32, cfg: CuratorConfig) -> Option<SkillState> {
    if u.pinned || u.state == SkillState::Pinned {
        None
    } else {
        match u.state {
            SkillState::Active => if days >= cfg.stale_after_days { Some(SkillState::Stale) } else { None },
            SkillState::Stale => if days >= cfg.archive_after_days { Some(SkillState::Archived) } else { None },
            _ => None,
        }
    }
}

/// Whole days of inactivity.
pub fn inactive_days(now: i64, last: i64) -> (r: u32)
    ensures
        r == inactive_days_s(now, last),
{
    let d: i128 = now as i128 - last as i128;
    let days: i128 = if d > 0 { d / 86400 } else { 0 };
    let clamped: i64 = if days > i64::MAX as i128 { i64::MAX } else { days as i64 };
    clamped as u32
}

/// The state a skill moves to under the rules, if any.
///
/// Pinned skills never move; Active becomes Stale after `stale_after_days`
/// of inactivity; Stale becomes Archived after `archive_after_days`;
/// Archived stays.
pub fn next_state(u: &SkillUsage, days: u32, cfg: &CuratorConfig) -> (r: Option<SkillState>)
    ensures
        r == next_state_s(*u, days, *cfg),
{
    if u.pinned || u.state == SkillState::Pinned {
        return None;
    }
    match u.state {
        SkillState::Active => if days >= cfg.stale_after_days { Some(SkillState::Stale) } else { None },
        SkillState::Stale => if days >= cfg.archive_after_days { Some(SkillState::Archived) } else { None },
        _ => None,
    }
}

// ───────────────────────────── consolidation ─────────────────────────────

/// How similar two skill names are, as an exact fraction.
#[derive(Debug, Clone, Copy, PartialEq, Eq, Structural)]
pub enum Similarity {
    /// Identical normalized names: 1.
    Identical,
    /// `num / den` (shorter over longer name length).
    Ratio { num: usize, den: usize },
    /// `1 - num / den` (one minus edit distance over longer name length).
    Complement { num: usize, den: usize },
}

/// The similarity as a fraction `(numerator, denominator)`.
pub open spec fn sim_frac(s: Similarity) -> (int, int) {
    match s {
        Similarity::Identical => (1, 1),
        Similarity::Ratio { num, den } => (num as int, den as int),
        Similarity::Complement { num, den } => (den - num, den as int),
    }
}

/// `a` is strictly less similar than `b`.
pub open spec fn sim_lt(a: Similarity, b: Similarity) -> bool {
    sim_frac(a).0 * sim_frac(b).1 < sim_frac(b).0 * sim_frac(a).1
}

/// A pair of skills that may be redundant.
#[derive(Debug, Clone)]
pub struct MergeCandidate {
    /// First skill name.
    pub skill_a: String,
    /// Second skill name.
    pub skill_b: String,
    /// How similar the names are.
    pub similarity: Similarity,
    /// Why they were paired.
    pub reason: String,
}

/// The result of a consolidation scan.
#[derive(Debug, Clone)]
pub struct ConsolidationReport {
    /// Proposed merges, most similar first.
    pub merge_candidates: Vec<MergeCandidate>,
    /// Number of skills looked at.
    pub skills_scanned: usize,
}

impl ConsolidationReport {
    /// No merge was proposed.
    pub fn is_clean(&self) -> (r: bool)
        ensures
            r == (self.merge_candidates@.len() == 0),
    {
        self.merge_candidates.len() == 0
    }
}

/// Lowercase, `-`/`_` to spaces, whitespace runs collapsed to one space, trimmed.
pub open spec fn normalize_s(name: Seq<char>) -> Seq<char> {
    join_s(words_s(replace_char_s(replace_char_s(str_lower(name), '-', ' '), '_', ' ')), " "@)
}

/// Levenshtein edit distance.
pub open spec fn lev(a: Seq<char>, b: Seq<char>) -> nat
    decreases a.len() + b.len(),
{
    if a.len() == 0 {
        b.len()
    } else if b.len() == 0 {
        a.len()
    } else {
        let x = lev(a.drop_last(), b) + 1;
        let y = lev(a, b.drop_last()) + 1;
        let z = lev(a.drop_last(), b.drop_last()) + if a.last() == b.last() { 0nat } else { 1nat };
        if x <= y && x <= z {
            x
        } else if y <= z {
            y
        } else {
            z
        }
    }
}

/// `100 * num / den` rounded to the nearest integer, ties to even.
pub open spec fn percent_s(num: int, den: int) -> int {
    let t = 100 * num;
    let q = t / den;
    let r = t % den;
    if 2 * r > den {
        q + 1
    } else if 2 * r < den {
        q
    } else if q % 2 == 0 {
        q
    } else {
        q + 1
    }
}

/// `'a' / 'b'` with the quotes.
pub open spec fn quoted_pair(a: Seq<char>, b: Seq<char>) -> Seq<char> {
    "'"@ + a + "' / '"@ + b + "'"@
}

/// The merge verdict on two skill names: similarity and reason, or `None`.
pub open spec fn merge_eval_s(a: Seq<char>, b: Seq<char>) -> Option<(Similarity, Seq<char>)> {
    let na = normalize_s(a);
    let nb = normalize_s(b);
    let la = utf8_len(na);
    let lb = utf8_len(nb);
    let short = if la <= lb { la } else { lb };
    let long = if la <= lb { lb } else { la };
    if na == nb {
        Some((Similarity::Identical, "identical normalized name: '"@ + na + "'"@))
    } else if (starts_with_s(na, nb) || starts_with_s(nb, na)) && 5 * short >= 3 * long {
        Some((Similarity::Ratio { num: short as usize, den: long as usize }, "name prefix overlap: "@ + quoted_pair(na, nb)))
    } else if na.len() > 0 && nb.len() > 0 && 4 * lev(na, nb) <= long {
        Some((
            Similarity::Complement { num: lev(na, nb) as usize, den: long as usize },
            "name similarity ("@ + decimal_s(percent_s(long - lev(na, nb), long as int) as nat) + "%): "@
                + quoted_pair(na, nb),
        ))
    } else {
        None
    }
}

/// The candidate for the pair `(i, j)` of names, if any.
pub open spec fn cand_s(names: Seq<Seq<char>>, i: int, j: int) -> Option<(Seq<char>, Seq<char>, Similarity, Seq<char>)> {
    match merge_eval_s(names[i], names[j]) {
        Some((s, r)) => Some((names[i], names[j], s, r)),
        None => None,
    }
}

/// Candidates of the pairs `(i, j)`, `(i, j+1)`, … in order.
pub open spec fn row_cands(names: Seq<Seq<char>>, i: int, j: int) -> Seq<(Seq<char>, Seq<char>, Similarity, Seq<char>)>
    decreases names.len() - j,
{
    if j >= names.len() || j < 0 {
        seq![]
    } else {
        (match cand_s(names, i, j) {
            Some(c) => seq![c],
            None => seq![],
        }) + row_cands(names, i, j + 1)
    }
}

/// Candidates of all pairs `i < j`, in the order `(0,1), (0,2), …, (1,2), …`.
pub open spec fn all_cands(names: Seq<Seq<char>>, i: int) -> Seq<(Seq<char>, Seq<char>, Similarity, Seq<char>)>
    decreases names.len() - i,
{
    if i >= names.len() || i < 0 {
        seq![]
    } else {
        row_cands(names, i, i + 1) + all_cands(names, i + 1)
    }
}

/// The first position at or after `i` whose candidate is strictly less similar
/// than `c`, or the length of `s`.
pub open spec fn insert_pos(s: Seq<(Seq<char>, Seq<char>, Similarity, Seq<char>)>, c: Similarity, i: int) -> int
    decreases s.len() - i,
{
    if i < 0 || i >= s.len() {
        s.len() as int
    } else if sim_lt(s[i].2, c) {
        i
    } else {
        insert_pos(s, c, i + 1)
    }
}

/// Insert `c` after every element at least as similar (a stable descending insertion).
pub open spec fn insert_desc(s: Seq<(Seq<char>, Seq<char>, Similarity, Seq<char>)>, c: (Seq<char>, Seq<char>, Similarity, Seq<char>)) -> Seq<(Seq<char>, Seq<char>, Similarity, Seq<char>)> {
    s.insert(insert_pos(s, c.2, 0), c)
}

/// Stable sort by decreasing similarity.
pub open spec fn sort_desc(s: Seq<(Seq<char>, Seq<char>, Similarity, Seq<char>)>) -> Seq<(Seq<char>, Seq<char>, Similarity, Seq<char>)>
    decreases s.len(),
{
    if s.len() == 0 {
        seq![]
    } else {
        insert_desc(sort_desc(s.drop_last()), s.last())
    }
}

/// The abstract content of a candidate.
pub open spec fn cand_view(c: MergeCandidate) -> (Seq<char>, Seq<char>, Similarity, Seq<char>) {
    (c.skill_a@, c.skill_b@, c.similarity, c.reason@)
}

/// Normalize a skill name for comparison: lowercase, replace hyphens and
/// underscores with spaces, collapse whitespace.
pub fn normalize_name(name: &str) -> (r: String)
    ensures
        r@ == normalize_s(name@),
{
    let lower = to_lowercase(name);
    let v = chars_of(lower.as_str());
    let v1 = replace_char(v.as_slice(), '-', ' ');
    let v2 = replace_char(v1.as_slice(), '_', ' ');
    let words = split_whitespace(v2.as_slice());
    assert(words@.map_values(|l: Vec<char>| l@) =~= words_s(v2@));
    let j = join_chars(&words, " ");
    string_of(j.as_slice())
}

proof fn lemma_lev_bound(a: Seq<char>, b: Seq<char>)
    ensures
        lev(a, b) <= if a.len() <= b.len() { b.len() } else { a.len() },
    decreases a.len() + b.len(),
{
    if a.len() > 0 && b.len() > 0 {
        lemma_lev_bound(a.drop_last(), b.drop_last());
    }
}

/// `a + b`, or `usize::MAX` when that overflows.
fn sat_add(a: usize, b: usize) -> (r: usize)
    ensures
        r == if a + b > usize::MAX { usize::MAX as int } else { a + b },
{
    if a > usize::MAX - b { usize::MAX } else { a + b }
}

/// Compute the Levenshtein edit distance between two character sequences.
pub fn levenshtein_chars(a: &[char], b: &[char]) -> (d: usize)
    ensures
        d == lev(a@, b@),
{
    let n = a.len();
    let m = b.len();
    if m == 0 {
        return n;
    }
    // prev[k] holds lev(a[..i], b[..k+1])
    let mut prev: Vec<usize> = Vec::new();
    let mut k: usize = 0;
    while k < m
        invariant
            m == b@.len(),
            k <= m,
            prev@.len() == k,
            forall|x: int| 0 <= x < k ==> prev@[x] == lev(a@.take(0), b@.take(x + 1)),
        decreases m - k,
    {
        prev.push(k + 1);
        k = k + 1;
    }
    let mut i: usize = 0;
    while i < n
        invariant
            n == a@.len(),
            m == b@.len(),
            m > 0,
            i <= n,
            prev@.len() == m,
            forall|x: int| 0 <= x < m ==> prev@[x] == lev(a@.take(i as int), b@.take(x + 1)),
        decreases n - i,
    {
        let mut curr: Vec<usize> = Vec::new();
        let mut left: usize = i + 1;
        let mut diag: usize = i;
        proof {
            assert(a@.take(i + 1).len() == i + 1);
            assert(b@.take(0).len() == 0);
        }
        let mut j: usize = 0;
        while j < m
            invariant
                n == a@.len(),
                m == b@.len(),
                i < n,
                j <= m,
                prev@.len() == m,
                forall|x: int| 0 <= x < m ==> prev@[x] == lev(a@.take(i as int), b@.take(x + 1)),
                curr@.len() == j,
                forall|x: int| 0 <= x < j ==> curr@[x] == lev(a@.take(i + 1), b@.take(x + 1)),
                left == lev(a@.take(i + 1), b@.take(j as int)),
                diag == lev(a@.take(i as int), b@.take(j as int)),
            decreases m - j,
        {
            let cost: usize = if a[i] != b[j] { 1 } else { 0 };
            let x = sat_add(prev[j], 1);
            let y = sat_add(left, 1);
            let z = sat_add(diag, cost);
            let v = if x <= y && x <= z { x } else if y <= z { y } else { z };
            proof {
                let aa = a@.take(i + 1);
                let bb = b@.take(j + 1);
                assert(aa.drop_last() =~= a@.take(i as int));
                assert(bb.drop_last() =~= b@.take(j as int));
                assert(aa.last() == a@[i as int]);
                assert(bb.last() == b@[j as int]);
                lemma_lev_bound(aa, bb);
                assert(aa.len() <= n && bb.len() <= m);
            }
            curr.push(v);
            diag = prev[j];
            left = v;
            j = j + 1;
        }
        prev = curr;
        i = i + 1;
    }
    assert(a@.take(n as int) =~= a@);
    assert(b@.take(m as int) =~= b@);
    prev[m - 1]
}

/// Compute the Levenshtein edit distance between two strings (in characters).
pub fn levenshtein_distance(a: &str, b: &str) -> (d: usize)
    ensures
        d == lev(a@, b@),
{
    let av = chars_of(a);
    let bv = chars_of(b);
    levenshtein_chars(av.as_slice(), bv.as_slice())
}

/// `100 * num / den` rounded to the nearest integer, ties to even.
fn percent(num: usize, den: usize) -> (r: u64)
    requires
        0 < den,
        num <= den,
    ensures
        r == percent_s(num as int, den as int),
{
    let t: u128 = 100u128 * (num as u128);
    let q: u128 = t / (den as u128);
    let r: u128 = t % (den as u128);
    assert(q <= 100) by (nonlinear_arith)
        requires
            t == 100 * num,
            num <= den,
            0 < den,
            q == t / (den as u128),
    ;
    let res: u128 = if 2 * r > den as u128 {
        q + 1
    } else if 2 * r < den as u128 {
        q
    } else if q % 2 == 0 {
        q
    } else {
        q + 1
    };
    res as u64
}

/// Append `'a' / 'b'`.
fn push_quoted_pair(out: &mut Vec<char>, a: &[char], b: &[char])
    ensures
        final(out)@ == old(out)@ + quoted_pair(a@, b@),
{
    extend_chars(out, "'");
    extend_range(out, a, 0, a.len());
    extend_chars(out, "' / '");
    extend_range(out, b, 0, b.len());
    extend_chars(out, "'");
    assert(a@.subrange(0, a@.len() as int) =~= a@);
    assert(b@.subrange(0, b@.len() as int) =~= b@);
    assert(final(out)@ =~= old(out)@ + quoted_pair(a@, b@));
}

/// Evaluate whether two skill names are similar enough to be merge candidates.
///
/// Returns `None` if the names are too dissimilar.
pub fn evaluate_merge_candidate(a: &str, b: &str) -> (r: Option<MergeCandidate>)
    ensures
        r is Some == merge_eval_s(a@, b@) is Some,
        r matches Some(c) ==> merge_eval_s(a@, b@) == Some((c.similarity, c.reason@)) && c.skill_a@
            == a@ && c.skill_b@ == b@ && sim_ok(c.similarity),
{
    let norm_a = normalize_name(a);
    let norm_b = normalize_name(b);
    let na = chars_of(norm_a.as_str());
    let nb = chars_of(norm_b.as_str());
    let ghost sa = normalize_s(a@);
    let ghost sb = normalize_s(b@);
    if chars_eq(na.as_slice(), nb.as_slice()) {
        let mut reason: Vec<char> = Vec::new();
        extend_chars(&mut reason, "identical normalized name: '");
        extend_range(&mut reason, na.as_slice(), 0, na.len());
        extend_chars(&mut reason, "'");
        assert(na@.subrange(0, na@.len() as int) =~= na@);
        return Some(MergeCandidate {
            skill_a: owned(a),
            skill_b: owned(b),
            similarity: Similarity::Identical,
            reason: string_of(reason.as_slice()),
        });
    }
    let la = str_byte_len(norm_a.as_str());
    let lb = str_byte_len(norm_b.as_str());
    let short = if la <= lb { la } else { lb };
    let long = if la <= lb { lb } else { la };
    let pa = occurs_at_exec(na.as_slice(), nb.as_slice(), 0);
    let pb = occurs_at_exec(nb.as_slice(), na.as_slice(), 0);
    proof {
        lemma_utf8_len_ge_len(na@);
        lemma_utf8_len_ge_len(nb@);
        if na@.len() == nb@.len() && (pa || pb) {
            assert(na@ =~= nb@);
        }
    }
    if (pa || pb) && 5 * (short as u128) >= 3 * (long as u128) {
        let mut reason: Vec<char> = Vec::new();
        extend_chars(&mut reason, "name prefix overlap: ");
        push_quoted_pair(&mut reason, na.as_slice(), nb.as_slice());
        return Some(MergeCandidate {
            skill_a: owned(a),
            skill_b: owned(b),
            similarity: Similarity::Ratio { num: short, den: long },
            reason: string_of(reason.as_slice()),
        });
    }
    if na.len() > 0 && nb.len() > 0 {
        let d = levenshtein_chars(na.as_slice(), nb.as_slice());
        if 4 * (d as u128) <= long as u128 {
            let pct = percent(long - d, long);
            let mut reason: Vec<char> = Vec::new();
            extend_chars(&mut reason, "name similarity (");
            push_decimal(&mut reason, pct);
            extend_chars(&mut reason, "%): ");
            push_quoted_pair(&mut reason, na.as_slice(), nb.as_slice());
            return Some(MergeCandidate {
                skill_a: owned(a),
                skill_b: owned(b),
                similarity: Similarity::Complement { num: d, den: long },
                reason: string_of(reason.as_slice()),
            });
        }
    }
    None
}

/// Whether similarity `a` is strictly below `b`.
pub fn sim_less(a: &Similarity, b: &Similarity) -> (r: bool)
    requires
        sim_ok(*a),
        sim_ok(*b),
    ensures
        r == sim_lt(*a, *b),
{
    let (an, ad): (u128, u128) = match a {
        Similarity::Identical => (1, 1),
        Similarity::Ratio { num, den } => (*num as u128, *den as u128),
        Similarity::Complement { num, den } => ((*den - *num) as u128, *den as u128),
    };
    let (bn, bd): (u128, u128) = match b {
        Similarity::Identical => (1, 1),
        Similarity::Ratio { num, den } => (*num as u128, *den as u128),
        Similarity::Complement { num, den } => ((*den - *num) as u128, *den as u128),
    };
    assert(an * bd <= u64::MAX * u64::MAX) by (nonlinear_arith)
        requires
            an <= usize::MAX,
            bd <= usize::MAX,
    ;
    assert(bn * ad <= u64::MAX * u64::MAX) by (nonlinear_arith)
        requires
            bn <= usize::MAX,
            ad <= usize::MAX,
    ;
    an * bd < bn * ad
}

/// A similarity whose fraction is well formed: a positive denominator and a
/// value between 0 and 1.
pub open spec fn sim_ok(s: Similarity) -> bool {
    match s {
        Similarity::Identical => true,
        Similarity::Ratio { num, den } => 0 < den && num <= den,
        Similarity::Complement { num, den } => 0 < den && num <= den,
    }
}

/// Insert `c` into `v` after every candidate at least as similar.
fn insert_candidate(v: &mut Vec<MergeCandidate>, c: MergeCandidate)
    requires
        sim_ok(c.similarity),
        forall|k: int| 0 <= k < old(v)@.len() ==> sim_ok(#[trigger] old(v)@[k].similarity),
    ensures
        final(v)@.map_values(|x: MergeCandidate| cand_view(x)) == insert_desc(
            old(v)@.map_values(|x: MergeCandidate| cand_view(x)),
            cand_view(c),
        ),
        forall|k: int| 0 <= k < final(v)@.len() ==> sim_ok(#[trigger] final(v)@[k].similarity),
{
    let ghost s = v@.map_values(|x: MergeCandidate| cand_view(x));
    let mut p: usize = 0;
    while p < v.len()
        invariant
            s == v@.map_values(|x: MergeCandidate| cand_view(x)),
            sim_ok(c.similarity),
            forall|k: int| 0 <= k < v@.len() ==> sim_ok(#[trigger] v@[k].similarity),
            p <= v@.len(),
            insert_pos(s, c.similarity, p as int) == insert_pos(s, c.similarity, 0),
        ensures
            p <= v@.len(),
            insert_pos(s, c.similarity, p as int) == insert_pos(s, c.similarity, 0),
            insert_pos(s, c.similarity, p as int) == p,
        decreases v.len() - p,
    {
        assert(s[p as int].2 == v@[p as int].similarity);
        if sim_less(&v[p].similarity, &c.similarity) {
            assert(insert_pos(s, c.similarity, p as int) == p);
            break;
        }
        p = p + 1;
    }
    v.insert(p, c);
    assert(v@.map_values(|x: MergeCandidate| cand_view(x)) =~= s.insert(p as int, cand_view(c)));
}

/// Direct-literal names of a list of strings.
pub open spec fn name_views(v: Seq<String>) -> Seq<Seq<char>> {
    v.map_values(|s: String| s@)
}

// ───────────────────────────── the curator ─────────────────────────────

/// Periodic skill lifecycle manager for one skills directory.
#[derive(Debug, Clone)]
pub struct Curator {
    skills_dir: String,
    usage_path: String,
    config: CuratorConfig,
}

impl Curator {
    /// The skills directory.
    pub closed spec fn skills_dir_s(&self) -> Seq<char> {
        self.skills_dir@
    }

    /// The usage telemetry file.
    pub closed spec fn usage_path_s(&self) -> Seq<char> {
        self.usage_path@
    }

    /// The configuration.
    pub closed spec fn config_s(&self) -> CuratorConfig {
        self.config
    }

    /// Create a new Curator; usage telemetry goes to `skills_dir/.usage.json`.
    pub fn new(skills_dir: &str, config: CuratorConfig) -> (r: Self)
        ensures
            r.skills_dir_s() == skills_dir@,
            r.usage_path_s() == join_path_s(skills_dir@, ".usage.json"@),
            r.config_s() == config,
    {
        Curator { skills_dir: owned(skills_dir), usage_path: join_path(skills_dir, ".usage.json"), config }
    }

    /// Create a new Curator with an explicit usage file path.
    pub fn with_usage_path(skills_dir: &str, usage_path: &str, config: CuratorConfig) -> (r: Self)
        ensures
            r.skills_dir_s() == skills_dir@,
            r.usage_path_s() == usage_path@,
            r.config_s() == config,
    {
        Curator { skills_dir: owned(skills_dir), usage_path: owned(usage_path), config }
    }

    /// Returns the skills directory.
    pub fn skills_dir(&self) -> (r: &str)
        ensures
            r@ == self.skills_dir_s(),
    {
        self.skills_dir.as_str()
    }

    /// Returns the usage file path.
    pub fn usage_path(&self) -> (r: &str)
        ensures
            r@ == self.usage_path_s(),
    {
        self.usage_path.as_str()
    }

    /// Returns the configuration.
    pub fn config(&self) -> (r: &CuratorConfig)
        ensures
            *r == self.config_s(),
    {
        &self.config
    }

    /// Apply the automatic state transitions to the usage entries at time `now`.
    ///
    /// Entries are `(skill name, usage)`. Returns the transitions applied, in
    /// the order of the entries.
    pub fn apply_automatic_transitions(&self, usage: &mut Vec<(String, SkillUsage)>, now: i64) -> (r: Vec<Transition>)
        ensures
            final(usage)@.len() == old(usage)@.len(),
            forall|k: int| 0 <= k < final(usage)@.len() ==> {
                let (n0, u0) = #[trigger] old(usage)@[k];
                let (n1, u1) = final(usage)@[k];
                &&& n1@ == n0@
                &&& u1 == match next_state_s(u0, inactive_days_s(now, u0.last_activity_at), self.config_s()) {
                    Some(s) => SkillUsage { state: s, ..u0 },
                    None => u0,
                }
            },
            r@.map_values(|t: Transition| transition_view(t)) == transitions_s(old(usage)@, now, self.config_s()),
    {
        let mut transitions: Vec<Transition> = Vec::new();
        let mut k: usize = 0;
        while k < usage.len()
            invariant
                k <= usage@.len(),
                usage@.len() == old(usage)@.len(),
                forall|x: int| k <= x < usage@.len() ==> usage@[x] == old(usage)@[x],
                forall|x: int| 0 <= x < k ==> {
                    let (n0, u0) = #[trigger] old(usage)@[x];
                    let (n1, u1) = usage@[x];
                    &&& n1@ == n0@
                    &&& u1 == match next_state_s(u0, inactive_days_s(now, u0.last_activity_at), self.config_s()) {
                        Some(s) => SkillUsage { state: s, ..u0 },
                        None => u0,
                    }
                },
                transitions@.map_values(|t: Transition| transition_view(t)) == transitions_s(
                    old(usage)@.take(k as int),
                    now,
                    self.config_s(),
                ),
            decreases usage.len() - k,
        {
            proof {
                assert(old(usage)@.take(k + 1).drop_last() =~= old(usage)@.take(k as int));
                assert(old(usage)@.take(k + 1).last() == old(usage)@[k as int]);
            }
            let ghost prev = transitions@;
            let entry = usage[k].1;
            let days = inactive_days(now, entry.last_activity_at);
            match next_state(&entry, days, &self.config) {
                Some(to) => {
                    let name = owned(usage[k].0.as_str());
                    let t = Transition { skill_name: name, from: entry.state, to, applied_at: now };
                    let ghost x = k as int;
                    assert(old(usage)@[x] == usage@[x]);
                    transitions.push(t);
                    assert(transitions@.map_values(|t: Transition| transition_view(t)) =~= prev.map_values(
                        |t: Transition| transition_view(t),
                    ).push(transition_view(transitions@[prev.len() as int])));
                    let newu = SkillUsage { state: to, ..entry };
                    let nm = owned(usage[k].0.as_str());
                    usage.set(k, (nm, newu));
                },
                None => {},
            }
            k = k + 1;
        }
        assert(old(usage)@.take(old(usage)@.len() as int) =~= old(usage)@);
        transitions
    }

    /// Scan skill names for potential merge candidates using string similarity.
    ///
    /// Every pair `names[i], names[j]` with `i < j` is evaluated; the
    /// candidates are sorted by decreasing similarity, pairs of equal
    /// similarity keeping the order in which they were evaluated.
    pub fn run_consolidation_sync(&self, names: &Vec<String>) -> (r: ConsolidationReport)
        ensures
            r.skills_scanned == names@.len(),
            r.merge_candidates@.map_values(|x: MergeCandidate| cand_view(x)) == sort_desc(
                all_cands(name_views(names@), 0),
            ),
    {
        let ghost nv = name_views(names@);
        let mut out: Vec<MergeCandidate> = Vec::new();
        let ghost mut gen: Seq<(Seq<char>, Seq<char>, Similarity, Seq<char>)> = seq![];
        let n = names.len();
        let mut i: usize = 0;
        while i < n
            invariant
                n == names@.len(),
                nv == name_views(names@),
                i <= n,
                gen + all_cands(nv, i as int) == all_cands(nv, 0),
                out@.map_values(|x: MergeCandidate| cand_view(x)) == sort_desc(gen),
                forall|k: int| 0 <= k < out@.len() ==> sim_ok(#[trigger] out@[k].similarity),
            decreases n - i,
        {
            let mut j: usize = i + 1;
            proof {
                assert(all_cands(nv, i as int) == row_cands(nv, i as int, i + 1) + all_cands(nv, i + 1));
                assert(gen + all_cands(nv, i as int) =~= gen + row_cands(nv, i as int, j as int) + all_cands(nv, i + 1));
            }
            while j < n
                invariant
                    n == names@.len(),
                    nv == name_views(names@),
                    i < n,
                    i < j <= n,
                    gen + row_cands(nv, i as int, j as int) + all_cands(nv, i + 1) == all_cands(nv, 0),
                    out@.map_values(|x: MergeCandidate| cand_view(x)) == sort_desc(gen),
                    forall|k: int| 0 <= k < out@.len() ==> sim_ok(#[trigger] out@[k].similarity),
                decreases n - j,
            {
                let c = evaluate_merge_candidate(names[i].as_str(), names[j].as_str());
                proof {
                    assert(nv[i as int] == names@[i as int]@);
                    assert(nv[j as int] == names@[j as int]@);
                }
                match c {
                    Some(cand) => {
                        proof {
                            let cv = cand_view(cand);
                            assert(row_cands(nv, i as int, j as int) == seq![cv] + row_cands(nv, i as int, j + 1));
                            assert(gen.push(cv).drop_last() =~= gen);
                            assert(gen.push(cv) + row_cands(nv, i as int, j + 1) + all_cands(nv, i + 1) =~= gen + (seq![cv] + row_cands(nv, i as int, j + 1)) + all_cands(nv, i + 1));
                            gen = gen.push(cv);
                        }
                        insert_candidate(&mut out, cand);
                    },
                    None => {
                        assert(row_cands(nv, i as int, j as int) =~= row_cands(nv, i as int, j + 1));
                    },
                }
                j = j + 1;
            }
            proof {
                assert(row_cands(nv, i as int, n as int) =~= seq![]);
                assert(gen + row_cands(nv, i as int, n as int) + all_cands(nv, i + 1) =~= gen + all_cands(nv, i + 1));
            }
            i = i + 1;
        }
        assert(all_cands(nv, n as int) =~= seq![]);
        assert(gen + seq![] =~= gen);
        ConsolidationReport { merge_candidates: out, skills_scanned: n }
    }
}


// ───────────────────────────── skills on disk ─────────────────────────────

/// The entry names that are skills, in the order given: of the directory
/// entries `(name, is_dir, has_skill_md)`, the directories that hold a
/// `SKILL.md`; with `skip_hidden`, names that start with `.` are left out.
pub open spec fn skill_entries_s(entries: Seq<(String, bool, bool)>, skip_hidden: bool) -> Seq<Seq<char>>
    decreases entries.len(),
{
    if entries.len() == 0 {
        seq![]
    } else {
        let e = entries.last();
        let rest = skill_entries_s(entries.drop_last(), skip_hidden);
        if e.1 && e.2 && !(skip_hidden && e.0@.len() > 0 && e.0@[0] == '.') {
            rest.push(e.0@)
        } else {
            rest
        }
    }
}

/// The skill names found among directory entries `(name, is_dir,
/// has_skill_md)`, in ascending order.
pub fn skill_names(entries: &Vec<(String, bool, bool)>, skip_hidden: bool) -> (r: Vec<String>)
    ensures
        sorted_strs(strs_view(r@)),
        strs_view(r@).to_multiset() == skill_entries_s(entries@, skip_hidden).to_multiset(),
{
    let mut kept: Vec<String> = Vec::new();
    let mut i: usize = 0;
    assert(entries@.take(0) =~= Seq::<(String, bool, bool)>::empty());
    assert(strs_view(kept@) =~= seq![]);
    while i < entries.len()
        invariant
            i <= entries@.len(),
            strs_view(kept@) == skill_entries_s(entries@.take(i as int), skip_hidden),
        decreases entries.len() - i,
    {
        let e = &entries[i];
        let name = chars_of(e.0.as_str());
        let hidden = skip_hidden && name.len() > 0 && name[0] == '.';
        proof {
            assert(entries@.take(i + 1).drop_last() =~= entries@.take(i as int));
            assert(entries@.take(i + 1).last() == entries@[i as int]);
        }
        if e.1 && e.2 && !hidden {
            kept.push(e.0.clone());
            proof {
                assert(strs_view(kept@) =~= skill_entries_s(entries@.take(i as int), skip_hidden).push(e.0@));
            }
        }
        i = i + 1;
    }
    assert(entries@.take(entries@.len() as int) =~= entries@);
    sort_strings(&kept)
}

/// Some entry has the name `n`.
pub open spec fn has_entry(v: Seq<(String, SkillUsage)>, n: Seq<char>) -> bool {
    exists|x: int| 0 <= x < v.len() && (#[trigger] v[x]).0@ == n
}

/// Add a fresh entry created by the agent at `now` for each name that has
/// none yet; entries already present are kept as they are.
pub fn add_missing_entries(usage: &mut Vec<(String, SkillUsage)>, names: &Vec<String>, now: i64)
    ensures
        final(usage)@.len() >= old(usage)@.len(),
        final(usage)@.take(old(usage)@.len() as int) == old(usage)@,
        forall|k: int| 0 <= k < names@.len() ==> has_entry(final(usage)@, #[trigger] names@[k]@),
        forall|x: int| old(usage)@.len() <= x < final(usage)@.len() ==> {
            &&& (#[trigger] final(usage)@[x]).1 == fresh_usage_s(SkillOrigin::Agent, now)
            &&& exists|k: int| 0 <= k < names@.len() && names@[k]@ == final(usage)@[x].0@
            &&& forall|y: int| 0 <= y < x ==> final(usage)@[y].0@ != final(usage)@[x].0@
        },
{
    let ghost before = usage@;
    let mut k: usize = 0;
    while k < names.len()
        invariant
            k <= names@.len(),
            usage@.len() >= before.len(),
            usage@.take(before.len() as int) == before,
            forall|j: int| 0 <= j < k ==> has_entry(usage@, #[trigger] names@[j]@),
            forall|x: int| before.len() <= x < usage@.len() ==> {
                &&& (#[trigger] usage@[x]).1 == fresh_usage_s(SkillOrigin::Agent, now)
                &&& exists|j: int| 0 <= j < names@.len() && names@[j]@ == usage@[x].0@
                &&& forall|y: int| 0 <= y < x ==> usage@[y].0@ != usage@[x].0@
            },
        decreases names.len() - k,
    {
        let mut found = false;
        let mut x: usize = 0;
        while x < usage.len()
            invariant
                x <= usage@.len(),
                found ==> has_entry(usage@, names@[k as int]@),
                !found ==> forall|y: int| 0 <= y < x ==> (#[trigger] usage@[y]).0@ != names@[k as int]@,
                k < names@.len(),
            decreases usage.len() - x,
        {
            if crate::text::str_eq(usage[x].0.as_str(), names[k].as_str()) {
                found = true;
                assert(usage@[x as int].0@ == names@[k as int]@);
            }
            x = x + 1;
        }
        if !found {
            let ghost prev = usage@;
            let entry = SkillUsage::new(SkillOrigin::Agent, now);
            usage.push((names[k].clone(), entry));
            proof {
                assert(usage@.take(before.len() as int) =~= prev.take(before.len() as int));
                assert(usage@[prev.len() as int].0@ == names@[k as int]@);
                assert forall|j: int| 0 <= j < k + 1 implies has_entry(usage@, #[trigger] names@[j]@) by {
                    if j < k {
                        assert(has_entry(prev, names@[j]@));
                        let w = choose|x: int| 0 <= x < prev.len() && (#[trigger] prev[x]).0@ == names@[j]@;
                        assert(usage@[w] == prev[w]);
                    } else {
                        assert(usage@[prev.len() as int].0@ == names@[j]@);
                    }
                }
                assert forall|x: int| before.len() <= x < usage@.len() implies {
                    &&& (#[trigger] usage@[x]).1 == fresh_usage_s(SkillOrigin::Agent, now)
                    &&& exists|j: int| 0 <= j < names@.len() && names@[j]@ == usage@[x].0@
                    &&& forall|y: int| 0 <= y < x ==> usage@[y].0@ != usage@[x].0@
                } by {
                    if x < prev.len() {
                        assert(usage@[x] == prev[x]);
                        assert forall|y: int| 0 <= y < x implies usage@[y].0@ != usage@[x].0@ by {
                            assert(usage@[y] == prev[y]);
                        }
                    } else {
                        assert(names@[k as int]@ == usage@[x].0@);
                        assert forall|y: int| 0 <= y < x implies usage@[y].0@ != usage@[x].0@ by {
                            assert(usage@[y] == prev[y]);
                        }
                    }
                }
            }
        }
        k = k + 1;
    }
}

// ───────────────────────────── model review of candidates ─────────────────────────────

/// A model's verdict on one pair of skills.
#[derive(Debug, Clone)]
pub struct MergeDecision {
    /// One skill of the pair.
    pub a: String,
    /// The other skill of the pair.
    pub b: String,
    /// Whether the two should be merged.
    pub merge: bool,
    /// Why.
    pub reason: String,
}

/// A verdict as plain values.
pub open spec fn decision_view(d: MergeDecision) -> (Seq<char>, Seq<char>, bool, Seq<char>) {
    (d.a@, d.b@, d.merge, d.reason@)
}

/// The verdict is about the pair `a`, `b`, in either order.
pub open spec fn about_pair(d: (Seq<char>, Seq<char>, bool, Seq<char>), a: Seq<char>, b: Seq<char>) -> bool {
    (d.0 == a && d.1 == b) || (d.0 == b && d.1 == a)
}

/// The first verdict about the pair `a`, `b`.
pub open spec fn decision_for(ds: Seq<(Seq<char>, Seq<char>, bool, Seq<char>)>, a: Seq<char>, b: Seq<char>) -> Option<
    (Seq<char>, Seq<char>, bool, Seq<char>),
>
    decreases ds.len(),
{
    if ds.len() == 0 {
        None
    } else if about_pair(ds[0], a, b) {
        Some(ds[0])
    } else {
        decision_for(ds.drop_first(), a, b)
    }
}

/// Some verdict about the pair `a`, `b` says to merge.
pub open spec fn merge_approved(ds: Seq<(Seq<char>, Seq<char>, bool, Seq<char>)>, a: Seq<char>, b: Seq<char>) -> bool {
    exists|k: int| 0 <= k < ds.len() && about_pair(#[trigger] ds[k], a, b) && ds[k].2
}

/// The candidates that some verdict approves, in order, each with the
/// reason of the first verdict about its pair.
pub open spec fn refined_s(
    cands: Seq<(Seq<char>, Seq<char>, Similarity, Seq<char>)>,
    ds: Seq<(Seq<char>, Seq<char>, bool, Seq<char>)>,
) -> Seq<(Seq<char>, Seq<char>, Similarity, Seq<char>)>
    decreases cands.len(),
{
    if cands.len() == 0 {
        seq![]
    } else {
        let c = cands.last();
        let rest = refined_s(cands.drop_last(), ds);
        if merge_approved(ds, c.0, c.1) {
            rest.push(
                (
                    c.0,
                    c.1,
                    c.2,
                    match decision_for(ds, c.0, c.1) {
                        Some(d) => d.3,
                        None => c.3,
                    },
                ),
            )
        } else {
            rest
        }
    }
}

/// The views of a list of verdicts.
pub open spec fn decisions_view(ds: Seq<MergeDecision>) -> Seq<(Seq<char>, Seq<char>, bool, Seq<char>)> {
    ds.map_values(|d: MergeDecision| decision_view(d))
}

/// The index of the first verdict about the pair `a`, `b`, if any.
fn first_decision(ds: &Vec<MergeDecision>, a: &str, b: &str) -> (r: Option<usize>)
    ensures
        match decision_for(decisions_view(ds@), a@, b@) {
            Some(d) => r matches Some(k) && k < ds@.len() && decision_view(ds@[k as int]) == d,
            None => r is None,
        },
{
    let ghost dv = decisions_view(ds@);
    let mut k: usize = 0;
    assert(dv.skip(0) =~= dv);
    while k < ds.len()
        invariant
            k <= ds@.len(),
            dv == decisions_view(ds@),
            decision_for(dv.skip(k as int), a@, b@) == decision_for(dv, a@, b@),
        decreases ds.len() - k,
    {
        let d = &ds[k];
        let hit = (crate::text::str_eq(d.a.as_str(), a) && crate::text::str_eq(d.b.as_str(), b))
            || (crate::text::str_eq(d.a.as_str(), b) && crate::text::str_eq(d.b.as_str(), a));
        proof {
            assert(dv.skip(k as int)[0] == dv[k as int]);
            assert(dv.skip(k as int).drop_first() =~= dv.skip(k + 1));
        }
        if hit {
            return Some(k);
        }
        k = k + 1;
    }
    proof {
        assert(dv.skip(k as int).len() == 0);
    }
    None
}

/// Whether some verdict about the pair `a`, `b` says to merge.
fn any_merge(ds: &Vec<MergeDecision>, a: &str, b: &str) -> (r: bool)
    ensures
        r == merge_approved(decisions_view(ds@), a@, b@),
{
    let ghost dv = decisions_view(ds@);
    let mut k: usize = 0;
    while k < ds.len()
        invariant
            k <= ds@.len(),
            dv == decisions_view(ds@),
            forall|j: int| 0 <= j < k ==> !(about_pair(#[trigger] dv[j], a@, b@) && dv[j].2),
        decreases ds.len() - k,
    {
        let d = &ds[k];
        let hit = (crate::text::str_eq(d.a.as_str(), a) && crate::text::str_eq(d.b.as_str(), b))
            || (crate::text::str_eq(d.a.as_str(), b) && crate::text::str_eq(d.b.as_str(), a));
        assert(dv[k as int] == decision_view(ds@[k as int]));
        if hit && d.merge {
            return true;
        }
        k = k + 1;
    }
    false
}

/// Keep the candidates that some verdict approves, in order, and give each
/// the reason of the first verdict about its pair.
pub fn refine_candidates(report: ConsolidationReport, decisions: &Vec<MergeDecision>) -> (r: ConsolidationReport)
    ensures
        r.skills_scanned == report.skills_scanned,
        r.merge_candidates@.map_values(|x: MergeCandidate| cand_view(x)) == refined_s(
            report.merge_candidates@.map_values(|x: MergeCandidate| cand_view(x)),
            decisions_view(decisions@),
        ),
{
    let ghost cv = report.merge_candidates@.map_values(|x: MergeCandidate| cand_view(x));
    let ghost dv = decisions_view(decisions@);
    let mut out: Vec<MergeCandidate> = Vec::new();
    let mut i: usize = 0;
    assert(cv.take(0) =~= seq![]);
    assert(out@.map_values(|x: MergeCandidate| cand_view(x)) =~= seq![]);
    while i < report.merge_candidates.len()
        invariant
            i <= report.merge_candidates@.len(),
            cv == report.merge_candidates@.map_values(|x: MergeCandidate| cand_view(x)),
            dv == decisions_view(decisions@),
            out@.map_values(|x: MergeCandidate| cand_view(x)) == refined_s(cv.take(i as int), dv),
        decreases report.merge_candidates.len() - i,
    {
        let c = &report.merge_candidates[i];
        proof {
            assert(cv.take(i + 1).drop_last() =~= cv.take(i as int));
            assert(cv.take(i + 1).last() == cand_view(report.merge_candidates@[i as int]));
        }
        let ghost prev = out@;
        if any_merge(decisions, c.skill_a.as_str(), c.skill_b.as_str()) {
            let reason = match first_decision(decisions, c.skill_a.as_str(), c.skill_b.as_str()) {
                Some(k) => decisions[k].reason.clone(),
                None => c.reason.clone(),
            };
            out.push(MergeCandidate {
                skill_a: c.skill_a.clone(),
                skill_b: c.skill_b.clone(),
                similarity: c.similarity,
                reason,
            });
            proof {
                assert(out@.map_values(|x: MergeCandidate| cand_view(x)) =~= prev.map_values(
                    |x: MergeCandidate| cand_view(x),
                ).push(cand_view(out@[prev.len() as int])));
            }
        }
        i = i + 1;
    }
    assert(cv.take(report.merge_candidates@.len() as int) =~= cv);
    ConsolidationReport { merge_candidates: out, skills_scanned: report.skills_scanned }
}

/// `format!("{:?}", items)`: the `Debug` form that std writes for a list of
/// strings (each quoted and escaped, separated by `, `, in brackets).
pub uninterp spec fn debug_str_list(items: Seq<Seq<char>>) -> Seq<char>;

/// The `Debug` text of a list of strings (std's `Debug` for `Vec<String>`).
#[verifier::external_body]
fn debug_list(items: &Vec<String>) -> (r: String)
    ensures
        r@ == debug_str_list(strs_view(items@)),
{
    format!("{:?}", items)
}

/// The names of the candidates, two per candidate, in order.
pub open spec fn cand_names_s(cands: Seq<(Seq<char>, Seq<char>, Similarity, Seq<char>)>) -> Seq<Seq<char>>
    decreases cands.len(),
{
    if cands.len() == 0 {
        seq![]
    } else {
        cand_names_s(cands.drop_last()) + seq![cands.last().0, cands.last().1]
    }
}

/// The question put to the model about the candidates.
pub open spec fn consolidation_prompt_s(names: Seq<Seq<char>>) -> Seq<char> {
    "Given these mavis-claw skill names, which pairs should be merged?\nSkills: "@ + debug_str_list(names)
        + "\nReply with JSON array: [{\"a\": \"name1\", \"b\": \"name2\", \"merge\": true/false, \"reason\": \"...\"}]"@
}

/// The request that asks a model which candidates to merge: the question as
/// the only (user) message, no model name, no tools, at most 1024 tokens,
/// not streamed (the sampling temperature is set by the caller).
pub fn consolidation_request(report: &ConsolidationReport) -> (r: crate::llm::ChatRequest)
    ensures
        r.model@ == ""@,
        crate::llm::req_msgs(r.messages@) == seq![
            crate::message::plain_message(
                crate::message::Role::User,
                consolidation_prompt_s(cand_names_s(report.merge_candidates@.map_values(|x: MergeCandidate| cand_view(x)))),
            ),
        ],
        r.tools is None,
        r.max_tokens == Some(1024u32),
        !r.stream,
{
    let ghost cv = report.merge_candidates@.map_values(|x: MergeCandidate| cand_view(x));
    let mut names: Vec<String> = Vec::new();
    let mut i: usize = 0;
    assert(cv.take(0) =~= seq![]);
    assert(strs_view(names@) =~= seq![]);
    while i < report.merge_candidates.len()
        invariant
            i <= report.merge_candidates@.len(),
            cv == report.merge_candidates@.map_values(|x: MergeCandidate| cand_view(x)),
            strs_view(names@) == cand_names_s(cv.take(i as int)),
        decreases report.merge_candidates.len() - i,
    {
        let c = &report.merge_candidates[i];
        names.push(c.skill_a.clone());
        names.push(c.skill_b.clone());
        proof {
            assert(cv.take(i + 1).drop_last() =~= cv.take(i as int));
            assert(cv.take(i + 1).last() == cand_view(report.merge_candidates@[i as int]));
            assert(strs_view(names@) =~= cand_names_s(cv.take(i as int)) + seq![c.skill_a@, c.skill_b@]);
        }
        i = i + 1;
    }
    assert(cv.take(report.merge_candidates@.len() as int) =~= cv);
    let listed = debug_list(&names);
    let mut text: Vec<char> = Vec::new();
    extend_chars(&mut text, "Given these mavis-claw skill names, which pairs should be merged?\nSkills: ");
    extend_chars(&mut text, listed.as_str());
    extend_chars(
        &mut text,
        "\nReply with JSON array: [{\"a\": \"name1\", \"b\": \"name2\", \"merge\": true/false, \"reason\": \"...\"}]",
    );
    let prompt = string_of(text.as_slice());
    proof {
        reveal_strlit("Given these mavis-claw skill names, which pairs should be merged?\nSkills: ");
        reveal_strlit("\nReply with JSON array: [{\"a\": \"name1\", \"b\": \"name2\", \"merge\": true/false, \"reason\": \"...\"}]");
    }
    proof {
        reveal_strlit("");
    }
    let mut messages: Vec<crate::message::Message> = Vec::new();
    messages.push(crate::message::Message::user(prompt.as_str()));
    assert(crate::llm::req_msgs(messages@) =~= seq![
        crate::message::plain_message(crate::message::Role::User, consolidation_prompt_s(cand_names_s(cv))),
    ]);
    crate::llm::ChatRequest { model: String::new(), messages, tools: None, max_tokens: Some(1024), stream: false }
}

} // verus!
