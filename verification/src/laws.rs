//! Properties that hold across the library's functions, stated over the
//! specifications their contracts use, and proved.
use vstd::prelude::*;
use crate::agent::{compression_split_s, COMPRESS_KEEP_RECENT, asks_in, rounds_after, rounds_granted, ToolRounds};
use crate::curator::{Similarity, sim_lt, sim_frac, sim_ok, sort_desc, insert_desc, insert_pos, all_cands, row_cands, cand_s, lev, next_state_s, inactive_days_s, transitions_s, CuratorConfig, SkillState, SkillUsage};
use crate::glob::{wild, glob_match, is_globstar, normalize_sep_s, seg_match, seg_run, segments, segs_acc, segs_match, all_stars_from};
use crate::llm::{attempts_after, retry_step_s, RetryConfig};
use crate::memory::{replace_section_s, with_final_newline, append_text_s, is_any_heading, is_heading, lemma_section_end, lemma_section_start, remove_section_s, section_end, section_start};
use crate::json::{jfield, jget, jstr, ju64, JsonV};
use crate::llm::{anthropic_event_s, anthropic_stop_s, str_or_empty, DeltaV, FinishV};
use crate::curator::{merge_eval_s, normalize_s, percent_s, quoted_pair};
use crate::manager::{description_line, first_fence_from, is_fence, lemma_description_line, key_line, is_key_line, field_end_s, ends_field, is_continuation, yaml_list_s, string_views};
use crate::message::{Role, ChannelKind, channel_kind_name};
use crate::skills::{skill_md_s, description_s, strip_hashes_s, first_nonblank, matches_trigger_s, trigger_hit_s};
use crate::gateway::route_s;
use crate::config::resolve_env_s;
use crate::channels::lookup_s;
use crate::text::{occurs_at, lemma_occurs_unique_first};
use crate::reviewer::{due, extract_json_s, should_review_s, NudgeConfig, ReviewTrigger};
use crate::security::{first_pattern_s, path_verdict_s, under_s, strip_seps_s, denied_error_s, is_tool_error, Resolution};
use crate::error::McError;
use crate::manager::{apply_patch_s, SkillPatch};
use crate::skills::{Skill, SkillLoader, trigger_pred, unique_names, load_index_s, same_lower, overlaps, lemma_first_from};
use crate::storage::{read_call_s, read_calls_s, role_str_s, stored_call_s, stored_calls_s, str_role_s};
use crate::message::ToolCallV;
use crate::text::{join_s, sorted_strs, contains_s, find_s, replace_char_s, str_lower, trim_s, trim_start_s, lines_s, lines_text, starts_with_s, utf8_len, decimal_s};

verus! {

/// A stored role name reads back as the role it was written for.
pub proof fn law_role_names_round_trip(r: Role)
    ensures
        str_role_s(role_str_s(r)) == r,
{
    reveal_strlit("system");
    reveal_strlit("user");
    reveal_strlit("assistant");
    reveal_strlit("tool");
    assert("user"@[0] != "system"@[0]);
    assert("assistant"@.len() != "system"@.len() && "assistant"@.len() != "user"@.len());
    assert("tool"@[0] != "system"@[0] && "tool"@[0] != "user"@[0] && "tool"@.len() != "assistant"@.len());
}

/// When the memory review and the skill review are both due, the memory
/// review runs.
pub proof fn law_memory_review_first(c: NudgeConfig, turns: u32, tool_iters: u32)
    requires
        due(turns, c.memory_interval),
    ensures
        should_review_s(c, turns, tool_iters) == Some(ReviewTrigger::Memory),
{
}

/// With both intervals at zero no review is ever triggered.
pub proof fn law_zero_intervals_disable_reviews(c: NudgeConfig, turns: u32, tool_iters: u32)
    requires
        c.memory_interval == 0,
        c.skill_interval == 0,
    ensures
        should_review_s(c, turns, tool_iters) is None,
{
}

/// The edit distance of a string to itself is zero.
pub proof fn law_levenshtein_identity(a: Seq<char>)
    ensures
        lev(a, a) == 0,
    decreases a.len(),
{
    if a.len() > 0 {
        law_levenshtein_identity(a.drop_last());
    }
}

/// The edit distance to the empty string is the length.
pub proof fn law_levenshtein_empty(a: Seq<char>)
    ensures
        lev(a, Seq::empty()) == a.len(),
        lev(Seq::empty(), a) == a.len(),
{
}

/// The edit distance does not depend on the order of its arguments.
pub proof fn law_levenshtein_symmetric(a: Seq<char>, b: Seq<char>)
    ensures
        lev(a, b) == lev(b, a),
    decreases a.len() + b.len(),
{
    if a.len() > 0 && b.len() > 0 {
        law_levenshtein_symmetric(a.drop_last(), b);
        law_levenshtein_symmetric(a, b.drop_last());
        law_levenshtein_symmetric(a.drop_last(), b.drop_last());
    }
}

/// No `*` and no `?` in a text.
pub open spec fn no_wildcards(s: Seq<char>) -> bool {
    forall|i: int| 0 <= i < s.len() ==> s[i] != '*' && s[i] != '?'
}

proof fn lemma_seg_run_literal(p: Seq<char>, s: Seq<char>, pi: int, si: int, ssi: int)
    requires
        no_wildcards(p),
        0 <= pi <= p.len(),
        0 <= ssi <= si <= s.len(),
    ensures
        seg_run(p, s, pi, si, None, ssi) == (p.skip(pi) == s.skip(si)),
    decreases s.len() - si,
{
    if si < s.len() {
        if pi < p.len() && p[pi] == s[si] {
            lemma_seg_run_literal(p, s, pi + 1, si + 1, ssi);
            assert(p.skip(pi) =~= seq![p[pi]] + p.skip(pi + 1));
            assert(s.skip(si) =~= seq![s[si]] + s.skip(si + 1));
            if p.skip(pi) == s.skip(si) {
                assert(p.skip(pi + 1) =~= p.skip(pi).drop_first());
                assert(s.skip(si + 1) =~= s.skip(si).drop_first());
            }
        } else {
            if pi < p.len() {
                assert(p[pi] != '?' && p[pi] != '*');
                assert(p.skip(pi)[0] != s.skip(si)[0]);
            } else {
                assert(p.skip(pi).len() == 0);
            }
        }
    } else {
        if pi < p.len() {
            assert(p[pi] != '*');
            assert(!all_stars_from(p, pi));
            assert(p.skip(pi).len() > 0);
        } else {
            assert(p.skip(pi) =~= s.skip(si));
        }
    }
}

proof fn lemma_segs_literal(ps: Seq<Seq<char>>, ss: Seq<Seq<char>>)
    requires
        forall|i: int| 0 <= i < ps.len() ==> no_wildcards(#[trigger] ps[i]),
    ensures
        segs_match(ps, ss) == (ps == ss),
    decreases ps.len(), ss.len(),
{
    if ps.len() == 0 {
        if ss.len() == 0 {
            assert(ps =~= ss);
        }
    } else {
        assert(no_wildcards(ps[0]));
        if is_globstar(ps[0]) {
            assert(ps[0][0] == '*');
        }
        if ss.len() > 0 {
            lemma_seg_run_literal(ps[0], ss[0], 0, 0, 0);
            assert(ps[0].skip(0) =~= ps[0]);
            assert(ss[0].skip(0) =~= ss[0]);
            lemma_segs_literal(ps.drop_first(), ss.drop_first());
            if ps[0] == ss[0] && ps.drop_first() == ss.drop_first() {
                assert(ps.len() == ss.len());
                assert forall|i: int| 0 <= i < ps.len() implies ps[i] == ss[i] by {
                    if i > 0 {
                        assert(ps[i] == ps.drop_first()[i - 1]);
                        assert(ss[i] == ss.drop_first()[i - 1]);
                    }
                }
                assert(ps =~= ss);
            }
            if ps == ss {
                assert(ps.drop_first() =~= ss.drop_first());
            }
        }
    }
}

proof fn lemma_segs_acc_no_wildcards(s: Seq<char>, cur: Seq<char>)
    requires
        no_wildcards(s),
        no_wildcards(cur),
    ensures
        forall|i: int| 0 <= i < segs_acc(s, cur).len() ==> no_wildcards(#[trigger] segs_acc(s, cur)[i]),
    decreases s.len(),
{
    let head: Seq<Seq<char>> = if cur.len() == 0 {
        seq![]
    } else {
        seq![cur]
    };
    assert forall|i: int| 0 <= i < head.len() implies no_wildcards(#[trigger] head[i]) by {
        assert(head[i] == cur);
    }
    if s.len() == 0 {
        assert(segs_acc(s, cur) == head);
    } else {
        assert(no_wildcards(s.drop_first())) by {
            assert forall|i: int| 0 <= i < s.drop_first().len() implies s.drop_first()[i] != '*' && s.drop_first()[i]
                != '?' by {
                assert(s.drop_first()[i] == s[i + 1]);
            }
        }
        if s[0] == '/' {
            lemma_segs_acc_no_wildcards(s.drop_first(), seq![]);
            let rest = segs_acc(s.drop_first(), seq![]);
            assert(segs_acc(s, cur) == head + rest);
            assert forall|i: int| 0 <= i < segs_acc(s, cur).len() implies no_wildcards(
                #[trigger] segs_acc(s, cur)[i],
            ) by {
                if i >= head.len() {
                    assert(segs_acc(s, cur)[i] == rest[i - head.len()]);
                } else {
                    assert(segs_acc(s, cur)[i] == head[i]);
                }
            }
        } else {
            let c2 = cur.push(s[0]);
            assert(no_wildcards(c2)) by {
                assert forall|i: int| 0 <= i < c2.len() implies c2[i] != '*' && c2[i] != '?' by {
                    if i < cur.len() {
                        assert(c2[i] == cur[i]);
                    }
                }
            }
            lemma_segs_acc_no_wildcards(s.drop_first(), c2);
            assert(segs_acc(s, cur) == segs_acc(s.drop_first(), c2));
        }
    }
}

/// A pattern without wildcards matches exactly the paths made of the same
/// segments.
pub proof fn law_glob_without_wildcards(pattern: Seq<char>, path: Seq<char>)
    requires
        no_wildcards(pattern),
    ensures
        glob_match(pattern, path) == (segments(normalize_sep_s(pattern)) == segments(normalize_sep_s(path))),
{
    let np = normalize_sep_s(pattern);
    assert(no_wildcards(np)) by {
        assert forall|i: int| 0 <= i < np.len() implies np[i] != '*' && np[i] != '?' by {
            assert(np[i] == (if pattern[i] == '\\' { '/' } else { pattern[i] }));
        }
    }
    lemma_segs_acc_no_wildcards(np, seq![]);
    lemma_segs_literal(segments(np), segments(normalize_sep_s(path)));
}

/// A pinned skill never changes state on its own.
pub proof fn law_pinned_skill_stays(u: SkillUsage, days: u32, cfg: CuratorConfig)
    requires
        u.pinned,
    ensures
        next_state_s(u, days, cfg) is None,
{
}

/// Automatic transitions only move forward, one step at a time: an active
/// skill may become stale, a stale one archived, and nothing else happens.
pub proof fn law_transitions_move_forward(u: SkillUsage, days: u32, cfg: CuratorConfig)
    ensures
        next_state_s(u, days, cfg) matches Some(t) ==> (u.state == SkillState::Active && t == SkillState::Stale) || (
        u.state == SkillState::Stale && t == SkillState::Archived),
{
}

/// A skill used more recently than its state's threshold keeps its state.
pub proof fn law_recent_skill_stays(u: SkillUsage, days: u32, cfg: CuratorConfig)
    requires
        u.state == SkillState::Active ==> days < cfg.stale_after_days,
        u.state == SkillState::Stale ==> days < cfg.archive_after_days,
    ensures
        next_state_s(u, days, cfg) is None,
{
}

/// An archived skill is never moved on its own.
pub proof fn law_archived_skill_stays(u: SkillUsage, days: u32, cfg: CuratorConfig)
    requires
        u.state == SkillState::Archived,
    ensures
        next_state_s(u, days, cfg) is None,
{
}

/// A reply without a code fence is its own JSON, trimmed.
pub proof fn law_unfenced_reply_is_trimmed(raw: Seq<char>)
    requires
        !contains_s(trim_s(raw), "```"@),
    ensures
        extract_json_s(raw) == trim_s(raw),
{
}

/// Compression, when due, keeps the ten most recent messages.
pub proof fn law_compression_keeps_recent(len: int, threshold: int)
    requires
        threshold > 0,
        len > threshold,
        len >= COMPRESS_KEEP_RECENT,
    ensures
        compression_split_s(len, threshold) == Some(len - COMPRESS_KEEP_RECENT),
{
}

/// Compression is never due at or under the threshold, nor when the
/// threshold is zero.
pub proof fn law_compression_off(len: int, threshold: int)
    requires
        threshold == 0 || len <= threshold,
    ensures
        compression_split_s(len, threshold) is None,
{
}

/// Appending to a memory file keeps what it held and ends with a newline.
pub proof fn law_append_keeps_existing(existing: Seq<char>, content: Seq<char>)
    ensures
        append_text_s(existing, content).len() >= existing.len(),
        append_text_s(existing, content).take(existing.len() as int) == existing,
        append_text_s(existing, content).len() > 0,
        append_text_s(existing, content).last() == '\n',
{
    let a = if existing.len() > 0 && existing.last() != '\n' {
        existing.push('\n')
    } else {
        existing
    };
    let b = a + content;
    assert(a.take(existing.len() as int) =~= existing);
    assert(b.take(existing.len() as int) =~= existing);
    assert(b.push('\n').take(existing.len() as int) =~= existing);
}

/// A dangerous-command verdict does not depend on letter case: two
/// commands with the same lowercase text match the same pattern.
pub proof fn law_command_check_ignores_case(a: Seq<char>, b: Seq<char>, patterns: Seq<Seq<char>>)
    requires
        str_lower(a) == str_lower(b),
    ensures
        first_pattern_s(str_lower(a), patterns) == first_pattern_s(str_lower(b), patterns),
{
}

/// The backoff never exceeds the configured cap.
pub proof fn law_backoff_capped(c: RetryConfig, attempt: u32)
    ensures
        c.backoff_s(attempt) <= c.max_delay_ms,
{
}

/// Under the cap and the exponent limit, each attempt doubles the backoff.
pub proof fn law_backoff_doubles(c: RetryConfig, attempt: u32)
    requires
        attempt < 20,
        c.base_delay_ms * vstd::arithmetic::power2::pow2((attempt + 1) as nat) < c.max_delay_ms,
    ensures
        c.backoff_s((attempt + 1) as u32) == 2 * c.backoff_s(attempt),
{
    vstd::arithmetic::power2::lemma_pow2_unfold((attempt + 1) as nat);
    let p = vstd::arithmetic::power2::pow2(attempt as nat);
    assert(c.base_delay_ms * (2 * p) == 2 * (c.base_delay_ms * p)) by (nonlinear_arith);
    vstd::arithmetic::power2::lemma_pow2_pos(attempt as nat);
    assert(c.base_delay_ms * p <= c.base_delay_ms * (2 * p)) by (nonlinear_arith)
        requires
            p > 0,
    ;
}

/// The jitter keeps a delay within a quarter of the backoff on either side.
pub proof fn law_jitter_within_quarter(capped: u64, jitter: u64)
    requires
        capped >= 1,
        jitter <= 2 * (capped / 4),
    ensures
        capped - capped / 4 <= RetryConfig::jittered_s(capped, jitter) <= capped + capped / 4,
{
}

/// A stored tool call reads back as the call that was stored.
pub proof fn law_stored_call_read_back(t: ToolCallV)
    ensures
        read_call_s(stored_call_s(t)) == Some(t),
{
    reveal_strlit("id");
    reveal_strlit("function");
    reveal_strlit("name");
    reveal_strlit("arguments");
    let f = seq![("name"@, crate::json::JsonV::Str(t.1)), ("arguments"@, crate::json::JsonV::Str(t.2))];
    let o = seq![("id"@, crate::json::JsonV::Str(t.0)), ("function"@, crate::json::JsonV::Object(f))];
    assert("id"@.len() != "function"@.len());
    assert("name"@.len() != "arguments"@.len());
    assert(crate::json::obj_find(o, "id"@, 0) == Some(crate::json::JsonV::Str(t.0)));
    assert(crate::json::obj_find(o, "function"@, 1) == Some(crate::json::JsonV::Object(f)));
    assert(crate::json::obj_find(o, "function"@, 0) == Some(crate::json::JsonV::Object(f)));
    assert(crate::json::obj_find(f, "name"@, 0) == Some(crate::json::JsonV::Str(t.1)));
    assert(crate::json::obj_find(f, "arguments"@, 1) == Some(crate::json::JsonV::Str(t.2)));
    assert(crate::json::obj_find(f, "arguments"@, 0) == Some(crate::json::JsonV::Str(t.2)));
}

/// Stored tool calls read back as the calls that were stored, in order.
pub proof fn law_stored_calls_read_back(ts: Seq<ToolCallV>)
    ensures
        read_calls_s(stored_calls_s(ts)) == Some(ts),
{
    let a = ts.map_values(|t: ToolCallV| stored_call_s(t));
    assert forall|i: int| 0 <= i < a.len() implies (#[trigger] read_call_s(a[i])) is Some by {
        law_stored_call_read_back(ts[i]);
    }
    assert forall|i: int| 0 <= i < ts.len() implies a.map_values(|e: crate::json::JsonV| read_call_s(e)->Some_0)[i] == ts[i] by {
        law_stored_call_read_back(ts[i]);
    }
    assert(a.map_values(|e: crate::json::JsonV| read_call_s(e)->Some_0) =~= ts);
}

/// A path that resolved to a file of the right kind, and that the
/// traversal check lets through, is accepted exactly when it lies in one of
/// the allowed directories (or when none is configured), and is then given
/// back canonical; otherwise it is refused as outside the allowed
/// directories.
pub proof fn law_confinement(
    deny: bool,
    raw: Seq<char>,
    canonical: String,
    kind_error: Seq<char>,
    dirs: Seq<Seq<char>>,
    r: Result<String, McError>,
)
    requires
        !(deny && contains_s(raw, ".."@)),
        path_verdict_s(
            deny,
            raw,
            Resolution::Resolved { canonical, right_kind: true },
            kind_error,
            dirs.map_values(|d: Seq<char>| under_s(strip_seps_s(canonical@), d)),
            r,
        ),
    ensures
        r is Ok <==> (dirs.len() == 0 || exists|k: int| 0 <= k < dirs.len() && under_s(strip_seps_s(canonical@), #[trigger] dirs[k])),
        r matches Ok(c) ==> c@ == canonical@,
        r matches Err(e) ==> is_tool_error(e, denied_error_s(raw)),
{
    let hits = dirs.map_values(|d: Seq<char>| under_s(strip_seps_s(canonical@), d));
    if exists|k: int| 0 <= k < dirs.len() && under_s(strip_seps_s(canonical@), #[trigger] dirs[k]) {
        let k = choose|k: int| 0 <= k < dirs.len() && under_s(strip_seps_s(canonical@), #[trigger] dirs[k]);
        assert(hits[k]);
    }
    if exists|k: int| 0 <= k < hits.len() && hits[k] {
        let k = choose|k: int| 0 <= k < hits.len() && hits[k];
        assert(under_s(strip_seps_s(canonical@), dirs[k]));
    }
}

/// A patch that sets no field leaves the skill text as it was.
pub proof fn law_empty_patch_is_noop(raw: Seq<char>, patch: SkillPatch)
    requires
        patch.trigger_words is None,
        patch.description is None,
        patch.content is None,
    ensures
        apply_patch_s(raw, patch) == Ok::<Seq<char>, Seq<char>>(raw),
{
}

/// A leading `**` segment skips any number of leading path segments: the
/// pattern matches exactly when the rest of it matches some suffix of the
/// path's segments.
pub proof fn law_leading_globstar(p: Seq<Seq<char>>, s: Seq<Seq<char>>)
    ensures
        segs_match(seq![seq!['*', '*']] + p, s) <==> exists|k: int| 0 <= k <= s.len() && segs_match(p, #[trigger] s.skip(k)),
    decreases s.len(),
{
    let g = seq![seq!['*', '*']] + p;
    assert(is_globstar(g[0]));
    assert(g.drop_first() =~= p);
    assert(s.skip(0) =~= s);
    if s.len() == 0 {
        if exists|k: int| 0 <= k <= s.len() && segs_match(p, #[trigger] s.skip(k)) {
            let k = choose|k: int| 0 <= k <= s.len() && segs_match(p, #[trigger] s.skip(k));
            assert(k == 0);
        }
    } else {
        law_leading_globstar(p, s.drop_first());
        assert forall|k: int| 0 <= k <= s.drop_first().len() implies #[trigger] s.drop_first().skip(k) == s.skip(k + 1) by {
            assert(s.drop_first().skip(k) =~= s.skip(k + 1));
        }
        if segs_match(g, s) {
            if segs_match(p, s) {
                assert(segs_match(p, s.skip(0)));
            } else {
                assert(segs_match(g, s.drop_first()));
                let k = choose|k: int| 0 <= k <= s.drop_first().len() && segs_match(p, #[trigger] s.drop_first().skip(k));
                assert(segs_match(p, s.skip(k + 1)));
            }
        }
        if exists|k: int| 0 <= k <= s.len() && segs_match(p, #[trigger] s.skip(k)) {
            let k = choose|k: int| 0 <= k <= s.len() && segs_match(p, #[trigger] s.skip(k));
            if k == 0 {
                assert(segs_match(p, s));
            } else {
                assert(s.drop_first().skip(k - 1) == s.skip(k));
                assert(segs_match(p, s.drop_first().skip(k - 1)));
                assert(segs_match(g, s.drop_first()));
            }
        }
    }
}

/// The pattern `**` matches every path.
pub proof fn law_globstar_matches_all(path: Seq<char>)
    ensures
        glob_match("**"@, path),
{
    reveal_strlit("**");
    let pat = normalize_sep_s("**"@);
    assert("**"@ =~= seq!['*', '*']);
    assert(pat =~= seq!['*', '*']);
    assert(segments(pat) =~= seq![seq!['*', '*']]) by {
        let a = seq!['*', '*'];
        assert(a.drop_first() =~= seq!['*']);
        assert(seq!['*'].drop_first() =~= Seq::<char>::empty());
        assert(seq![].push('*') =~= seq!['*']);
        assert(seq!['*'].push('*') =~= a);
        reveal_with_fuel(segs_acc, 3);
    }
    let s = segments(normalize_sep_s(path));
    law_leading_globstar(seq![], s);
    assert(seq![seq!['*', '*']] + Seq::<Seq<char>>::empty() =~= seq![seq!['*', '*']]);
    assert(s.skip(s.len() as int) =~= Seq::<Seq<char>>::empty());
    assert(segs_match(Seq::<Seq<char>>::empty(), s.skip(s.len() as int)));
}

/// A turn runs at most `limit` model rounds: of `n` requests from a fresh
/// count, exactly the first `limit` (or all `n`, when fewer) are granted,
/// and every later request gives up.
pub proof fn law_tool_rounds_bounded(limit: usize, n: nat)
    ensures
        asks_in(ToolRounds { done: 0, limit }, n) == rounds_granted(limit, n),
        rounds_after(ToolRounds { done: 0, limit }, n) == (ToolRounds { done: rounds_granted(limit, n) as usize, limit }),
    decreases n,
{
    if n > 0 {
        law_tool_rounds_bounded(limit, (n - 1) as nat);
    }
}

/// A request is called at most `max_retries + 1` times: while every
/// failure is transient, the first `max_retries` failures are retried and
/// the next one stops; a failure that is not transient stops at once.
pub proof fn law_retries_bounded(max_retries: u32, n: nat, retryable: bool)
    ensures
        attempts_after(max_retries, n) == if n <= max_retries { n } else { max_retries as nat },
        retry_step_s(attempts_after(max_retries, n), true, max_retries).0 <==> n < max_retries,
        !retry_step_s(attempts_after(max_retries, n), false, max_retries).0,
    decreases n,
{
    if n > 0 {
        law_retries_bounded(max_retries, (n - 1) as nat, retryable);
    }
}

/// The skills' summary does not depend on the order in which skills were
/// loaded: any two sorted arrangements of the same summary lines (such as
/// `SkillLoader::summary` gives for two loaders holding the same skills)
/// are joined into the same text.
pub proof fn law_summary_order_free(a: Seq<Seq<char>>, b: Seq<Seq<char>>, s1: Seq<Seq<char>>, s2: Seq<Seq<char>>)
    requires
        a.to_multiset() == b.to_multiset(),
        sorted_strs(s1),
        s1.to_multiset() == a.to_multiset(),
        sorted_strs(s2),
        s2.to_multiset() == b.to_multiset(),
    ensures
        join_s(s1, "\n"@) == join_s(s2, "\n"@),
{
    crate::text::lemma_sorted_unique(s1, s2);
}

/// A fuzzy skill lookup finds nothing exactly when no name equals the
/// query, equals it ignoring case, or contains it or is contained in it
/// ignoring case; and a name equal to the query is found in preference to
/// any other.
pub proof fn law_load_finds_any_match(names: Seq<Seq<char>>, q: Seq<char>)
    ensures
        load_index_s(names, q) is None <==> forall|i: int| 0 <= i < names.len() ==> {
            &&& #[trigger] names[i] != q
            &&& !(same_lower(q))(names[i])
            &&& !(overlaps(q))(names[i])
        },
        (exists|i: int| 0 <= i < names.len() && #[trigger] names[i] == q) ==> (load_index_s(names, q) matches Some(k)
            && names[k] == q),
{
    lemma_first_from(names, crate::skills::same_name(q), 0);
    lemma_first_from(names, same_lower(q), 0);
    lemma_first_from(names, overlaps(q), 0);
}

/// Filtering loaded skills (as `SkillLoader::match_trigger` does with the
/// trigger predicate) keeps every skill that matches, only such skills,
/// each once: the result has distinct names and is no longer than the
/// loader.
pub proof fn law_match_trigger_each_once(v: Seq<Skill>, pred: spec_fn(Skill) -> bool)
    requires
        unique_names(v),
    ensures
        v.filter(pred).len() <= v.len(),
        forall|i: int| 0 <= i < v.len() && pred(v[i]) ==> v.filter(pred).contains(#[trigger] v[i]),
        forall|j: int| 0 <= j < v.filter(pred).len() ==> pred(#[trigger] v.filter(pred)[j]) && v.contains(v.filter(pred)[j]),
        unique_names(v.filter(pred)),
    decreases v.len(),
{
    broadcast use vstd::seq_lib::group_filter_ensures;
    v.lemma_filter_len(pred);
    assert forall|i: int| 0 <= i < v.len() && pred(v[i]) implies v.filter(pred).contains(#[trigger] v[i]) by {
        v.lemma_filter_contains(pred, i);
    }
    assert forall|j: int| 0 <= j < v.filter(pred).len() implies pred(#[trigger] v.filter(pred)[j]) && v.contains(
        v.filter(pred)[j],
    ) by {
        v.lemma_filter_pred(pred, j);
        assert(v.filter(pred).contains(v.filter(pred)[j]));
        v.lemma_filter_contains_rev(pred, v.filter(pred)[j]);
    }
    if v.len() > 0 {
        let w = v.drop_last();
        assert(unique_names(w)) by {
            assert forall|a: int, b: int| 0 <= a < b < w.len() implies (#[trigger] w[a]).name@ != (#[trigger] w[b]).name@ by {
                assert(w[a] == v[a] && w[b] == v[b]);
            }
        }
        law_match_trigger_each_once(w, pred);
        reveal(Seq::filter);
        let f = w.filter(pred);
        if pred(v.last()) {
            assert(v.filter(pred) == f.push(v.last()));
            assert forall|a: int, b: int| 0 <= a < b < f.push(v.last()).len() implies (#[trigger] f.push(v.last())[a]).name@
                != (#[trigger] f.push(v.last())[b]).name@ by {
                if b == f.len() {
                    assert(w.contains(f[a]));
                    let k = choose|k: int| 0 <= k < w.len() && w[k] == f[a];
                    assert(v[k] == w[k]);
                    assert(v[k].name@ != v[v.len() - 1].name@);
                } else {
                    assert(f.push(v.last())[a] == f[a] && f.push(v.last())[b] == f[b]);
                }
            }
        } else {
            assert(v.filter(pred) == f);
        }
    }
}

/// A trigger match on a loader (what `SkillLoader::match_trigger` returns:
/// its skills filtered by the query's trigger predicate) holds every loaded
/// skill that the query triggers, no other, each once, and is no longer
/// than the loader.
pub proof fn law_loader_trigger_match(l: SkillLoader, query: Seq<char>)
    requires
        l.wf(),
    ensures
        l.skills_s().filter(trigger_pred(query)).len() <= l.skills_s().len(),
        forall|i: int| 0 <= i < l.skills_s().len() && (trigger_pred(query))(l.skills_s()[i])
            ==> l.skills_s().filter(trigger_pred(query)).contains(#[trigger] l.skills_s()[i]),
        forall|j: int| 0 <= j < l.skills_s().filter(trigger_pred(query)).len()
            ==> (trigger_pred(query))(#[trigger] l.skills_s().filter(trigger_pred(query))[j])
                && l.skills_s().contains(l.skills_s().filter(trigger_pred(query))[j]),
        unique_names(l.skills_s().filter(trigger_pred(query))),
{
    l.lemma_names_unique();
    law_match_trigger_each_once(l.skills_s(), trigger_pred(query));
}

/// The rule for one entry, in full: a pinned entry never moves; an active
/// one becomes stale once it has been idle `stale_after_days`; a stale one
/// becomes archived once idle `archive_after_days`; nothing else moves.
pub proof fn law_transition_rule(u: SkillUsage, days: u32, cfg: CuratorConfig)
    ensures
        next_state_s(u, days, cfg) == if u.pinned || u.state == SkillState::Pinned {
            None
        } else if u.state == SkillState::Active && days >= cfg.stale_after_days {
            Some(SkillState::Stale)
        } else if u.state == SkillState::Stale && days >= cfg.archive_after_days {
            Some(SkillState::Archived)
        } else {
            None
        },
{
}

/// Whether the entry moves at `now`.
pub open spec fn entry_moves(now: i64, cfg: CuratorConfig) -> spec_fn((String, SkillUsage)) -> bool {
    |e: (String, SkillUsage)| next_state_s(e.1, inactive_days_s(now, e.1.last_activity_at), cfg) is Some
}

/// The transition of an entry that moves.
pub open spec fn entry_transition(now: i64, cfg: CuratorConfig) -> spec_fn((String, SkillUsage)) -> (Seq<char>, SkillState, SkillState, i64) {
    |e: (String, SkillUsage)| (e.0@, e.1.state, next_state_s(e.1, inactive_days_s(now, e.1.last_activity_at), cfg)->Some_0, now)
}

/// The transitions a run reports are exactly those of the entries that
/// move, each once, in entry order.
pub proof fn law_transitions_are_the_moved_entries(u: Seq<(String, SkillUsage)>, now: i64, cfg: CuratorConfig)
    ensures
        transitions_s(u, now, cfg) == u.filter(entry_moves(now, cfg)).map_values(entry_transition(now, cfg)),
    decreases u.len(),
{
    reveal(Seq::filter);
    if u.len() > 0 {
        law_transitions_are_the_moved_entries(u.drop_last(), now, cfg);
        let f = u.drop_last().filter(entry_moves(now, cfg));
        if (entry_moves(now, cfg))(u.last()) {
            assert(f.push(u.last()).map_values(entry_transition(now, cfg)) =~= f.map_values(entry_transition(now, cfg)).push(
                (entry_transition(now, cfg))(u.last()),
            ));
        }
    } else {
        assert(u.filter(entry_moves(now, cfg)).map_values(entry_transition(now, cfg)) =~= seq![]);
    }
}

/// The calls a retrying request makes from attempt count `attempt`, when
/// call `i` ends with `outcomes[i]` (`None` for success, `Some(transient)`
/// for a failure), each failure decided by `RetryState::after_failure`'s
/// step.
pub open spec fn retry_calls(attempt: u32, max_retries: u32, outcomes: Seq<Option<bool>>) -> nat
    decreases outcomes.len(),
{
    if outcomes.len() == 0 {
        0
    } else {
        match outcomes[0] {
            None => 1,
            Some(t) => if retry_step_s(attempt, t, max_retries).0 {
                1 + retry_calls(retry_step_s(attempt, t, max_retries).1, max_retries, outcomes.drop_first())
            } else {
                1
            },
        }
    }
}

/// Whether the request ends with a successful call.
pub open spec fn retry_succeeds(attempt: u32, max_retries: u32, outcomes: Seq<Option<bool>>) -> bool
    decreases outcomes.len(),
{
    if outcomes.len() == 0 {
        false
    } else {
        match outcomes[0] {
            None => true,
            Some(t) => if retry_step_s(attempt, t, max_retries).0 {
                retry_succeeds(retry_step_s(attempt, t, max_retries).1, max_retries, outcomes.drop_first())
            } else {
                false
            },
        }
    }
}

/// After `f` transient failures within the retry limit, a request whose
/// next call succeeds makes exactly `f + 1` calls and succeeds.
pub proof fn law_retry_succeeds_after_failures(attempt: u32, max_retries: u32, outcomes: Seq<Option<bool>>, f: nat)
    requires
        attempt + f <= max_retries,
        f < outcomes.len(),
        forall|i: int| 0 <= i < f ==> #[trigger] outcomes[i] == Some(true),
        outcomes[f as int] is None,
    ensures
        retry_calls(attempt, max_retries, outcomes) == f + 1,
        retry_succeeds(attempt, max_retries, outcomes),
    decreases f,
{
    if f > 0 {
        assert(outcomes[0] == Some(true));
        let rest = outcomes.drop_first();
        assert forall|i: int| 0 <= i < f - 1 implies #[trigger] rest[i] == Some(true) by {
            assert(rest[i] == outcomes[i + 1]);
        }
        assert(rest[f - 1] == outcomes[f as int]);
        law_retry_succeeds_after_failures((attempt + 1) as u32, max_retries, rest, (f - 1) as nat);
    }
}

/// When every call fails transiently, a request from attempt count
/// `attempt` makes exactly `max_retries - attempt + 1` calls and fails.
pub proof fn law_retry_exhausts(attempt: u32, max_retries: u32, outcomes: Seq<Option<bool>>)
    requires
        attempt <= max_retries,
        max_retries - attempt < outcomes.len(),
        forall|i: int| 0 <= i <= max_retries - attempt ==> #[trigger] outcomes[i] == Some(true),
    ensures
        retry_calls(attempt, max_retries, outcomes) == max_retries - attempt + 1,
        !retry_succeeds(attempt, max_retries, outcomes),
    decreases max_retries - attempt,
{
    assert(outcomes[0] == Some(true));
    if attempt < max_retries {
        let rest = outcomes.drop_first();
        assert forall|i: int| 0 <= i <= max_retries - (attempt + 1) implies #[trigger] rest[i] == Some(true) by {
            assert(rest[i] == outcomes[i + 1]);
        }
        law_retry_exhausts((attempt + 1) as u32, max_retries, rest);
    }
}

/// A failure that is not transient ends the request after that one call.
pub proof fn law_permanent_failure_stops(attempt: u32, max_retries: u32, outcomes: Seq<Option<bool>>)
    requires
        outcomes.len() > 0,
        outcomes[0] == Some(false),
    ensures
        retry_calls(attempt, max_retries, outcomes) == 1,
        !retry_succeeds(attempt, max_retries, outcomes),
{
}

/// Candidates in non-increasing order of similarity.
pub open spec fn sorted_desc(s: Seq<(Seq<char>, Seq<char>, Similarity, Seq<char>)>) -> bool {
    forall|i: int, j: int| 0 <= i < j < s.len() ==> !sim_lt(#[trigger] s[i].2, #[trigger] s[j].2)
}

/// Every candidate's similarity is a proper fraction.
pub open spec fn all_sim_ok(s: Seq<(Seq<char>, Seq<char>, Similarity, Seq<char>)>) -> bool {
    forall|k: int| 0 <= k < s.len() ==> sim_ok(#[trigger] s[k].2)
}

proof fn lemma_sim_chain(x: Similarity, y: Similarity, c: Similarity)
    requires
        sim_ok(x),
        sim_ok(y),
        sim_ok(c),
        sim_lt(x, c),
        !sim_lt(x, y),
    ensures
        !sim_lt(c, y),
{
    let (x0, x1) = sim_frac(x);
    let (y0, y1) = sim_frac(y);
    let (c0, c1) = sim_frac(c);
    assert(x1 > 0 && y1 > 0 && c1 > 0);
    assert(y0 * c1 < c0 * y1) by (nonlinear_arith)
        requires
            x1 > 0,
            y1 > 0,
            c1 > 0,
            x0 * c1 < c0 * x1,
            x0 * y1 >= y0 * x1,
    {
        assert(x0 * y1 * c1 >= y0 * x1 * c1);
        assert(x0 * c1 * y1 < c0 * x1 * y1);
        assert(x1 * (y0 * c1) < x1 * (c0 * y1));
    }
}

proof fn lemma_insert_pos(s: Seq<(Seq<char>, Seq<char>, Similarity, Seq<char>)>, c: Similarity, i: int)
    requires
        0 <= i <= s.len(),
    ensures
        i <= insert_pos(s, c, i) <= s.len(),
        forall|k: int| i <= k < insert_pos(s, c, i) ==> !sim_lt(#[trigger] s[k].2, c),
        insert_pos(s, c, i) < s.len() ==> sim_lt(s[insert_pos(s, c, i)].2, c),
    decreases s.len() - i,
{
    if i < s.len() && !sim_lt(s[i].2, c) {
        lemma_insert_pos(s, c, i + 1);
    }
}

proof fn lemma_insert_desc(s: Seq<(Seq<char>, Seq<char>, Similarity, Seq<char>)>, c: (Seq<char>, Seq<char>, Similarity, Seq<char>))
    requires
        sorted_desc(s),
        all_sim_ok(s),
        sim_ok(c.2),
    ensures
        sorted_desc(insert_desc(s, c)),
        all_sim_ok(insert_desc(s, c)),
        insert_desc(s, c).to_multiset() == s.to_multiset().insert(c),
{
    let p = insert_pos(s, c.2, 0);
    lemma_insert_pos(s, c.2, 0);
    let t = s.insert(p, c);
    vstd::seq_lib::to_multiset_insert(s, p, c);
    assert forall|k: int| 0 <= k < t.len() implies sim_ok(#[trigger] t[k].2) by {
        if k < p {
            assert(t[k] == s[k]);
        } else if k > p {
            assert(t[k] == s[k - 1]);
        }
    }
    assert forall|i: int, j: int| 0 <= i < j < t.len() implies !sim_lt(#[trigger] t[i].2, #[trigger] t[j].2) by {
        if j < p {
            assert(t[i] == s[i] && t[j] == s[j]);
        } else if i > p {
            assert(t[i] == s[i - 1] && t[j] == s[j - 1]);
        } else if i < p && j > p {
            assert(t[i] == s[i] && t[j] == s[j - 1]);
        } else if j == p {
            assert(t[i] == s[i]);
            assert(t[j] == c);
        } else {
            assert(i == p);
            assert(t[i] == c);
            assert(t[j] == s[j - 1]);
            let x = s[p].2;
            let y = s[j - 1].2;
            if j - 1 > p {
                assert(!sim_lt(s[p].2, s[j - 1].2));
            } else {
                assert(!sim_lt(x, y)) by (nonlinear_arith)
                    requires
                        x == y,
                        sim_lt(x, y) == (sim_frac(x).0 * sim_frac(y).1 < sim_frac(y).0 * sim_frac(x).1),
                {
                }
            }
            lemma_sim_chain(x, y, c.2);
        }
    }
}

/// The consolidation scan's order: sorting the candidates (as
/// `Curator::run_consolidation_sync` does) gives them in non-increasing
/// order of similarity and keeps exactly the same candidates, each as often
/// as before.
pub proof fn law_consolidation_sorted(s: Seq<(Seq<char>, Seq<char>, Similarity, Seq<char>)>)
    requires
        all_sim_ok(s),
    ensures
        sorted_desc(sort_desc(s)),
        all_sim_ok(sort_desc(s)),
        sort_desc(s).to_multiset() == s.to_multiset(),
    decreases s.len(),
{
    broadcast use vstd::seq_lib::group_to_multiset_ensures;
    if s.len() == 0 {
        assert(sort_desc(s) =~= seq![]);
        assert(s =~= seq![]);
    } else {
        let w = s.drop_last();
        assert forall|k: int| 0 <= k < w.len() implies sim_ok(#[trigger] w[k].2) by {
            assert(w[k] == s[k]);
        }
        law_consolidation_sorted(w);
        assert(sim_ok(s[s.len() - 1].2));
        lemma_insert_desc(sort_desc(w), s.last());
        assert(s =~= w.push(s.last()));
        vstd::seq_lib::to_multiset_build(w, s.last());
    }
}

/// The scanned pairs: a candidate is among those of all pairs exactly when
/// it is the verdict on a pair `(i, j)` of names with `i < j`.
pub proof fn law_consolidation_pairs(names: Seq<Seq<char>>, i: int, c: (Seq<char>, Seq<char>, Similarity, Seq<char>))
    requires
        0 <= i,
    ensures
        all_cands(names, i).contains(c) <==> exists|a: int, b: int| i <= a < b < names.len() && cand_s(names, a, b) == Some(c),
    decreases names.len() - i,
{
    if i < names.len() {
        law_consolidation_pairs(names, i + 1, c);
        lemma_row_pairs(names, i, i + 1, c);
        let r = row_cands(names, i, i + 1);
        let rest = all_cands(names, i + 1);
        assert(all_cands(names, i) == r + rest);
        if (r + rest).contains(c) {
            let k = choose|k: int| 0 <= k < (r + rest).len() && (r + rest)[k] == c;
            if k < r.len() {
                assert(r.contains(c));
            } else {
                assert(rest[k - r.len()] == c);
                assert(rest.contains(c));
            }
        }
        if exists|a: int, b: int| i <= a < b < names.len() && cand_s(names, a, b) == Some(c) {
            let (a, b) = choose|a: int, b: int| i <= a < b < names.len() && cand_s(names, a, b) == Some(c);
            if a == i {
                assert(r.contains(c));
                let k = choose|k: int| 0 <= k < r.len() && r[k] == c;
                assert((r + rest)[k] == c);
            } else {
                assert(rest.contains(c));
                let k = choose|k: int| 0 <= k < rest.len() && rest[k] == c;
                assert((r + rest)[r.len() + k] == c);
            }
        }
    } else {
        assert(all_cands(names, i) =~= seq![]);
    }
}

proof fn lemma_row_pairs(names: Seq<Seq<char>>, i: int, j: int, c: (Seq<char>, Seq<char>, Similarity, Seq<char>))
    requires
        0 <= i < j,
    ensures
        row_cands(names, i, j).contains(c) <==> exists|b: int| j <= b < names.len() && cand_s(names, i, b) == Some(c),
    decreases names.len() - j,
{
    if j < names.len() {
        lemma_row_pairs(names, i, j + 1, c);
        let head: Seq<(Seq<char>, Seq<char>, Similarity, Seq<char>)> = match cand_s(names, i, j) {
            Some(x) => seq![x],
            None => seq![],
        };
        let rest = row_cands(names, i, j + 1);
        assert(row_cands(names, i, j) == head + rest);
        if (head + rest).contains(c) {
            let k = choose|k: int| 0 <= k < (head + rest).len() && (head + rest)[k] == c;
            if k < head.len() {
                assert(cand_s(names, i, j) == Some(c));
            } else {
                assert(rest[k - head.len()] == c);
                assert(rest.contains(c));
            }
        }
        if exists|b: int| j <= b < names.len() && cand_s(names, i, b) == Some(c) {
            let b = choose|b: int| j <= b < names.len() && cand_s(names, i, b) == Some(c);
            if b == j {
                assert((head + rest)[0] == c);
            } else {
                assert(rest.contains(c));
                let k = choose|k: int| 0 <= k < rest.len() && rest[k] == c;
                assert((head + rest)[head.len() + k] == c);
            }
        }
    } else {
        assert(row_cands(names, i, j) =~= seq![]);
    }
}

/// Removing section `## {h}` keeps exactly the lines before its heading, then
/// the lines from the next `## ` heading on (nothing more when no heading
/// follows): the heading and every line of its body are gone, the rest stays.
pub proof fn law_removed_section_leaves_nothing_of_it(text: Seq<char>, h: Seq<char>, st: int, en: int)
    requires
        0 <= st < en <= lines_s(text).len(),
        is_heading(lines_s(text)[st], h),
        forall|j: int| 0 <= j < st ==> !is_heading(#[trigger] lines_s(text)[j], h),
        forall|j: int| st < j < en ==> !is_any_heading(#[trigger] lines_s(text)[j]),
        en < lines_s(text).len() ==> is_any_heading(lines_s(text)[en]),
    ensures
        remove_section_s(text, h) == Some(lines_text(lines_s(text).take(st) + lines_s(text).skip(en))),
{
    let ls = lines_s(text);
    lemma_section_start(ls, h);
    lemma_section_end(ls, st);
    match section_start(ls, h) {
        None => {
            assert(!is_heading(ls[st], h));
        },
        Some(k) => {
            if k < st {
                assert(!is_heading(ls[k], h));
            }
            if st < k {
                assert(!is_heading(ls[st], h));
            }
            assert(k == st);
            let e = section_end(ls, st);
            if e < en {
                assert(!is_any_heading(ls[e]));
            }
            if en < e {
                assert(!is_any_heading(ls[en]));
            }
            assert(e == en);
        },
    }
}

/// A section whose heading is absent cannot be removed.
pub proof fn law_absent_section_not_removed(text: Seq<char>, h: Seq<char>)
    requires
        forall|j: int| 0 <= j < lines_s(text).len() ==> !is_heading(#[trigger] lines_s(text)[j], h),
    ensures
        remove_section_s(text, h) is None,
{
    let ls = lines_s(text);
    lemma_section_start(ls, h);
    if let Some(k) = section_start(ls, h) {
        assert(is_heading(ls[k], h));
    }
}

/// Two names whose normalized forms differ, are not empty, neither begins
/// with the other, and lie within an edit distance `d` of a quarter of the
/// longer one's length `n` (in bytes), are a merge candidate of similarity
/// `1 - d / n`.
pub proof fn law_close_names_are_candidates(a: Seq<char>, b: Seq<char>)
    requires
        normalize_s(a) != normalize_s(b),
        normalize_s(a).len() > 0,
        normalize_s(b).len() > 0,
        !starts_with_s(normalize_s(a), normalize_s(b)),
        !starts_with_s(normalize_s(b), normalize_s(a)),
        4 * lev(normalize_s(a), normalize_s(b)) <= utf8_len(normalize_s(a))
            || 4 * lev(normalize_s(a), normalize_s(b)) <= utf8_len(normalize_s(b)),
    ensures
        ({
            let d = lev(normalize_s(a), normalize_s(b));
            let n = if utf8_len(normalize_s(a)) <= utf8_len(normalize_s(b)) {
                utf8_len(normalize_s(b))
            } else {
                utf8_len(normalize_s(a))
            };
            &&& merge_eval_s(a, b) matches Some((s, reason))
            &&& s == Similarity::Complement { num: d as usize, den: n as usize }
            &&& n <= usize::MAX ==> sim_frac(s) == (n - d, n as int)
            &&& reason == "name similarity ("@ + decimal_s(percent_s(n - d, n as int) as nat) + "%): "@ + "'"@
                + normalize_s(a) + "' / '"@ + normalize_s(b) + "'"@
        }),
{
    let la = utf8_len(normalize_s(a));
    let lb = utf8_len(normalize_s(b));
    let n = if la <= lb { lb } else { la };
    let d = lev(normalize_s(a), normalize_s(b));
    lemma_quoted_pair(
        "name similarity ("@ + decimal_s(percent_s(n - d, n as int) as nat) + "%): "@,
        normalize_s(a),
        normalize_s(b),
    );
}

/// A text followed by a quoted pair, written out.
proof fn lemma_quoted_pair(x: Seq<char>, a: Seq<char>, b: Seq<char>)
    ensures
        x + quoted_pair(a, b) == x + "'"@ + a + "' / '"@ + b + "'"@,
{
    assert(x + quoted_pair(a, b) =~= x + "'"@ + a + "' / '"@ + b + "'"@);
}

/// The percentage shown for a similarity `num / den` is the nearest whole
/// percent (a tie goes to the even one).
pub proof fn law_percent_is_nearest(num: int, den: int)
    requires
        0 < den,
        0 <= num,
    ensures
        2 * (100 * num - den * percent_s(num, den)) <= den,
        2 * (den * percent_s(num, den) - 100 * num) <= den,
        2 * (100 * num - den * percent_s(num, den)) == den ==> percent_s(num, den) % 2 == 0,
        2 * (den * percent_s(num, den) - 100 * num) == den ==> percent_s(num, den) % 2 == 0,
{
    let t = 100 * num;
    let q = t / den;
    let r = t % den;
    assert(t == den * q + r && 0 <= r < den) by (nonlinear_arith)
        requires
            q == t / den,
            r == t % den,
            0 < den,
    ;
    assert(den * (q + 1) == den * q + den) by (nonlinear_arith);
}

/// A `content_block_delta` event of type `input_json_delta` is a tool-call
/// delta carrying the event's `index` (0 when absent) and its partial JSON,
/// with no text, id, name or finish reason.
pub proof fn law_json_delta_carries_its_index(j: JsonV)
    requires
        jstr(jfield(jget(j, "delta"@), "type"@)) == Some("input_json_delta"@),
    ensures
        anthropic_event_s("content_block_delta"@, j) matches Some((text, Some((idx, id, name, args)), fin))
            && text.len() == 0 && id is None && name is None && fin is None
            && args == Some(str_or_empty(jstr(jfield(jget(j, "delta"@), "partial_json"@))))
            && (ju64(jget(j, "index"@)) matches Some(n) ==> idx == n as u32)
            && (ju64(jget(j, "index"@)) is None ==> idx == 0),
{
    reveal_strlit("input_json_delta");
    reveal_strlit("text_delta");
    assert("input_json_delta"@.len() != "text_delta"@.len());
}

/// The argument pieces of a tool call land on the call that its
/// `content_block_start` opened: both events carry the same `index`.
pub proof fn law_json_delta_joins_its_block(jd: JsonV, js: JsonV)
    requires
        jstr(jfield(jget(jd, "delta"@), "type"@)) == Some("input_json_delta"@),
        jstr(jfield(jget(js, "content_block"@), "type"@)) == Some("tool_use"@),
        jget(jd, "index"@) == jget(js, "index"@),
    ensures
        anthropic_event_s("content_block_delta"@, jd) matches Some((_, Some(dd), _))
            && anthropic_event_s("content_block_start"@, js) matches Some((_, Some(ds), _))
            && dd.0 == ds.0,
{
    reveal_strlit("input_json_delta");
    reveal_strlit("text_delta");
    reveal_strlit("content_block_delta");
    reveal_strlit("content_block_start");
    assert("input_json_delta"@.len() != "text_delta"@.len());
    assert("content_block_start"@[14] != "content_block_delta"@[14]);
}

/// A patch that sets only the description replaces the first non-blank line
/// after the closing frontmatter fence with the new description and keeps
/// every other line.
pub proof fn law_description_patch_replaces_its_line(raw: Seq<char>, patch: SkillPatch, e: int, i: int)
    requires
        patch.trigger_words is None,
        patch.content is None,
        patch.description is Some,
        1 <= e < i < lines_s(raw).len(),
        trim_s(lines_s(raw)[e]) == "---"@,
        forall|k: int| 1 <= k < e ==> trim_s(#[trigger] lines_s(raw)[k]) != "---"@,
        trim_s(lines_s(raw)[i]).len() > 0,
        forall|k: int| e < k < i ==> trim_s(#[trigger] lines_s(raw)[k]).len() == 0,
    ensures
        apply_patch_s(raw, patch) == Ok::<Seq<char>, Seq<char>>(
            lines_text(lines_s(raw).update(i, patch.description->0@)),
        ),
{
    let ls = lines_s(raw);
    lemma_fence_is(ls, 1, e);
    lemma_description_line(ls);
    match description_line(ls) {
        None => {
            assert(trim_s(ls[i]).len() > 0);
        },
        Some(k) => {
            if k < i {
                assert(trim_s(ls[k]).len() == 0);
            }
            if i < k {
                assert(trim_s(ls[i]).len() == 0);
            }
            assert(k == i);
        },
    }
}

/// A patch that sets only the description leaves a file without a closing
/// fence, or without a non-blank line after it, as it was.
pub proof fn law_description_patch_without_line(raw: Seq<char>, patch: SkillPatch)
    requires
        patch.trigger_words is None,
        patch.content is None,
        patch.description is Some,
        forall|e: int, i: int| 1 <= e < i < lines_s(raw).len() && #[trigger] trim_s(lines_s(raw)[e]) == "---"@
            ==> #[trigger] trim_s(lines_s(raw)[i]).len() == 0,
    ensures
        apply_patch_s(raw, patch) == Ok::<Seq<char>, Seq<char>>(raw),
{
    let ls = lines_s(raw);
    lemma_description_line(ls);
    if let Some(k) = description_line(ls) {
        lemma_first_fence(ls, 1);
        let e = first_fence_from(ls, 1)->0;
        assert(trim_s(ls[e]) == "---"@);
        assert(trim_s(ls[k]).len() == 0);
    }
}

/// `first_fence_from(ls, from)` is the first fence at or after `from`, or
/// `None` when there is none.
proof fn lemma_first_fence(ls: Seq<Seq<char>>, from: int)
    requires
        0 <= from,
    ensures
        match first_fence_from(ls, from) {
            Some(e) => from <= e < ls.len() && is_fence(ls[e]) && forall|k: int| from <= k < e ==> !is_fence(#[trigger] ls[k]),
            None => forall|k: int| from <= k < ls.len() ==> !is_fence(#[trigger] ls[k]),
        },
{
    if exists|k: int| from <= k < ls.len() && is_fence(#[trigger] ls[k]) {
        let k = choose|k: int| from <= k < ls.len() && is_fence(#[trigger] ls[k]);
        let p = |i: int| from <= i < ls.len() && is_fence(ls[i]);
        assert(p(k));
        crate::text::lemma_least_from(p, from, k);
        let m = choose|m: int| from <= m <= k && #[trigger] p(m) && forall|j: int| from <= j < m ==> !#[trigger] p(j);
        assert forall|j: int| from <= j < m implies !is_fence(#[trigger] ls[j]) by {
            assert(!p(j));
        }
    }
}

/// Inside a segment, `*` at any position of the pattern matches any run of
/// characters and `?` exactly one: on segments that hold no `*` themselves, the
/// segment matcher decides exactly the wildcard semantics.
pub proof fn law_segment_wildcards(p: Seq<char>, s: Seq<char>)
    requires
        forall|k: int| 0 <= k < s.len() ==> s[k] != '*',
    ensures
        seg_match(p, s) == wild(p, s),
{
    lemma_run_plain(p, s, 0, 0, 0);
    assert(p.skip(0) =~= p);
    assert(s.skip(0) =~= s);
}

/// `wild` on the suffixes from `i` and `j`, one step unfolded.
proof fn lemma_wild_step(p: Seq<char>, s: Seq<char>, i: int, j: int)
    requires
        0 <= i <= p.len(),
        0 <= j <= s.len(),
    ensures
        wild(p.skip(i), s.skip(j)) == if i == p.len() {
            j == s.len()
        } else if p[i] == '*' {
            wild(p.skip(i + 1), s.skip(j)) || (j < s.len() && wild(p.skip(i), s.skip(j + 1)))
        } else if j == s.len() {
            false
        } else {
            (p[i] == '?' || p[i] == s[j]) && wild(p.skip(i + 1), s.skip(j + 1))
        },
{
    if i < p.len() {
        assert(p.skip(i)[0] == p[i]);
        assert(p.skip(i).drop_first() =~= p.skip(i + 1));
    }
    if j < s.len() {
        assert(s.skip(j)[0] == s[j]);
        assert(s.skip(j).drop_first() =~= s.skip(j + 1));
    }
}

/// Against the empty rest of a segment, a pattern suffix matches exactly when it is all `*`.
proof fn lemma_wild_at_end(p: Seq<char>, s: Seq<char>, i: int)
    requires
        0 <= i <= p.len(),
    ensures
        wild(p.skip(i), s.skip(s.len() as int)) == all_stars_from(p, i),
    decreases p.len() - i,
{
    lemma_wild_step(p, s, i, s.len() as int);
    if i < p.len() {
        if p[i] == '*' {
            lemma_wild_at_end(p, s, i + 1);
        }
    }
}

/// A `*` at `i` that matches from `k` also matches from any earlier `j`.
proof fn lemma_star_absorbs(p: Seq<char>, s: Seq<char>, i: int, j: int, k: int)
    requires
        0 <= i < p.len(),
        p[i] == '*',
        0 <= j <= k <= s.len(),
        wild(p.skip(i), s.skip(k)),
    ensures
        wild(p.skip(i), s.skip(j)),
    decreases k - j,
{
    if j < k {
        lemma_star_absorbs(p, s, i, j + 1, k);
        lemma_wild_step(p, s, i, j);
    }
}

/// A `*` at `i` matching from `j` leaves the rest of the pattern matching from some `k >= j`.
proof fn lemma_star_splits(p: Seq<char>, s: Seq<char>, i: int, j: int)
    requires
        0 <= i < p.len(),
        p[i] == '*',
        0 <= j <= s.len(),
        wild(p.skip(i), s.skip(j)),
    ensures
        exists|k: int| j <= k <= s.len() && #[trigger] wild(p.skip(i + 1), s.skip(k)),
    decreases s.len() - j,
{
    lemma_wild_step(p, s, i, j);
    if wild(p.skip(i + 1), s.skip(j)) {
    } else {
        lemma_star_splits(p, s, i, j + 1);
    }
}

/// A run of `n` pattern characters without `*` from `a` consumes exactly `n`
/// characters of the segment from `b`, each `?` or equal.
proof fn lemma_literal_run(p: Seq<char>, s: Seq<char>, a: int, b: int, n: int)
    requires
        0 <= a,
        0 <= n,
        a + n <= p.len(),
        0 <= b <= s.len(),
        forall|m: int| a <= m < a + n ==> p[m] != '*',
    ensures
        wild(p.skip(a), s.skip(b)) == (b + n <= s.len() && (forall|m: int| 0 <= m < n ==> (p[a + m] == '?' || p[a + m] == #[trigger] s[b + m])) && wild(p.skip(a + n), s.skip(b + n))),
    decreases n,
{
    if n > 0 {
        lemma_wild_step(p, s, a, b);
        if b < s.len() {
            lemma_literal_run(p, s, a + 1, b + 1, n - 1);
            if wild(p.skip(a), s.skip(b)) {
                assert forall|m: int| 0 <= m < n implies (p[a + m] == '?' || p[a + m] == #[trigger] s[b + m]) by {
                    if m > 0 {
                        assert(p[(a + 1) + (m - 1)] == '?' || p[(a + 1) + (m - 1)] == s[(b + 1) + (m - 1)]);
                    }
                }
            }
            if b + n <= s.len() && (forall|m: int| 0 <= m < n ==> (p[a + m] == '?' || p[a + m] == #[trigger] s[b + m])) && wild(p.skip(a + n), s.skip(b + n)) {
                assert(p[a + 0] == '?' || p[a + 0] == s[b + 0]);
                assert forall|m: int| 0 <= m < n - 1 implies (p[(a + 1) + m] == '?' || p[(a + 1) + m] == #[trigger] s[(b + 1) + m]) by {
                    assert(p[a + (m + 1)] == '?' || p[a + (m + 1)] == s[b + (m + 1)]);
                }
            }
        }
    }
}

/// The matcher's state after a `*` at `q`: the pattern between `q` and `pi`
/// (no `*` in it) has matched the segment between `ssi` and `si`. From there
/// the matcher decides whether the pattern from `q` matches the segment from `ssi`.
proof fn lemma_run_after_star(p: Seq<char>, s: Seq<char>, pi: int, si: int, q: int, ssi: int)
    requires
        forall|k: int| 0 <= k < s.len() ==> s[k] != '*',
        0 <= q < pi <= p.len(),
        p[q] == '*',
        0 <= ssi <= si <= s.len(),
        pi - q - 1 == si - ssi,
        forall|m: int| q < m < pi ==> p[m] != '*',
        forall|m: int| 0 <= m < pi - q - 1 ==> (p[q + 1 + m] == '?' || p[q + 1 + m] == #[trigger] s[ssi + m]),
    ensures
        seg_run(p, s, pi, si, Some(q), ssi) == wild(p.skip(q), s.skip(ssi)),
    decreases s.len() - ssi, s.len() - si, p.len() - pi,
{
    let n = pi - q - 1;
    lemma_literal_run(p, s, q + 1, ssi, n);
    lemma_wild_step(p, s, q, ssi);
    assert(q + 1 + n == pi);
    assert(ssi + n == si);
    if si < s.len() {
        if pi < p.len() && (p[pi] == '?' || p[pi] == s[si]) {
            assert(p[pi] != '*');
            assert forall|m: int| 0 <= m < pi + 1 - q - 1 implies (p[q + 1 + m] == '?' || p[q + 1 + m] == #[trigger] s[ssi + m]) by {
                if m == n {
                    assert(q + 1 + m == pi && ssi + m == si);
                }
            }
            lemma_run_after_star(p, s, pi + 1, si + 1, q, ssi);
        } else if pi < p.len() && p[pi] == '*' {
            lemma_run_after_star(p, s, pi + 1, si, pi, si);
            // the pattern from `q` matches from `ssi` exactly when the one from `pi` matches from `si`
            if wild(p.skip(q), s.skip(ssi)) {
                lemma_star_splits(p, s, q, ssi);
                let k = choose|k: int| ssi <= k <= s.len() && #[trigger] wild(p.skip(q + 1), s.skip(k));
                lemma_literal_run(p, s, q + 1, k, n);
                lemma_star_absorbs(p, s, pi, si, k + n);
            }
        } else {
            lemma_wild_step(p, s, pi, si);
            lemma_run_after_star(p, s, q + 1, ssi + 1, q, ssi + 1);
        }
    } else {
        lemma_wild_at_end(p, s, pi);
        assert(s.skip(si) == s.skip(s.len() as int));
        if wild(p.skip(q), s.skip(ssi)) {
            lemma_star_splits(p, s, q, ssi);
            let k = choose|k: int| ssi <= k <= s.len() && #[trigger] wild(p.skip(q + 1), s.skip(k));
            lemma_literal_run(p, s, q + 1, k, n);
        }
    }
}

/// Before any `*` has been met, the matcher at `(pi, si)` decides whether the
/// pattern from `pi` matches the segment from `si`.
proof fn lemma_run_plain(p: Seq<char>, s: Seq<char>, pi: int, si: int, ssi: int)
    requires
        forall|k: int| 0 <= k < s.len() ==> s[k] != '*',
        0 <= pi <= p.len(),
        0 <= ssi <= si <= s.len(),
    ensures
        seg_run(p, s, pi, si, None, ssi) == wild(p.skip(pi), s.skip(si)),
    decreases s.len() - si,
{
    lemma_wild_step(p, s, pi, si);
    if si < s.len() {
        if pi < p.len() && (p[pi] == '?' || p[pi] == s[si]) {
            lemma_run_plain(p, s, pi + 1, si + 1, ssi);
        } else if pi < p.len() && p[pi] == '*' {
            lemma_run_after_star(p, s, pi + 1, si, pi, si);
        }
    } else {
        lemma_wild_at_end(p, s, pi);
    }
}

/// Updating section `## {h}` keeps the lines before its heading, writes the
/// heading and the new body (ending in a newline), then keeps the lines from
/// the next `## ` heading on: nothing of the old body survives.
pub proof fn law_updated_section_replaces_its_body(text: Seq<char>, h: Seq<char>, body: Seq<char>, st: int, en: int)
    requires
        0 <= st < en <= lines_s(text).len(),
        is_heading(lines_s(text)[st], h),
        forall|j: int| 0 <= j < st ==> !is_heading(#[trigger] lines_s(text)[j], h),
        forall|j: int| st < j < en ==> !is_any_heading(#[trigger] lines_s(text)[j]),
        en < lines_s(text).len() ==> is_any_heading(lines_s(text)[en]),
    ensures
        replace_section_s(text, h, body) == Some(
            lines_text(lines_s(text).take(st)) + "## "@ + h + seq!['\n'] + with_final_newline(body)
                + lines_text(lines_s(text).skip(en)),
        ),
{
    let ls = lines_s(text);
    lemma_section_start(ls, h);
    lemma_section_end(ls, st);
    let k = section_start(ls, h)->0;
    if k < st {
        assert(!is_heading(ls[k], h));
    }
    if st < k {
        assert(!is_heading(ls[st], h));
    }
    let e = section_end(ls, st);
    if e < en {
        assert(!is_any_heading(ls[e]));
    }
    if en < e {
        assert(!is_any_heading(ls[en]));
    }
}

/// Names that normalize to the same text are a merge candidate of similarity 1.
pub proof fn law_same_normalized_names_merge(a: Seq<char>, b: Seq<char>)
    requires
        normalize_s(a) == normalize_s(b),
    ensures
        merge_eval_s(a, b) matches Some((s, reason)) && s == Similarity::Identical
            && reason == "identical normalized name: '"@ + normalize_s(a) + "'"@,
{
}

/// Different names where one normalized form begins with the other, the
/// shorter `m` being at least three fifths of the longer `n` (in bytes), are a
/// merge candidate of similarity `m / n`.
pub proof fn law_prefix_names_merge(a: Seq<char>, b: Seq<char>)
    requires
        normalize_s(a) != normalize_s(b),
        starts_with_s(normalize_s(a), normalize_s(b)) || starts_with_s(normalize_s(b), normalize_s(a)),
        5 * utf8_len(normalize_s(a)) >= 3 * utf8_len(normalize_s(b)),
        5 * utf8_len(normalize_s(b)) >= 3 * utf8_len(normalize_s(a)),
    ensures
        ({
            let la = utf8_len(normalize_s(a));
            let lb = utf8_len(normalize_s(b));
            let m = if la <= lb { la } else { lb };
            let n = if la <= lb { lb } else { la };
            merge_eval_s(a, b) matches Some((s, reason)) && s == Similarity::Ratio { num: m as usize, den: n as usize }
                && reason == "name prefix overlap: "@ + "'"@ + normalize_s(a) + "' / '"@ + normalize_s(b) + "'"@
        }),
{
    lemma_quoted_pair("name prefix overlap: "@, normalize_s(a), normalize_s(b));
}

/// Different names that are neither a close enough prefix of each other nor
/// within a quarter of the longer length in edit distance (or of which one
/// normalizes to nothing) are no merge candidate.
pub proof fn law_distant_names_do_not_merge(a: Seq<char>, b: Seq<char>)
    requires
        normalize_s(a) != normalize_s(b),
        !(starts_with_s(normalize_s(a), normalize_s(b)) || starts_with_s(normalize_s(b), normalize_s(a)))
            || 5 * utf8_len(normalize_s(a)) < 3 * utf8_len(normalize_s(b))
            || 5 * utf8_len(normalize_s(b)) < 3 * utf8_len(normalize_s(a)),
        normalize_s(a).len() == 0 || normalize_s(b).len() == 0
            || (4 * lev(normalize_s(a), normalize_s(b)) > utf8_len(normalize_s(a))
                && 4 * lev(normalize_s(a), normalize_s(b)) > utf8_len(normalize_s(b))),
    ensures
        merge_eval_s(a, b) is None,
{
}

/// A `content_block_start` of a `tool_use` block opens a tool call at the
/// event's `index` (0 when absent) with the block's id and name and no
/// arguments yet.
pub proof fn law_tool_block_start_opens_call(j: JsonV)
    requires
        jstr(jfield(jget(j, "content_block"@), "type"@)) == Some("tool_use"@),
    ensures
        anthropic_event_s("content_block_start"@, j) matches Some((text, Some((idx, id, name, args)), fin))
            && text.len() == 0 && fin is None && args is None
            && id == jstr(jfield(jget(j, "content_block"@), "id"@))
            && name == jstr(jfield(jget(j, "content_block"@), "name"@))
            && (ju64(jget(j, "index"@)) matches Some(n) ==> idx == n as u32)
            && (ju64(jget(j, "index"@)) is None ==> idx == 0),
{
    reveal_strlit("content_block_delta");
    reveal_strlit("content_block_start");
    assert("content_block_start"@[14] != "content_block_delta"@[14]);
}

/// A `content_block_delta` of type `text_delta` carries its text, and nothing
/// when that text is empty.
pub proof fn law_text_delta_carries_text(j: JsonV)
    requires
        jstr(jfield(jget(j, "delta"@), "type"@)) == Some("text_delta"@),
    ensures
        ({
            let t = str_or_empty(jstr(jfield(jget(j, "delta"@), "text"@)));
            &&& t.len() == 0 ==> anthropic_event_s("content_block_delta"@, j) is None
            &&& t.len() > 0 ==> anthropic_event_s("content_block_delta"@, j) == Some((t, None::<DeltaV>, None::<FinishV>))
        }),
{
}

/// A `message_delta` event carries only the finish reason read from its
/// `stop_reason`, or none when that is absent.
pub proof fn law_message_delta_carries_finish(j: JsonV)
    ensures
        anthropic_event_s("message_delta"@, j) == Some((
            Seq::<char>::empty(),
            None::<DeltaV>,
            match jstr(jfield(jget(j, "delta"@), "stop_reason"@)) {
                Some(s) => Some(anthropic_stop_s(s)),
                None => None,
            },
        )),
{
    reveal_strlit("message_delta");
    reveal_strlit("content_block_delta");
    reveal_strlit("content_block_start");
    assert("message_delta"@.len() != "content_block_delta"@.len());
    assert("message_delta"@.len() != "content_block_start"@.len());
}

/// Events other than block starts, block deltas and message deltas, block
/// deltas of another type than text or tool input, and block starts of
/// another block than a tool call, yield no chunk.
pub proof fn law_other_events_yield_nothing(ev: Seq<char>, j: JsonV)
    requires
        ev != "content_block_delta"@ || (jstr(jfield(jget(j, "delta"@), "type"@)) != Some("text_delta"@)
            && jstr(jfield(jget(j, "delta"@), "type"@)) != Some("input_json_delta"@)),
        ev != "content_block_start"@ || jstr(jfield(jget(j, "content_block"@), "type"@)) != Some("tool_use"@),
        ev != "message_delta"@,
    ensures
        anthropic_event_s(ev, j) is None,
{
}

/// A patch that sets only the body keeps the file through its closing
/// frontmatter fence, then writes a blank line and the new body, ending in a
/// newline.
pub proof fn law_body_patch_replaces_body(raw: Seq<char>, patch: SkillPatch, o: int, c: int)
    requires
        patch.trigger_words is None,
        patch.description is None,
        patch.content is Some,
        0 <= o < c < lines_s(raw).len(),
        trim_s(lines_s(raw)[o]) == "---"@,
        forall|k: int| 0 <= k < o ==> trim_s(#[trigger] lines_s(raw)[k]) != "---"@,
        trim_s(lines_s(raw)[c]) == "---"@,
        forall|k: int| o < k < c ==> trim_s(#[trigger] lines_s(raw)[k]) != "---"@,
    ensures
        ({
            let b = patch.content->0@;
            apply_patch_s(raw, patch) == Ok::<Seq<char>, Seq<char>>(
                lines_text(lines_s(raw).take(c + 1)) + seq!['\n']
                    + (if b.len() > 0 && b.last() == '\n' { b } else { b.push('\n') }),
            )
        }),
{
    let ls = lines_s(raw);
    lemma_fence_is(ls, 0, o);
    lemma_fence_is(ls, o + 1, c);
}

/// A patch that sets the body of a file without frontmatter fails: without
/// any fence line for want of its opening, with only one for want of its
/// closing.
pub proof fn law_body_patch_needs_frontmatter(raw: Seq<char>, patch: SkillPatch)
    requires
        patch.trigger_words is None,
        patch.description is None,
        patch.content is Some,
    ensures
        (forall|k: int| 0 <= k < lines_s(raw).len() ==> trim_s(#[trigger] lines_s(raw)[k]) != "---"@)
            ==> apply_patch_s(raw, patch) == Err::<Seq<char>, Seq<char>>("missing YAML frontmatter opening"@),
        (exists|o: int| 0 <= o < lines_s(raw).len() && trim_s(#[trigger] lines_s(raw)[o]) == "---"@
            && forall|k: int| 0 <= k < lines_s(raw).len() && k != o ==> trim_s(#[trigger] lines_s(raw)[k]) != "---"@)
            ==> apply_patch_s(raw, patch) == Err::<Seq<char>, Seq<char>>("missing YAML frontmatter closing"@),
{
    let ls = lines_s(raw);
    lemma_first_fence(ls, 0);
    if exists|o: int| 0 <= o < ls.len() && trim_s(#[trigger] ls[o]) == "---"@
        && forall|k: int| 0 <= k < ls.len() && k != o ==> trim_s(#[trigger] ls[k]) != "---"@ {
        let o = choose|o: int| 0 <= o < ls.len() && trim_s(#[trigger] ls[o]) == "---"@
            && forall|k: int| 0 <= k < ls.len() && k != o ==> trim_s(#[trigger] ls[k]) != "---"@;
        lemma_fence_is(ls, 0, o);
        lemma_first_fence(ls, o + 1);
        if let Some(e) = first_fence_from(ls, o + 1) {
            assert(trim_s(ls[e]) != "---"@);
        }
    }
    if forall|k: int| 0 <= k < ls.len() ==> trim_s(#[trigger] ls[k]) != "---"@ {
        if let Some(e) = first_fence_from(ls, 0) {
            assert(trim_s(ls[e]) != "---"@);
        }
    }
}

/// A patch that sets only the trigger words of a file whose frontmatter has
/// no `trigger_words:` field adds the field, with the words as a list, as the
/// last line before the closing fence, and keeps every other line.
#[verifier::spinoff_prover]
#[verifier::rlimit(40)]
pub proof fn law_trigger_patch_adds_field(raw: Seq<char>, patch: SkillPatch, o: int, c: int)
    requires
        patch.trigger_words is Some,
        patch.description is None,
        patch.content is None,
        0 <= o < c < lines_s(raw).len(),
        trim_s(lines_s(raw)[o]) == "---"@,
        forall|k: int| 0 <= k < o ==> trim_s(#[trigger] lines_s(raw)[k]) != "---"@,
        trim_s(lines_s(raw)[c]) == "---"@,
        forall|k: int| o < k < c ==> trim_s(#[trigger] lines_s(raw)[k]) != "---"@,
        forall|k: int| o < k < c ==> !starts_with_s(trim_start_s(#[trigger] lines_s(raw)[k]), "trigger_words:"@),
    ensures
        apply_patch_s(raw, patch) == Ok::<Seq<char>, Seq<char>>(
            lines_text(lines_s(raw).take(c)) + "trigger_words"@ + ":"@ + yaml_list_s(string_views(patch.trigger_words->0@))
                + seq!['\n'] + lines_text(lines_s(raw).skip(c)),
        ),
{
    let ls = lines_s(raw);
    lemma_fence_is(ls, 0, o);
    lemma_fence_is(ls, o + 1, c);
    reveal_strlit("trigger_words");
    reveal_strlit("trigger_words:");
    reveal_strlit(":");
    assert("trigger_words"@ + ":"@ =~= "trigger_words:"@);
    if let Some(k) = key_line(ls, "trigger_words"@, o, c) {
        lemma_key_line(ls, "trigger_words"@, o, c);
        assert(!starts_with_s(trim_start_s(ls[k]), "trigger_words:"@));
    }
}

/// A patch that sets only the trigger words of a file whose frontmatter has a
/// `trigger_words:` field rewrites that field: the lines before its first
/// line stay, its value lines (indented, list items, blank lines among them)
/// give way to the words as a list, and everything from the first line that
/// ends the field (or the closing fence) on stays.
#[verifier::spinoff_prover]
#[verifier::rlimit(40)]
pub proof fn law_trigger_patch_replaces_field(raw: Seq<char>, patch: SkillPatch, o: int, c: int, k: int)
    requires
        patch.trigger_words is Some,
        patch.description is None,
        patch.content is None,
        0 <= o < k < c < lines_s(raw).len(),
        trim_s(lines_s(raw)[o]) == "---"@,
        forall|m: int| 0 <= m < o ==> trim_s(#[trigger] lines_s(raw)[m]) != "---"@,
        trim_s(lines_s(raw)[c]) == "---"@,
        forall|m: int| o < m < c ==> trim_s(#[trigger] lines_s(raw)[m]) != "---"@,
        starts_with_s(trim_start_s(lines_s(raw)[k]), "trigger_words:"@),
        forall|m: int| o < m < k ==> !starts_with_s(trim_start_s(#[trigger] lines_s(raw)[m]), "trigger_words:"@),
    ensures
        exists|f: int| #![trigger lines_s(raw).skip(f)]
            k < f <= c
            && (forall|m: int| k < m < f ==> (#[trigger] lines_s(raw)[m]).len() == 0 || is_continuation(lines_s(raw)[m]))
            && (forall|m: int| k < m < f ==> !ends_field(lines_s(raw), m, c))
            && (f < c ==> ends_field(lines_s(raw), f, c))
            && apply_patch_s(raw, patch) == Ok::<Seq<char>, Seq<char>>(
                lines_text(lines_s(raw).take(k)) + "trigger_words"@ + ":"@
                    + yaml_list_s(string_views(patch.trigger_words->0@)) + seq!['\n'] + lines_text(lines_s(raw).skip(f)),
            ),
{
    let ls = lines_s(raw);
    lemma_fence_is(ls, 0, o);
    lemma_fence_is(ls, o + 1, c);
    reveal_strlit("trigger_words");
    reveal_strlit("trigger_words:");
    reveal_strlit(":");
    assert("trigger_words"@ + ":"@ =~= "trigger_words:"@);
    lemma_key_line(ls, "trigger_words"@, o, c);
    match key_line(ls, "trigger_words"@, o, c) {
        None => {
            assert(is_key_line(ls[k], "trigger_words"@));
        },
        Some(kk) => {
            if kk < k {
                assert(!starts_with_s(trim_start_s(ls[kk]), "trigger_words:"@));
            }
            if k < kk {
                assert(!is_key_line(ls[k], "trigger_words"@));
            }
            assert(kk == k);
        },
    }
    lemma_field_end(ls, k, c);
    let f = field_end_s(ls, k, c);
    assert forall|m: int| k < m < f implies (#[trigger] ls[m]).len() == 0 || is_continuation(ls[m]) by {
        assert(!ends_field(ls, m, c));
    }
    assert(ls.skip(f) == ls.skip(f));
}

/// `e` is the first fence at or after `from` exactly when `first_fence_from` finds it.
proof fn lemma_fence_is(ls: Seq<Seq<char>>, from: int, e: int)
    requires
        0 <= from <= e < ls.len(),
        is_fence(ls[e]),
        forall|k: int| from <= k < e ==> !is_fence(#[trigger] ls[k]),
    ensures
        first_fence_from(ls, from) == Some(e),
{
    lemma_first_fence(ls, from);
    match first_fence_from(ls, from) {
        None => {
            assert(!is_fence(ls[e]));
        },
        Some(f) => {
            if f < e {
                assert(!is_fence(ls[f]));
            }
            if e < f {
                assert(!is_fence(ls[e]));
            }
        },
    }
}

/// `key_line` is the first line in `(start, end)` that starts the field, or
/// `None` when there is none.
proof fn lemma_key_line(ls: Seq<Seq<char>>, key: Seq<char>, start: int, end: int)
    ensures
        match key_line(ls, key, start, end) {
            Some(k) => start < k < end && is_key_line(ls[k], key) && forall|j: int| start < j < k ==> !is_key_line(#[trigger] ls[j], key),
            None => forall|k: int| start < k < end ==> !is_key_line(#[trigger] ls[k], key),
        },
{
    if exists|k: int| start < k < end && is_key_line(#[trigger] ls[k], key) {
        let k = choose|k: int| start < k < end && is_key_line(#[trigger] ls[k], key);
        let p = |i: int| start < i < end && is_key_line(ls[i], key);
        assert(p(k));
        crate::text::lemma_least_from(p, start + 1, k);
        let m = choose|m: int| start + 1 <= m <= k && #[trigger] p(m) && forall|j: int| start + 1 <= j < m ==> !#[trigger] p(j);
        assert forall|j: int| start < j < m implies !is_key_line(#[trigger] ls[j], key) by {
            assert(!p(j));
        }
    }
}

/// `field_end_s` is the first line after the key line that ends the field,
/// or the closing fence when none does.
proof fn lemma_field_end(ls: Seq<Seq<char>>, k: int, c: int)
    requires
        k < c,
    ensures
        k < field_end_s(ls, k, c) <= c,
        forall|j: int| k < j < field_end_s(ls, k, c) ==> !ends_field(ls, j, c),
        field_end_s(ls, k, c) < c ==> ends_field(ls, field_end_s(ls, k, c), c),
{
    if exists|i: int| k < i < c && ends_field(ls, i, c) {
        let i = choose|i: int| k < i < c && ends_field(ls, i, c);
        let p = |x: int| k < x < c && ends_field(ls, x, c);
        assert(p(i));
        crate::text::lemma_least_from(p, k + 1, i);
        let m = choose|m: int| k + 1 <= m <= i && #[trigger] p(m) && forall|j: int| k + 1 <= j < m ==> !#[trigger] p(j);
        assert forall|j: int| k < j < m implies !ends_field(ls, j, c) by {
            assert(!p(j));
        }
    }
}

/// A SKILL.md text that (after leading whitespace) is `---`, the frontmatter
/// `fm`, then the first `\n---` and the rest, splits into `fm` and the rest
/// trimmed as its body.
pub proof fn law_skill_file_splits_at_first_closing_fence(raw: Seq<char>, fm: Seq<char>, rest: Seq<char>)
    requires
        trim_start_s(raw) == "---"@ + fm + "\n---"@ + rest,
        forall|j: int| 0 <= j < fm.len() ==> !occurs_at(fm + "\n---"@ + rest, "\n---"@, j),
    ensures
        skill_md_s(raw) matches Ok((f, b, d)) && f == fm && b == trim_s(rest) && d == description_s(trim_s(rest)),
{
    reveal_strlit("---");
    reveal_strlit("\n---");
    let t = trim_start_s(raw);
    let after = fm + "\n---"@ + rest;
    assert(t.subrange(0, 3) =~= "---"@);
    assert(t.skip(3) =~= after);
    assert(after.subrange(fm.len() as int, fm.len() + 4int) =~= "\n---"@);
    lemma_occurs_unique_first(after, "\n---"@, fm.len() as int);
    assert(after.take(fm.len() as int) =~= fm);
    assert(after.skip(fm.len() + 4int) =~= rest);
}

/// The description of a skill body is its first non-blank line, trimmed,
/// without its leading `#`s, trimmed again; empty when every line is blank.
pub proof fn law_description_is_first_nonblank_line(body: Seq<char>)
    ensures
        forall|i: int| 0 <= i < lines_s(body).len() && trim_s(#[trigger] lines_s(body)[i]).len() > 0
            && (forall|j: int| 0 <= j < i ==> trim_s(#[trigger] lines_s(body)[j]).len() == 0)
            ==> description_s(body) == trim_s(strip_hashes_s(trim_s(lines_s(body)[i]))),
        (forall|j: int| 0 <= j < lines_s(body).len() ==> trim_s(#[trigger] lines_s(body)[j]).len() == 0)
            ==> description_s(body).len() == 0,
{
    let ls = lines_s(body);
    assert forall|i: int| 0 <= i < ls.len() && trim_s(#[trigger] ls[i]).len() > 0
        && (forall|j: int| 0 <= j < i ==> trim_s(#[trigger] ls[j]).len() == 0)
        implies description_s(body) == trim_s(strip_hashes_s(trim_s(ls[i]))) by {
        lemma_first_nonblank_from(ls, 0, i);
    }
    if forall|j: int| 0 <= j < ls.len() ==> trim_s(#[trigger] ls[j]).len() == 0 {
        lemma_first_nonblank_none(ls, 0);
    }
}

/// Searching for a non-blank line from `k` up to the first one at `i` finds it.
proof fn lemma_first_nonblank_from(ls: Seq<Seq<char>>, k: int, i: int)
    requires
        0 <= k <= i < ls.len(),
        trim_s(ls[i]).len() > 0,
        forall|j: int| k <= j < i ==> trim_s(#[trigger] ls[j]).len() == 0,
    ensures
        first_nonblank(ls, k) == Some(ls[i]),
    decreases i - k,
{
    if k < i {
        lemma_first_nonblank_from(ls, k + 1, i);
    }
}

/// Searching for a non-blank line from `k` among blank lines finds none.
proof fn lemma_first_nonblank_none(ls: Seq<Seq<char>>, k: int)
    requires
        0 <= k,
        forall|j: int| k <= j < ls.len() ==> trim_s(#[trigger] ls[j]).len() == 0,
    ensures
        first_nonblank(ls, k) is None,
    decreases ls.len() - k,
{
    if k < ls.len() {
        lemma_first_nonblank_none(ls, k + 1);
    }
}

/// A webhook path routes to the first registered channel whose name is the
/// path segment in lower case; case does not matter.
pub proof fn law_webhook_routes_to_named_channel(segment: Seq<char>, registered: Seq<ChannelKind>, k: int)
    requires
        0 <= k < registered.len(),
        channel_kind_name(registered[k]) == str_lower(segment),
        forall|j: int| 0 <= j < k ==> channel_kind_name(#[trigger] registered[j]) != str_lower(segment),
    ensures
        route_s(segment, registered) == Some(k),
{
    let c = choose|c: int|
        0 <= c < registered.len() && channel_kind_name(registered[c]) == str_lower(segment) && forall|j: int|
            0 <= j < c ==> channel_kind_name(registered[j]) != str_lower(segment);
    assert(0 <= k < registered.len() && channel_kind_name(registered[k]) == str_lower(segment) && forall|j: int|
            0 <= j < k ==> channel_kind_name(registered[j]) != str_lower(segment));
    if c < k {
        assert(channel_kind_name(registered[c]) != str_lower(segment));
    }
    if k < c {
        assert(channel_kind_name(registered[k]) != str_lower(segment));
    }
}

/// A webhook path that names no registered channel (in any case) routes nowhere.
pub proof fn law_webhook_unknown_channel(segment: Seq<char>, registered: Seq<ChannelKind>)
    requires
        forall|j: int| 0 <= j < registered.len() ==> channel_kind_name(#[trigger] registered[j]) != str_lower(segment),
    ensures
        route_s(segment, registered) is None,
{
}

/// A configuration value `env:NAME` resolves to the value of the first entry
/// for `NAME` in the environment (empty when there is none); any other value
/// stays as it is.
pub proof fn law_env_reference_resolves(value: Seq<char>, env: Seq<(Seq<char>, Seq<char>)>)
    ensures
        !starts_with_s(value, "env:"@) ==> resolve_env_s(value, env) == value,
        starts_with_s(value, "env:"@) ==> (forall|i: int| 0 <= i < env.len() && (#[trigger] env[i]).0 == value.skip(4)
            && (forall|j: int| 0 <= j < i ==> (#[trigger] env[j]).0 != value.skip(4))
            ==> resolve_env_s(value, env) == env[i].1),
        starts_with_s(value, "env:"@) ==> ((forall|j: int| 0 <= j < env.len() ==> (#[trigger] env[j]).0 != value.skip(4))
            ==> resolve_env_s(value, env).len() == 0),
{
    reveal_strlit("env:");
    if starts_with_s(value, "env:"@) {
        assert(value.subrange(0, 4) =~= value.take(4));
        assert forall|i: int| 0 <= i < env.len() && (#[trigger] env[i]).0 == value.skip(4)
            && (forall|j: int| 0 <= j < i ==> (#[trigger] env[j]).0 != value.skip(4))
            implies resolve_env_s(value, env) == env[i].1 by {
            lemma_lookup_first(env, value.skip(4), i);
        }
        if forall|j: int| 0 <= j < env.len() ==> (#[trigger] env[j]).0 != value.skip(4) {
            lemma_lookup_absent(env, value.skip(4));
        }
    } else {
        if value.len() >= 4 && value.take(4) == "env:"@ {
            assert(value.subrange(0, 4) =~= value.take(4));
        }
    }
}

/// Looking a key up finds the value of its first entry.
proof fn lemma_lookup_first(t: Seq<(Seq<char>, Seq<char>)>, key: Seq<char>, i: int)
    requires
        0 <= i < t.len(),
        t[i].0 == key,
        forall|j: int| 0 <= j < i ==> (#[trigger] t[j]).0 != key,
    ensures
        lookup_s(t, key) == Some(t[i].1),
    decreases i,
{
    if i > 0 {
        assert(t[0].0 != key);
        assert forall|j: int| 0 <= j < i - 1 implies (#[trigger] t.drop_first()[j]).0 != key by {
            assert(t[j + 1].0 != key);
        }
        lemma_lookup_first(t.drop_first(), key, i - 1);
    }
}

/// Looking up a key without an entry finds nothing.
proof fn lemma_lookup_absent(t: Seq<(Seq<char>, Seq<char>)>, key: Seq<char>)
    requires
        forall|j: int| 0 <= j < t.len() ==> (#[trigger] t[j]).0 != key,
    ensures
        lookup_s(t, key) is None,
    decreases t.len(),
{
    if t.len() > 0 {
        assert(t[0].0 != key);
        assert forall|j: int| 0 <= j < t.len() - 1 implies (#[trigger] t.drop_first()[j]).0 != key by {
            assert(t[j + 1].0 != key);
        }
        lemma_lookup_absent(t.drop_first(), key);
    }
}

/// Trigger matching ignores case: queries that agree in lower case trigger
/// the same skills, and a query that holds a trigger word, or is held in one,
/// triggers it.
pub proof fn law_trigger_match_ignores_case(words: Seq<Seq<char>>, q1: Seq<char>, q2: Seq<char>, k: int)
    requires
        str_lower(q1) == str_lower(q2),
    ensures
        matches_trigger_s(words, q1) == matches_trigger_s(words, q2),
        0 <= k < words.len() && (contains_s(str_lower(q1), str_lower(words[k])) || contains_s(str_lower(words[k]), str_lower(q1)))
            ==> matches_trigger_s(words, q1),
{
    if 0 <= k < words.len() && (contains_s(str_lower(q1), str_lower(words[k])) || contains_s(str_lower(words[k]), str_lower(q1))) {
        assert(trigger_hit_s(words[k], q1));
    }
}

} // verus!
