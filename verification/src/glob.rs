//! Glob matching used by the file tools.
//!
//! A pattern and a path are both split into `/`-separated segments (after
//! turning `\` into `/`, and dropping empty segments).  `**` matches any number
//! of whole segments; inside a segment `*` matches any run of characters and
//! `?` matches exactly one.
use vstd::prelude::*;
use crate::text::{chars_of, replace_char, replace_char_s, string_of};

verus! {

// ───────────────────────────── specifications ─────────────────────────────

/// Split at `/`, dropping empty pieces, reading left to right with the current piece `cur`.
pub open spec fn segs_acc(s: Seq<char>, cur: Seq<char>) -> Seq<Seq<char>>
    decreases s.len(),
{
    if s.len() == 0 {
        if cur.len() == 0 {
            seq![]
        } else {
            seq![cur]
        }
    } else if s[0] == '/' {
        (if cur.len() == 0 {
            seq![]
        } else {
            seq![cur]
        }) + segs_acc(s.drop_first(), seq![])
    } else {
        segs_acc(s.drop_first(), cur.push(s[0]))
    }
}

/// The non-empty `/`-separated segments of `s`.
pub open spec fn segments(s: Seq<char>) -> Seq<Seq<char>> {
    segs_acc(s, seq![])
}

/// `\` replaced by `/`.
pub open spec fn normalize_sep_s(s: Seq<char>) -> Seq<char> {
    replace_char_s(s, '\\', '/')
}

/// The segment `**`.
pub open spec fn is_globstar(seg: Seq<char>) -> bool {
    seg == seq!['*', '*']
}

/// Wildcard matching of one segment: `*` matches any run of characters,
/// `?` exactly one character, any other character itself.
pub open spec fn wild(p: Seq<char>, s: Seq<char>) -> bool
    decreases p.len() + s.len(),
{
    if p.len() == 0 {
        s.len() == 0
    } else if p[0] == '*' {
        wild(p.drop_first(), s) || (s.len() > 0 && wild(p, s.drop_first()))
    } else if s.len() == 0 {
        false
    } else {
        (p[0] == '?' || p[0] == s[0]) && wild(p.drop_first(), s.drop_first())
    }
}

/// Every character of `p` from `pi` on is `*`.
pub open spec fn all_stars_from(p: Seq<char>, pi: int) -> bool {
    forall|k: int| pi <= k < p.len() ==> p[k] == '*'
}

/// The segment matcher as a run of its scanning machine: position `pi` in the
/// pattern, `si` in the segment, and the last `*` seen (at `sp`, tried from `ssi`).
/// A pattern character that equals the segment character is consumed as a
/// literal before it is considered as a wildcard.
pub open spec fn seg_run(p: Seq<char>, s: Seq<char>, pi: int, si: int, sp: Option<int>, ssi: int) -> bool
    decreases s.len() - ssi, s.len() - si, p.len() - pi,
    when 0 <= pi <= p.len() && 0 <= ssi <= si <= s.len()
{
    if si < s.len() {
        if pi < p.len() && (p[pi] == '?' || p[pi] == s[si]) {
            seg_run(p, s, pi + 1, si + 1, sp, ssi)
        } else if pi < p.len() && p[pi] == '*' {
            seg_run(p, s, pi + 1, si, Some(pi), si)
        } else {
            match sp {
                Some(q) => if 0 <= q < p.len() {
                    seg_run(p, s, q + 1, ssi + 1, sp, ssi + 1)
                } else {
                    false
                },
                None => false,
            }
        }
    } else {
        all_stars_from(p, pi)
    }
}

/// The segment matcher's verdict on `p` against `s`.
pub open spec fn seg_match(p: Seq<char>, s: Seq<char>) -> bool {
    seg_run(p, s, 0, 0, None, 0)
}

/// Segment-list matching: `**` matches zero or more segments, any other
/// pattern segment matches exactly one path segment.
pub open spec fn segs_match(p: Seq<Seq<char>>, s: Seq<Seq<char>>) -> bool
    decreases p.len(), s.len(),
{
    if p.len() == 0 {
        s.len() == 0
    } else if is_globstar(p[0]) {
        segs_match(p.drop_first(), s) || (s.len() > 0 && segs_match(p, s.drop_first()))
    } else if s.len() == 0 {
        false
    } else {
        seg_match(p[0], s[0]) && segs_match(p.drop_first(), s.drop_first())
    }
}

/// `matches_glob(pattern, path)`.
pub open spec fn glob_match(pattern: Seq<char>, path: Seq<char>) -> bool {
    segs_match(segments(normalize_sep_s(pattern)), segments(normalize_sep_s(path)))
}

// ───────────────────────────── executable functions ─────────────────────────────

/// Normalize path separators to `/`.
pub fn normalize_sep(path: &str) -> (r: String)
    ensures
        r@ == normalize_sep_s(path@),
{
    let v = chars_of(path);
    let w = replace_char(v.as_slice(), '\\', '/');
    string_of(w.as_slice())
}

/// The non-empty `/`-separated segments of `s`.
pub fn split_segments(s: &[char]) -> (r: Vec<Vec<char>>)
    ensures
        r@.len() == segments(s@).len(),
        forall|k: int| 0 <= k < r@.len() ==> #[trigger] r@[k]@ == segments(s@)[k],
{
    let mut out: Vec<Vec<char>> = Vec::new();
    let mut cur: Vec<char> = Vec::new();
    let ghost views: Seq<Seq<char>> = seq![];
    let mut i: usize = 0;
    assert(s@.skip(0) =~= s@);
    assert(views + segs_acc(s@, cur@) =~= segs_acc(s@, seq![]));
    while i < s.len()
        invariant
            i <= s@.len(),
            out@.len() == views.len(),
            forall|k: int| 0 <= k < out@.len() ==> #[trigger] out@[k]@ == views[k],
            views + segs_acc(s@.skip(i as int), cur@) == segments(s@),
        decreases s.len() - i,
    {
        let c = s[i];
        let ghost rest = s@.skip(i as int);
        assert(rest[0] == c);
        assert(rest.drop_first() =~= s@.skip(i + 1));
        if c == '/' {
            if cur.len() > 0 {
                proof {
                    assert(views.push(cur@) + segs_acc(s@.skip(i + 1), seq![]) =~= views + (seq![
                        cur@,
                    ] + segs_acc(s@.skip(i + 1), seq![])));
                    views = views.push(cur@);
                }
                out.push(cur);
            } else {
                assert(views + segs_acc(s@.skip(i + 1), seq![]) =~= views + (seq![] + segs_acc(
                    s@.skip(i + 1),
                    seq![],
                )));
            }
            cur = Vec::new();
        } else {
            cur.push(c);
        }
        i = i + 1;
    }
    assert(s@.skip(i as int).len() == 0);
    if cur.len() > 0 {
        proof {
            assert(views.push(cur@) =~= views + seq![cur@]);
            views = views.push(cur@);
        }
        out.push(cur);
    } else {
        assert(views + seq![] =~= views);
    }
    out
}

/// Match a single path segment against a single pattern segment.
/// Supports `*` (any characters) and `?` (a single character).
pub fn match_segment(pattern: &[char], segment: &[char]) -> (r: bool)
    ensures
        r == seg_match(pattern@, segment@),
{
    let p = pattern;
    let s = segment;
    let mut pi: usize = 0;
    let mut si: usize = 0;
    let mut star_pi: Option<usize> = None;
    let mut star_si: usize = 0;
    while si < s.len()
        invariant
            p@ == pattern@,
            s@ == segment@,
            pi <= p@.len(),
            star_si <= si <= s@.len(),
            star_pi matches Some(q) ==> q < p@.len(),
            seg_run(p@, s@, pi as int, si as int, match star_pi {
                Some(q) => Some(q as int),
                None => None,
            }, star_si as int) == seg_match(p@, s@),
        decreases s@.len() - star_si, s@.len() - si, p@.len() - pi,
    {
        if pi < p.len() && (p[pi] == '?' || p[pi] == s[si]) {
            pi = pi + 1;
            si = si + 1;
        } else if pi < p.len() && p[pi] == '*' {
            star_pi = Some(pi);
            star_si = si;
            pi = pi + 1;
        } else if let Some(sp) = star_pi {
            pi = sp + 1;
            star_si = star_si + 1;
            si = star_si;
        } else {
            assert(!seg_run(p@, s@, pi as int, si as int, None, star_si as int));
            return false;
        }
    }
    let ghost pi0 = pi;
    while pi < p.len() && p[pi] == '*'
        invariant
            p@ == pattern@,
            s@ == segment@,
            pi0 <= pi <= p@.len(),
            forall|k: int| pi0 <= k < pi ==> p@[k] == '*',
            all_stars_from(p@, pi0 as int) == seg_match(p@, s@),
        decreases p@.len() - pi,
    {
        pi = pi + 1;
    }
    pi == p.len()
}

/// Whether a segment is `**`.
pub fn is_globstar_exec(seg: &[char]) -> (r: bool)
    ensures
        r == is_globstar(seg@),
{
    let r = seg.len() == 2 && seg[0] == '*' && seg[1] == '*';
    proof {
        if seg@.len() == 2 && seg@[0] == '*' && seg@[1] == '*' {
            assert(seg@ =~= seq!['*', '*']);
        }
    }
    r
}

/// Match the pattern segments from `pi` against the path segments from `si`.
pub fn match_segments(pattern: &Vec<Vec<char>>, pi: usize, path: &Vec<Vec<char>>, si: usize) -> (r: bool)
    requires
        pi <= pattern@.len(),
        si <= path@.len(),
    ensures
        r == segs_match(
            pattern@.skip(pi as int).map_values(|v: Vec<char>| v@),
            path@.skip(si as int).map_values(|v: Vec<char>| v@),
        ),
    decreases pattern@.len() - pi, path@.len() - si,
{
    let ghost ps = pattern@.skip(pi as int).map_values(|v: Vec<char>| v@);
    let ghost ss = path@.skip(si as int).map_values(|v: Vec<char>| v@);
    proof {
        assert(pi < pattern@.len() ==> ps.drop_first() =~= pattern@.skip(pi + 1).map_values(
            |v: Vec<char>| v@,
        ));
        assert(si < path@.len() ==> ss.drop_first() =~= path@.skip(si + 1).map_values(
            |v: Vec<char>| v@,
        ));
    }
    if pi == pattern.len() {
        return si == path.len();
    }
    assert(ps[0] == pattern@[pi as int]@);
    if is_globstar_exec(pattern[pi].as_slice()) {
        if match_segments(pattern, pi + 1, path, si) {
            return true;
        }
        return si < path.len() && match_segments(pattern, pi, path, si + 1);
    }
    if si == path.len() {
        return false;
    }
    assert(ss[0] == path@[si as int]@);
    if match_segment(pattern[pi].as_slice(), path[si].as_slice()) {
        return match_segments(pattern, pi + 1, path, si + 1);
    }
    false
}

/// Match `path` against a glob `pattern`.
///
/// Supports `*` (any chars except `/`), `?` (single char), and
/// `**` (any number of path components).
pub fn matches_glob(pattern: &str, path: &str) -> (r: bool)
    ensures
        r == glob_match(pattern@, path@),
{
    let p = normalize_sep(pattern);
    let s = normalize_sep(path);
    let pv = chars_of(p.as_str());
    let sv = chars_of(s.as_str());
    let p_segs = split_segments(pv.as_slice());
    let s_segs = split_segments(sv.as_slice());
    let r = match_segments(&p_segs, 0, &s_segs, 0);
    proof {
        assert(p_segs@.skip(0).map_values(|v: Vec<char>| v@) =~= segments(normalize_sep_s(
            pattern@,
        )));
        assert(s_segs@.skip(0).map_values(|v: Vec<char>| v@) =~= segments(normalize_sep_s(
            path@,
        )));
    }
    r
}

} // verus!
