//! Text primitives shared by the whole library.
//!
//! Every piece of text is modelled by its sequence of Unicode scalar values
//! (`Seq<char>`, the view of `str` and `String`).  The specification functions
//! here describe the handful of `str` operations the library relies on
//! (`trim`, `lines`, `contains`, `find`, `starts_with`, UTF-8 byte length) and
//! the executable functions compute them on `Vec<char>` buffers.
use vstd::prelude::*;

verus! {

// ───────────────────────────── specifications ─────────────────────────────

/// Characters that Rust's `char::is_whitespace` accepts (Unicode `White_Space`).
pub open spec fn is_ws(c: char) -> bool {
    let u = c as u32;
    ||| (0x09 <= u && u <= 0x0D)
    ||| u == 0x20
    ||| u == 0x85
    ||| u == 0xA0
    ||| u == 0x1680
    ||| (0x2000 <= u && u <= 0x200A)
    ||| u == 0x2028
    ||| u == 0x2029
    ||| u == 0x202F
    ||| u == 0x205F
    ||| u == 0x3000
}

/// `str::trim_start`: drop leading whitespace.
pub open spec fn trim_start_s(s: Seq<char>) -> Seq<char>
    decreases s.len(),
{
    if s.len() > 0 && is_ws(s[0]) {
        trim_start_s(s.drop_first())
    } else {
        s
    }
}

/// `str::trim_end`: drop trailing whitespace.
pub open spec fn trim_end_s(s: Seq<char>) -> Seq<char>
    decreases s.len(),
{
    if s.len() > 0 && is_ws(s.last()) {
        trim_end_s(s.drop_last())
    } else {
        s
    }
}

/// `str::trim`: drop leading and trailing whitespace.
pub open spec fn trim_s(s: Seq<char>) -> Seq<char> {
    trim_end_s(trim_start_s(s))
}

/// A line as `str::lines` yields it: a final `'\r'` before the `'\n'` is removed.
pub open spec fn strip_cr(l: Seq<char>) -> Seq<char> {
    if l.len() > 0 && l.last() == '\r' {
        l.drop_last()
    } else {
        l
    }
}

/// `str::lines`, read left to right with the current partial line `cur`.
pub open spec fn lines_acc(s: Seq<char>, cur: Seq<char>) -> Seq<Seq<char>>
    decreases s.len(),
{
    if s.len() == 0 {
        if cur.len() == 0 {
            seq![]
        } else {
            seq![cur]
        }
    } else if s[0] == '\n' {
        seq![strip_cr(cur)] + lines_acc(s.drop_first(), seq![])
    } else {
        lines_acc(s.drop_first(), cur.push(s[0]))
    }
}

/// The lines of `s` as `str::lines` yields them.
pub open spec fn lines_s(s: Seq<char>) -> Seq<Seq<char>> {
    lines_acc(s, seq![])
}

/// Each line followed by a newline, concatenated.
pub open spec fn lines_text(ls: Seq<Seq<char>>) -> Seq<char>
    decreases ls.len(),
{
    if ls.len() == 0 {
        seq![]
    } else {
        lines_text(ls.drop_last()) + ls.last() + seq!['\n']
    }
}

/// `join(sep)` of a list of strings.
pub open spec fn join_s(ls: Seq<Seq<char>>, sep: Seq<char>) -> Seq<char>
    decreases ls.len(),
{
    if ls.len() == 0 {
        seq![]
    } else if ls.len() == 1 {
        ls[0]
    } else {
        join_s(ls.drop_last(), sep) + sep + ls.last()
    }
}

/// `p` occurs in `s` at position `i`.
pub open spec fn occurs_at(s: Seq<char>, p: Seq<char>, i: int) -> bool {
    0 <= i && i + p.len() <= s.len() && s.subrange(i, i + p.len()) == p
}

/// `str::contains` with a string pattern.
pub open spec fn contains_s(s: Seq<char>, p: Seq<char>) -> bool {
    exists|i: int| occurs_at(s, p, i)
}

/// `str::starts_with` with a string pattern.
pub open spec fn starts_with_s(s: Seq<char>, p: Seq<char>) -> bool {
    occurs_at(s, p, 0)
}

/// `str::find`: the first position at which `p` occurs, if any.
pub open spec fn find_s(s: Seq<char>, p: Seq<char>) -> Option<int> {
    if contains_s(s, p) {
        Some(choose|i: int| occurs_at(s, p, i) && forall|j: int| 0 <= j < i ==> !occurs_at(s, p, j))
    } else {
        None
    }
}

/// Number of bytes in the UTF-8 encoding of one character.
pub open spec fn char_width(c: char) -> nat {
    let u = c as u32;
    if u < 0x80 {
        1
    } else if u < 0x800 {
        2
    } else if u < 0x10000 {
        3
    } else {
        4
    }
}

/// Number of bytes in the UTF-8 encoding of a string (`str::len`).
pub open spec fn utf8_len(s: Seq<char>) -> nat
    decreases s.len(),
{
    if s.len() == 0 {
        0
    } else {
        utf8_len(s.drop_last()) + char_width(s.last())
    }
}

/// `n` is a byte offset of `s` that falls on a character boundary.
pub open spec fn is_boundary(s: Seq<char>, n: int) -> bool {
    exists|k: int| 0 <= k <= s.len() && utf8_len(s.take(k)) == n
}

/// The characters of `s` that lie in its first `n` bytes, when `n` is a boundary.
pub open spec fn byte_prefix(s: Seq<char>, n: int) -> Seq<char> {
    s.take(choose|k: int| 0 <= k <= s.len() && utf8_len(s.take(k)) == n)
}

/// Replace every occurrence of `from` by `to`.
pub open spec fn replace_char_s(s: Seq<char>, from: char, to: char) -> Seq<char> {
    s.map_values(|c: char| if c == from { to } else { c })
}

// ───────────────────────────── lemmas ─────────────────────────────

/// Where `p` holds somewhere from `lo` on, it holds at a first place from
/// `lo` on.
pub proof fn lemma_least_from(p: spec_fn(int) -> bool, lo: int, k: int)
    requires
        lo <= k,
        p(k),
    ensures
        exists|m: int| lo <= m <= k && #[trigger] p(m) && forall|j: int| lo <= j < m ==> !#[trigger] p(j),
    decreases k - lo,
{
    if exists|j: int| lo <= j < k && #[trigger] p(j) {
        let j = choose|j: int| lo <= j < k && #[trigger] p(j);
        lemma_least_from(p, lo, j);
    } else {
        assert(forall|j: int| lo <= j < k ==> !#[trigger] p(j));
    }
}

pub proof fn lemma_occurs_unique_first(s: Seq<char>, p: Seq<char>, i: int)
    requires
        occurs_at(s, p, i),
        forall|j: int| 0 <= j < i ==> !occurs_at(s, p, j),
    ensures
        find_s(s, p) == Some(i),
{
    let k = choose|k: int| occurs_at(s, p, k) && forall|j: int| 0 <= j < k ==> !occurs_at(s, p, j);
    assert(occurs_at(s, p, k) && forall|j: int| 0 <= j < k ==> !occurs_at(s, p, j));
    if k < i {
        assert(!occurs_at(s, p, k));
    }
    if i < k {
        assert(!occurs_at(s, p, i));
    }
}

pub proof fn lemma_utf8_len_take_mono(s: Seq<char>, a: int, b: int)
    requires
        0 <= a <= b <= s.len(),
    ensures
        utf8_len(s.take(a)) + (b - a) <= utf8_len(s.take(b)),
        utf8_len(s.take(b)) <= utf8_len(s.take(a)) + 4 * (b - a),
    decreases b - a,
{
    if a < b {
        lemma_utf8_len_take_mono(s, a, b - 1);
        assert(s.take(b).drop_last() =~= s.take(b - 1));
    }
}

pub proof fn lemma_utf8_len_take_step(s: Seq<char>, k: int)
    requires
        0 <= k < s.len(),
    ensures
        utf8_len(s.take(k + 1)) == utf8_len(s.take(k)) + char_width(s[k]),
{
    assert(s.take(k + 1).drop_last() =~= s.take(k));
}

/// Every character takes at least one byte.
pub proof fn lemma_utf8_len_ge_len(s: Seq<char>)
    ensures
        utf8_len(s) >= s.len(),
{
    lemma_utf8_len_take_mono(s, 0, s.len() as int);
    assert(s.take(s.len() as int) =~= s);
}

/// `utf8_len` peels off the first character as well as the last.
pub proof fn lemma_utf8_len_first(s: Seq<char>)
    requires
        s.len() > 0,
    ensures
        utf8_len(s) == char_width(s[0]) + utf8_len(s.drop_first()),
    decreases s.len(),
{
    if s.len() > 1 {
        let t = s.drop_last();
        let f = s.drop_first();
        lemma_utf8_len_first(t);
        assert(t.drop_first() =~= f.drop_last());
        assert(t[0] == s[0]);
        assert(f.last() == s.last());
        assert(utf8_len(s) == utf8_len(t) + char_width(s.last()));
        assert(utf8_len(f) == utf8_len(f.drop_last()) + char_width(f.last()));
    } else {
        assert(s.drop_first().len() == 0);
        assert(s.drop_last().len() == 0);
        assert(utf8_len(s.drop_first()) == 0);
        assert(utf8_len(s.drop_last()) == 0);
        assert(s.last() == s[0]);
    }
}

/// `utf8_len` is the length of vstd's UTF-8 encoding.
pub proof fn lemma_utf8_len_encode(s: Seq<char>)
    ensures
        vstd::utf8::encode_utf8(s).len() == utf8_len(s),
    decreases s.len(),
{
    if s.len() > 0 {
        lemma_utf8_len_first(s);
        lemma_utf8_len_encode(s.drop_first());
        vstd::utf8::char_is_scalar(s[0]);
    }
}

pub proof fn lemma_boundary_unique(s: Seq<char>, n: int, k: int)
    requires
        0 <= k <= s.len(),
        utf8_len(s.take(k)) == n,
    ensures
        is_boundary(s, n),
        byte_prefix(s, n) == s.take(k),
{
    let k2 = choose|k2: int| 0 <= k2 <= s.len() && utf8_len(s.take(k2)) == n;
    assert(0 <= k2 <= s.len() && utf8_len(s.take(k2)) == n);
    if k2 < k {
        lemma_utf8_len_take_mono(s, k2, k);
    } else if k < k2 {
        lemma_utf8_len_take_mono(s, k, k2);
    }
}

pub proof fn lemma_lines_text_push(ls: Seq<Seq<char>>, l: Seq<char>)
    ensures
        lines_text(ls.push(l)) == lines_text(ls) + l + seq!['\n'],
{
    assert(ls.push(l).drop_last() =~= ls);
}

pub proof fn lemma_join_push(ls: Seq<Seq<char>>, sep: Seq<char>, l: Seq<char>)
    ensures
        join_s(ls.push(l), sep) == if ls.len() == 0 {
            l
        } else {
            join_s(ls, sep) + sep + l
        },
{
    assert(ls.push(l).drop_last() =~= ls);
    if ls.len() == 0 {
        assert(ls.push(l) =~= seq![l]);
    }
}

pub proof fn lemma_trim_start_skip(s: Seq<char>, i: int)
    requires
        0 <= i <= s.len(),
        forall|j: int| 0 <= j < i ==> is_ws(#[trigger] s[j]),
    ensures
        trim_start_s(s) == trim_start_s(s.skip(i)),
    decreases i,
{
    if i > 0 {
        assert(s.drop_first().skip(i - 1) =~= s.skip(i));
        assert forall|j: int| 0 <= j < i - 1 implies is_ws(#[trigger] s.drop_first()[j]) by {
            assert(s.drop_first()[j] == s[j + 1]);
        }
        lemma_trim_start_skip(s.drop_first(), i - 1);
    } else {
        assert(s.skip(0) =~= s);
    }
}

pub proof fn lemma_trim_end_take(s: Seq<char>, e: int)
    requires
        0 <= e <= s.len(),
        forall|j: int| e <= j < s.len() ==> is_ws(#[trigger] s[j]),
    ensures
        trim_end_s(s) == trim_end_s(s.take(e)),
    decreases s.len() - e,
{
    if e < s.len() {
        assert(s.drop_last().take(e) =~= s.take(e));
        lemma_trim_end_take(s.drop_last(), e);
    } else {
        assert(s.take(e) =~= s);
    }
}

// ───────────────────────────── executable functions ─────────────────────────────

/// Copy the characters of a string slice into a vector.
pub fn chars_of(s: &str) -> (v: Vec<char>)
    ensures
        v@ == s@,
{
    let mut v: Vec<char> = Vec::new();
    for c in it: s.chars()
        invariant
            v@ == it.seq().take(it.index() as int),
            it.seq() == s@,
    {
        v.push(c);
    }
    v
}

/// Append one character to a `String` (`String::push`).
#[verifier::external_body]
pub fn push_char(s: &mut String, c: char)
    ensures
        final(s)@ == old(s)@.push(c),
{
    s.push(c);
}

/// Append the characters `v[from..to]` to a `String`.
pub fn push_chars(s: &mut String, v: &[char], from: usize, to: usize)
    requires
        from <= to <= v@.len(),
    ensures
        final(s)@ == old(s)@ + v@.subrange(from as int, to as int),
{
    let ghost start = s@;
    let mut i = from;
    while i < to
        invariant
            from <= i <= to <= v@.len(),
            s@ == start + v@.subrange(from as int, i as int),
        decreases to - i,
    {
        push_char(s, v[i]);
        assert(v@.subrange(from as int, i + 1) =~= v@.subrange(from as int, i as int).push(v@[i as int]));
        i = i + 1;
    }
}

/// Build a `String` from a character buffer.
pub fn string_of(v: &[char]) -> (s: String)
    ensures
        s@ == v@,
{
    let mut s = String::new();
    push_chars(&mut s, v, 0, v.len());
    assert(v@.subrange(0, v@.len() as int) =~= v@);
    s
}

/// Append a string slice to a `String`.
pub fn push_str(s: &mut String, t: &str)
    ensures
        final(s)@ == old(s)@ + t@,
{
    s.append(t);
}

/// Append a string slice to a character buffer.
pub fn extend_chars(v: &mut Vec<char>, t: &str)
    ensures
        final(v)@ == old(v)@ + t@,
{
    let w = chars_of(t);
    let ghost start = v@;
    let mut i: usize = 0;
    while i < w.len()
        invariant
            i <= w@.len(),
            w@ == t@,
            v@ == start + w@.take(i as int),
        decreases w.len() - i,
    {
        v.push(w[i]);
        assert(w@.take(i + 1) =~= w@.take(i as int).push(w@[i as int]));
        i = i + 1;
    }
    assert(w@.take(w@.len() as int) =~= w@);
}

/// Append `w[from..to]` to a character buffer.
pub fn extend_range(v: &mut Vec<char>, w: &[char], from: usize, to: usize)
    requires
        from <= to <= w@.len(),
    ensures
        final(v)@ == old(v)@ + w@.subrange(from as int, to as int),
{
    let ghost start = v@;
    let mut i = from;
    while i < to
        invariant
            from <= i <= to <= w@.len(),
            v@ == start + w@.subrange(from as int, i as int),
        decreases to - i,
    {
        v.push(w[i]);
        assert(w@.subrange(from as int, i + 1) =~= w@.subrange(from as int, i as int).push(w@[i as int]));
        i = i + 1;
    }
}

/// `char::is_whitespace`.
pub fn char_is_ws(c: char) -> (b: bool)
    ensures
        b == is_ws(c),
{
    let u = c as u32;
    (0x09 <= u && u <= 0x0D) || u == 0x20 || u == 0x85 || u == 0xA0 || u == 0x1680 || (0x2000
        <= u && u <= 0x200A) || u == 0x2028 || u == 0x2029 || u == 0x202F || u == 0x205F || u
        == 0x3000
}

/// Bounds `(start, end)` of the trimmed part of `s`.
pub fn trim_bounds(s: &[char]) -> (r: (usize, usize))
    ensures
        r.0 <= r.1 <= s@.len(),
        s@.subrange(r.0 as int, r.1 as int) == trim_s(s@),
{
    let mut i: usize = 0;
    while i < s.len() && char_is_ws(s[i])
        invariant
            i <= s@.len(),
            forall|j: int| 0 <= j < i ==> is_ws(#[trigger] s@[j]),
        decreases s.len() - i,
    {
        i = i + 1;
    }
    proof {
        lemma_trim_start_skip(s@, i as int);
        if i < s@.len() {
            assert(s@.skip(i as int)[0] == s@[i as int]);
        }
        assert(trim_start_s(s@.skip(i as int)) == s@.skip(i as int));
    }
    let mut e: usize = s.len();
    while e > i && char_is_ws(s[e - 1])
        invariant
            i <= e <= s@.len(),
            forall|j: int| e <= j < s@.len() ==> is_ws(#[trigger] s@[j]),
        decreases e,
    {
        e = e - 1;
    }
    proof {
        let t = s@.skip(i as int);
        let k = (e - i) as int;
        assert forall|j: int| k <= j < t.len() implies is_ws(#[trigger] t[j]) by {
            assert(t[j] == s@[j + i]);
        }
        lemma_trim_end_take(t, k);
        assert(t.take(k) =~= s@.subrange(i as int, e as int));
        let u = t.take(k);
        if u.len() > 0 {
            assert(u.last() == s@[e - 1]);
        }
        assert(trim_end_s(u) == u);
    }
    (i, e)
}

/// Length of `s` without its trailing whitespace.
pub fn trim_end_len(s: &[char]) -> (e: usize)
    ensures
        e <= s@.len(),
        s@.take(e as int) == trim_end_s(s@),
{
    let mut e: usize = s.len();
    while e > 0 && char_is_ws(s[e - 1])
        invariant
            e <= s@.len(),
            forall|j: int| e <= j < s@.len() ==> is_ws(#[trigger] s@[j]),
        decreases e,
    {
        e = e - 1;
    }
    proof {
        lemma_trim_end_take(s@, e as int);
        let u = s@.take(e as int);
        if u.len() > 0 {
            assert(u.last() == s@[e - 1]);
        }
        assert(trim_end_s(u) == u);
    }
    e
}

/// The trimmed copy of `s`.
pub fn trim_chars(s: &[char]) -> (r: Vec<char>)
    ensures
        r@ == trim_s(s@),
{
    let (a, b) = trim_bounds(s);
    let mut r: Vec<char> = Vec::new();
    extend_range(&mut r, s, a, b);
    assert(r@ =~= s@.subrange(a as int, b as int));
    r
}

/// Whether two string slices hold the same text.
pub fn str_eq(a: &str, b: &str) -> (r: bool)
    ensures
        r == (a@ == b@),
{
    let x = chars_of(a);
    let y = chars_of(b);
    chars_eq(x.as_slice(), y.as_slice())
}

/// Whether two character slices are equal.
pub fn chars_eq(a: &[char], b: &[char]) -> (r: bool)
    ensures
        r == (a@ == b@),
{
    if a.len() != b.len() {
        return false;
    }
    let mut i: usize = 0;
    while i < a.len()
        invariant
            a@.len() == b@.len(),
            i <= a@.len(),
            forall|j: int| 0 <= j < i ==> a@[j] == b@[j],
        decreases a.len() - i,
    {
        if a[i] != b[i] {
            return false;
        }
        i = i + 1;
    }
    assert(a@ =~= b@);
    true
}

/// Whether `p` occurs in `s` at position `i`.
pub fn occurs_at_exec(s: &[char], p: &[char], i: usize) -> (r: bool)
    ensures
        r == occurs_at(s@, p@, i as int),
{
    let n = s.len();
    if i > n || p.len() > n - i {
        return false;
    }
    let mut j: usize = 0;
    while j < p.len()
        invariant
            n == s@.len(),
            i + p@.len() <= n,
            j <= p@.len(),
            forall|k: int| 0 <= k < j ==> s@[i + k] == p@[k],
        decreases p.len() - j,
    {
        assert(i + j < s@.len());
        if s[i + j] != p[j] {
            assert(s@.subrange(i as int, i + p@.len())[j as int] != p@[j as int]);
            return false;
        }
        j = j + 1;
    }
    assert(s@.subrange(i as int, i + p@.len()) =~= p@);
    true
}

/// `str::find`: the first position at which `p` occurs in `s`.
pub fn find_chars(s: &[char], p: &[char]) -> (r: Option<usize>)
    ensures
        r matches Some(i) ==> find_s(s@, p@) == Some(i as int),
        r matches Some(i) ==> occurs_at(s@, p@, i as int) && forall|j: int| 0 <= j < i ==> !occurs_at(s@, p@, j),
        r is None ==> find_s(s@, p@) is None,
        r is None <==> !contains_s(s@, p@),
{
    if p.len() > s.len() {
        assert forall|i: int| !occurs_at(s@, p@, i) by {}
        return None;
    }
    let n = s.len();
    let m = p.len();
    if m == 0 {
        proof {
            assert(s@.subrange(0, 0) =~= p@);
            lemma_occurs_unique_first(s@, p@, 0);
        }
        return Some(0);
    }
    let mut i: usize = 0;
    while i <= n - m
        invariant
            n == s@.len(),
            m == p@.len(),
            1 <= m <= n,
            i <= n - m + 1,
            forall|j: int| 0 <= j < i ==> !occurs_at(s@, p@, j),
        decreases n - m + 1 - i,
    {
        if occurs_at_exec(s, p, i) {
            proof {
                lemma_occurs_unique_first(s@, p@, i as int);
            }
            return Some(i);
        }
        i = i + 1;
    }
    assert forall|j: int| !occurs_at(s@, p@, j) by {
        if 0 <= j < i {
        }
    }
    None
}

/// `str::contains` with a string pattern.
pub fn contains_chars(s: &[char], p: &[char]) -> (r: bool)
    ensures
        r == contains_s(s@, p@),
{
    find_chars(s, p).is_some()
}

/// `str::starts_with` with a string pattern.
pub fn starts_with_chars(s: &[char], p: &[char]) -> (r: bool)
    ensures
        r == starts_with_s(s@, p@),
{
    occurs_at_exec(s, p, 0)
}

/// The lines of `s`, as `str::lines` yields them.
pub fn lines_of(s: &[char]) -> (r: Vec<Vec<char>>)
    ensures
        r@.len() == lines_s(s@).len(),
        forall|k: int| 0 <= k < r@.len() ==> #[trigger] r@[k]@ == lines_s(s@)[k],
{
    let mut out: Vec<Vec<char>> = Vec::new();
    let mut cur: Vec<char> = Vec::new();
    let ghost views: Seq<Seq<char>> = seq![];
    let mut i: usize = 0;
    assert(s@.skip(0) =~= s@);
    assert(views + lines_acc(s@, cur@) =~= lines_acc(s@, seq![]));
    while i < s.len()
        invariant
            i <= s@.len(),
            out@.len() == views.len(),
            forall|k: int| 0 <= k < out@.len() ==> #[trigger] out@[k]@ == views[k],
            views + lines_acc(s@.skip(i as int), cur@) == lines_s(s@),
        decreases s.len() - i,
    {
        let c = s[i];
        let ghost rest = s@.skip(i as int);
        assert(rest[0] == c);
        assert(rest.drop_first() =~= s@.skip(i + 1));
        if c == '\n' {
            let mut line = cur;
            let n = line.len();
            if n > 0 && line[n - 1] == '\r' {
                line.pop();
            }
            assert(line@ == strip_cr(cur@));
            proof {
                assert(views.push(line@) + lines_acc(s@.skip(i + 1), seq![]) =~= views + (seq![
                    strip_cr(cur@),
                ] + lines_acc(s@.skip(i + 1), seq![])));
                views = views.push(line@);
            }
            out.push(line);
            cur = Vec::new();
        } else {
            cur.push(c);
        }
        i = i + 1;
    }
    assert(s@.skip(i as int).len() == 0);
    if cur.len() > 0 {
        proof {
            assert(views.push(cur@) =~= views + seq![cur@]);
            views = views.push(cur@);
        }
        out.push(cur);
    } else {
        assert(views + seq![] =~= views);
    }
    out
}

/// The characters of `s` that make up its first `n` bytes in UTF-8
/// (`&s[..n]`); `n` must fall on a character boundary.
pub fn byte_prefix_chars(s: &[char], n: usize) -> (r: Vec<char>)
    requires
        is_boundary(s@, n as int),
    ensures
        r@ == byte_prefix(s@, n as int),
{
    let ghost k0 = choose|k: int| 0 <= k <= s@.len() && utf8_len(s@.take(k)) == n;
    let mut acc: usize = 0;
    let mut i: usize = 0;
    proof {
        assert(s@.take(0) =~= Seq::<char>::empty());
    }
    while acc < n
        invariant
            0 <= k0 <= s@.len(),
            utf8_len(s@.take(k0)) == n,
            i <= s@.len(),
            acc <= n,
            acc == utf8_len(s@.take(i as int)),
        decreases n - acc,
    {
        proof {
            if i >= k0 {
                lemma_utf8_len_take_mono(s@, k0, i as int);
            }
        }
        let w = char_width_exec(s[i]);
        proof {
            lemma_utf8_len_take_step(s@, i as int);
            if acc + w > n {
                if k0 >= i + 1 {
                    lemma_utf8_len_take_mono(s@, i + 1, k0);
                }
                if k0 <= i {
                    lemma_utf8_len_take_mono(s@, k0, i as int);
                }
            }
        }
        acc = acc + w;
        i = i + 1;
    }
    proof {
        lemma_boundary_unique(s@, n as int, i as int);
    }
    let mut r: Vec<char> = Vec::new();
    extend_range(&mut r, s, 0, i);
    assert(r@ =~= s@.take(i as int));
    r
}

/// Byte length of one character in UTF-8.
pub fn char_width_exec(c: char) -> (n: usize)
    ensures
        n == char_width(c),
{
    let u = c as u32;
    if u < 0x80 {
        1
    } else if u < 0x800 {
        2
    } else if u < 0x10000 {
        3
    } else {
        4
    }
}

/// Byte length of a string (`str::len`), which always fits in `usize`.
pub fn str_byte_len(s: &str) -> (n: usize)
    ensures
        n == utf8_len(s@),
{
    let b = s.as_bytes();
    proof {
        lemma_utf8_len_encode(s@);
    }
    b.len()
}

/// Replace every `from` character by `to`.
pub fn replace_char(s: &[char], from: char, to: char) -> (r: Vec<char>)
    ensures
        r@ == replace_char_s(s@, from, to),
{
    let mut r: Vec<char> = Vec::new();
    let mut i: usize = 0;
    while i < s.len()
        invariant
            i <= s@.len(),
            r@ =~= replace_char_s(s@.take(i as int), from, to),
        decreases s.len() - i,
    {
        if s[i] == from {
            r.push(to);
        } else {
            r.push(s[i]);
        }
        assert(s@.take(i + 1) =~= s@.take(i as int).push(s@[i as int]));
        i = i + 1;
    }
    assert(s@.take(s@.len() as int) =~= s@);
    r
}

/// The views of a list of strings.
pub open spec fn strs_view(v: Seq<String>) -> Seq<Seq<char>> {
    v.map_values(|s: String| s@)
}

/// `a` sorts before or with `b`: lexicographic order by code point, which
/// is the order of `str` (UTF-8 preserves it).
pub open spec fn lex_le(a: Seq<char>, b: Seq<char>) -> bool
    decreases a.len(),
{
    if a.len() == 0 {
        true
    } else if b.len() == 0 {
        false
    } else if a[0] != b[0] {
        (a[0] as int) < (b[0] as int)
    } else {
        lex_le(a.drop_first(), b.drop_first())
    }
}

/// The order is total.
pub proof fn lemma_lex_total(a: Seq<char>, b: Seq<char>)
    ensures
        lex_le(a, b) || lex_le(b, a),
    decreases a.len(),
{
    if a.len() > 0 && b.len() > 0 && a[0] == b[0] {
        lemma_lex_total(a.drop_first(), b.drop_first());
    }
}

/// The order is transitive.
pub proof fn lemma_lex_trans(a: Seq<char>, b: Seq<char>, c: Seq<char>)
    requires
        lex_le(a, b),
        lex_le(b, c),
    ensures
        lex_le(a, c),
    decreases a.len(),
{
    if a.len() > 0 && b.len() > 0 && c.len() > 0 && a[0] == b[0] && b[0] == c[0] {
        lemma_lex_trans(a.drop_first(), b.drop_first(), c.drop_first());
    }
}

/// Two texts each sorting before or with the other are equal.
pub proof fn lemma_lex_antisym(a: Seq<char>, b: Seq<char>)
    requires
        lex_le(a, b),
        lex_le(b, a),
    ensures
        a == b,
    decreases a.len(),
{
    if a.len() > 0 && b.len() > 0 {
        if a[0] == b[0] {
            lemma_lex_antisym(a.drop_first(), b.drop_first());
            assert(a =~= seq![a[0]] + a.drop_first());
            assert(b =~= seq![b[0]] + b.drop_first());
        }
    }
}

/// Two sorted lists holding the same texts are the same list.
pub proof fn lemma_sorted_unique(s1: Seq<Seq<char>>, s2: Seq<Seq<char>>)
    requires
        sorted_strs(s1),
        sorted_strs(s2),
        s1.to_multiset() == s2.to_multiset(),
    ensures
        s1 == s2,
    decreases s1.len(),
{
    broadcast use vstd::seq_lib::group_to_multiset_ensures;
    vstd::seq_lib::to_multiset_len(s1);
    vstd::seq_lib::to_multiset_len(s2);
    if s1.len() == 0 {
        assert(s2.len() == 0);
        assert(s1 =~= s2);
    } else {
        let a = s1[0];
        let b = s2[0];
        vstd::seq_lib::to_multiset_contains(s1, a);
        vstd::seq_lib::to_multiset_contains(s2, a);
        vstd::seq_lib::to_multiset_contains(s1, b);
        vstd::seq_lib::to_multiset_contains(s2, b);
        assert(s1.contains(a));
        assert(s2.contains(a));
        let j = choose|j: int| 0 <= j < s2.len() && s2[j] == a;
        assert(lex_le(b, a)) by {
            if j > 0 {
                assert(lex_le(s2[0], s2[j]));
            } else {
                lemma_lex_refl(a);
            }
        }
        assert(s2.contains(b));
        assert(s1.contains(b));
        let i = choose|i: int| 0 <= i < s1.len() && s1[i] == b;
        assert(lex_le(a, b)) by {
            if i > 0 {
                assert(lex_le(s1[0], s1[i]));
            } else {
                lemma_lex_refl(a);
            }
        }
        lemma_lex_antisym(a, b);
        vstd::seq_lib::to_multiset_remove(s1, 0);
        vstd::seq_lib::to_multiset_remove(s2, 0);
        assert(s1.remove(0) =~= s1.drop_first());
        assert(s2.remove(0) =~= s2.drop_first());
        lemma_sorted_unique(s1.drop_first(), s2.drop_first());
        assert(s1 =~= seq![a] + s1.drop_first());
        assert(s2 =~= seq![b] + s2.drop_first());
    }
}

/// Every text sorts with itself.
pub proof fn lemma_lex_refl(a: Seq<char>)
    ensures
        lex_le(a, a),
    decreases a.len(),
{
    if a.len() > 0 {
        lemma_lex_refl(a.drop_first());
    }
}

/// A list sorted in `lex_le` order.
pub open spec fn sorted_strs(s: Seq<Seq<char>>) -> bool {
    forall|i: int, j: int| 0 <= i < j < s.len() ==> lex_le(#[trigger] s[i], #[trigger] s[j])
}

/// Whether `a` sorts before or with `b`.
pub fn lex_le_exec(a: &str, b: &str) -> (r: bool)
    ensures
        r == lex_le(a@, b@),
{
    let x = chars_of(a);
    let y = chars_of(b);
    let mut i: usize = 0;
    assert(x@.skip(0) =~= x@);
    assert(y@.skip(0) =~= y@);
    while i < x.len() && i < y.len() && x[i] == y[i]
        invariant
            i <= x@.len(),
            i <= y@.len(),
            x@ == a@,
            y@ == b@,
            lex_le(x@.skip(i as int), y@.skip(i as int)) == lex_le(a@, b@),
        decreases x.len() - i,
    {
        assert(x@.skip(i as int).drop_first() =~= x@.skip(i + 1));
        assert(y@.skip(i as int).drop_first() =~= y@.skip(i + 1));
        i = i + 1;
    }
    if i == x.len() {
        assert(x@.skip(i as int).len() == 0);
        true
    } else if i == y.len() {
        false
    } else {
        assert(x@.skip(i as int)[0] == x@[i as int]);
        assert(y@.skip(i as int)[0] == y@[i as int]);
        x[i] < y[i]
    }
}

/// The strings in ascending order (a stable insertion sort).
pub fn sort_strings(v: &Vec<String>) -> (r: Vec<String>)
    ensures
        sorted_strs(strs_view(r@)),
        strs_view(r@).to_multiset() == strs_view(v@).to_multiset(),
{
    broadcast use vstd::seq_lib::group_to_multiset_ensures;
    let mut out: Vec<String> = Vec::new();
    assert(strs_view(out@) =~= strs_view(v@.take(0)));
    let mut i: usize = 0;
    while i < v.len()
        invariant
            i <= v@.len(),
            sorted_strs(strs_view(out@)),
            strs_view(out@).to_multiset() == strs_view(v@.take(i as int)).to_multiset(),
        decreases v.len() - i,
    {
        let x = v[i].clone();
        let ghost sv = strs_view(out@);
        let mut p: usize = 0;
        while p < out.len() && lex_le_exec(out[p].as_str(), x.as_str())
            invariant
                p <= out@.len(),
                sv == strs_view(out@),
                x@ == v@[i as int]@,
                forall|k: int| 0 <= k < p ==> lex_le(#[trigger] sv[k], x@),
            decreases out.len() - p,
        {
            p = p + 1;
        }
        proof {
            assert forall|k: int| p <= k < sv.len() implies lex_le(x@, #[trigger] sv[k]) by {
                if lex_le(sv[k], x@) {
                    if k > p {
                        lemma_lex_trans(sv[p as int], sv[k], x@);
                    }
                    assert(false);
                }
                lemma_lex_total(sv[k], x@);
            }
        }
        out.insert(p, x);
        proof {
            let nv = strs_view(out@);
            assert(nv =~= sv.insert(p as int, v@[i as int]@));
            assert forall|a: int, b: int| 0 <= a < b < nv.len() implies lex_le(#[trigger] nv[a], #[trigger] nv[b]) by {
                if b == p {
                } else if a == p {
                } else if a < p && b > p {
                    lemma_lex_trans(nv[a], x@, nv[b]);
                }
            }
            assert(strs_view(v@.take(i + 1)) =~= strs_view(v@.take(i as int)).push(v@[i as int]@));
            vstd::seq_lib::to_multiset_insert(sv, p as int, v@[i as int]@);
            assert(nv.to_multiset() =~= sv.to_multiset().insert(v@[i as int]@));
            vstd::seq_lib::to_multiset_build(strs_view(v@.take(i as int)), v@[i as int]@);
            assert(strs_view(v@.take(i + 1)).to_multiset() =~= strs_view(v@.take(i as int)).to_multiset().insert(v@[i as int]@));
        }
        i = i + 1;
    }
    assert(v@.take(v@.len() as int) =~= v@);
    out
}

} // verus!

verus! {

/// Unicode lower-casing of a whole string (`str::to_lowercase`).
pub uninterp spec fn str_lower(s: Seq<char>) -> Seq<char>;

/// `str::to_lowercase`: Unicode lower case of the whole string; its result is
/// named by `str_lower`, a function of the characters alone.
#[verifier::external_body]
pub fn to_lowercase(s: &str) -> (r: String)
    ensures
        r@ == str_lower(s@),
{
    s.to_lowercase()
}

/// Split on whitespace, dropping empty pieces, reading left to right with the current piece.
pub open spec fn words_acc(s: Seq<char>, cur: Seq<char>) -> Seq<Seq<char>>
    decreases s.len(),
{
    if s.len() == 0 {
        if cur.len() == 0 {
            seq![]
        } else {
            seq![cur]
        }
    } else if is_ws(s[0]) {
        (if cur.len() == 0 {
            seq![]
        } else {
            seq![cur]
        }) + words_acc(s.drop_first(), seq![])
    } else {
        words_acc(s.drop_first(), cur.push(s[0]))
    }
}

/// `str::split_whitespace`.
pub open spec fn words_s(s: Seq<char>) -> Seq<Seq<char>> {
    words_acc(s, seq![])
}

/// The whitespace-separated words of `s`.
pub fn split_whitespace(s: &[char]) -> (r: Vec<Vec<char>>)
    ensures
        r@.len() == words_s(s@).len(),
        forall|k: int| 0 <= k < r@.len() ==> #[trigger] r@[k]@ == words_s(s@)[k],
{
    let mut out: Vec<Vec<char>> = Vec::new();
    let mut cur: Vec<char> = Vec::new();
    let ghost views: Seq<Seq<char>> = seq![];
    let mut i: usize = 0;
    assert(s@.skip(0) =~= s@);
    assert(views + words_acc(s@, cur@) =~= words_acc(s@, seq![]));
    while i < s.len()
        invariant
            i <= s@.len(),
            out@.len() == views.len(),
            forall|k: int| 0 <= k < out@.len() ==> #[trigger] out@[k]@ == views[k],
            views + words_acc(s@.skip(i as int), cur@) == words_s(s@),
        decreases s.len() - i,
    {
        let c = s[i];
        let ghost rest = s@.skip(i as int);
        assert(rest[0] == c);
        assert(rest.drop_first() =~= s@.skip(i + 1));
        if char_is_ws(c) {
            if cur.len() > 0 {
                proof {
                    assert(views.push(cur@) + words_acc(s@.skip(i + 1), seq![]) =~= views + (seq![
                        cur@,
                    ] + words_acc(s@.skip(i + 1), seq![])));
                    views = views.push(cur@);
                }
                out.push(cur);
            } else {
                assert(views + words_acc(s@.skip(i + 1), seq![]) =~= views + (seq![] + words_acc(
                    s@.skip(i + 1),
                    seq![],
                )));
            }
            cur = Vec::new();
        } else {
            cur.push(c);
        }
        i = i + 1;
    }
    assert(s@.skip(i as int).len() == 0);
    if cur.len() > 0 {
        proof {
            assert(views.push(cur@) =~= views + seq![cur@]);
            views = views.push(cur@);
        }
        out.push(cur);
    } else {
        assert(views + seq![] =~= views);
    }
    out
}

/// The pieces joined by `sep`.
pub fn join_chars(ls: &Vec<Vec<char>>, sep: &str) -> (r: Vec<char>)
    ensures
        r@ == join_s(ls@.map_values(|l: Vec<char>| l@), sep@),
{
    let mut out: Vec<char> = Vec::new();
    let mut i: usize = 0;
    while i < ls.len()
        invariant
            i <= ls@.len(),
            out@ == join_s(ls@.take(i as int).map_values(|l: Vec<char>| l@), sep@),
        decreases ls.len() - i,
    {
        let ghost prev = ls@.take(i as int).map_values(|l: Vec<char>| l@);
        if i > 0 {
            extend_chars(&mut out, sep);
        }
        extend_range(&mut out, ls[i].as_slice(), 0, ls[i].len());
        proof {
            let l = ls@[i as int]@;
            assert(ls@.take(i + 1).map_values(|l: Vec<char>| l@) =~= prev.push(l));
            lemma_join_push(prev, sep@, l);
            assert(l.subrange(0, l.len() as int) =~= l);
        }
        i = i + 1;
    }
    assert(ls@.take(ls@.len() as int) =~= ls@);
    out
}

/// Decimal digits of a number.
pub open spec fn decimal_s(n: nat) -> Seq<char>
    decreases n,
{
    if n < 10 {
        seq![digit_char(n)]
    } else {
        decimal_s(n / 10) + seq![digit_char(n % 10)]
    }
}

/// The character of a decimal digit.
pub open spec fn digit_char(d: nat) -> char {
    if d == 0 { '0' } else if d == 1 { '1' } else if d == 2 { '2' } else if d == 3 { '3' }
    else if d == 4 { '4' } else if d == 5 { '5' } else if d == 6 { '6' } else if d == 7 { '7' }
    else if d == 8 { '8' } else { '9' }
}

fn digit_char_exec(d: u64) -> (c: char)
    requires
        d < 10,
    ensures
        c == digit_char(d as nat),
{
    if d == 0 { '0' } else if d == 1 { '1' } else if d == 2 { '2' } else if d == 3 { '3' }
    else if d == 4 { '4' } else if d == 5 { '5' } else if d == 6 { '6' } else if d == 7 { '7' }
    else if d == 8 { '8' } else { '9' }
}

/// Append the decimal representation of `n`.
pub fn push_decimal(out: &mut Vec<char>, n: u64)
    ensures
        final(out)@ == old(out)@ + decimal_s(n as nat),
    decreases n,
{
    if n < 10 {
        out.push(digit_char_exec(n));
    } else {
        push_decimal(out, n / 10);
        out.push(digit_char_exec(n % 10));
        assert(old(out)@ + decimal_s((n / 10) as nat) + seq![digit_char((n % 10) as nat)] =~= old(out)@
            + decimal_s(n as nat));
    }
}

/// Append the decimal digits of a wide number.
pub fn push_decimal_wide(out: &mut Vec<char>, n: u128)
    ensures
        final(out)@ == old(out)@ + decimal_s(n as nat),
    decreases n,
{
    if n < 10 {
        out.push(digit_char_exec((n as u64)));
    } else {
        push_decimal_wide(out, n / 10);
        out.push(digit_char_exec((n % 10) as u64));
        assert(old(out)@ + decimal_s((n / 10) as nat) + seq![digit_char((n % 10) as nat)] =~= old(out)@
            + decimal_s(n as nat));
    }
}

/// Decimal text of a signed integer (`-` before negative values).
pub open spec fn signed_decimal_s(n: int) -> Seq<char> {
    if n < 0 {
        seq!['-'] + decimal_s((-n) as nat)
    } else {
        decimal_s(n as nat)
    }
}

/// Append the decimal text of a signed integer.
pub fn push_i64(out: &mut Vec<char>, n: i64)
    ensures
        final(out)@ == old(out)@ + signed_decimal_s(n as int),
{
    if n < 0 {
        out.push('-');
        let m: u64 = (-(n as i128)) as u64;
        push_decimal(out, m);
        assert(final(out)@ =~= old(out)@ + signed_decimal_s(n as int));
    } else {
        push_decimal(out, n as u64);
    }
}

} // verus!
