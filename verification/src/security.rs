//! Security guards for the built-in tools: path-traversal rejection,
//! allowed-directory confinement and dangerous-command detection, driven by
//! [`ToolsConfig`].  Resolving paths on disk (canonicalization, file
//! kinds) is done by the caller, which hands the outcome in.
use vstd::prelude::*;
use crate::config::ToolsConfig;
use crate::error::McError;
use crate::memory::{join_path, join_path_s};
use crate::text::{
    chars_of, extend_chars, string_of, contains_s, contains_chars, str_lower, to_lowercase, strs_view,
};

verus! {

/// The path with trailing `/` and `\` removed.
pub open spec fn strip_seps_s(p: Seq<char>) -> Seq<char>
    decreases p.len(),
{
    if p.len() > 0 && (p.last() == '/' || p.last() == '\\') {
        strip_seps_s(p.drop_last())
    } else {
        p
    }
}

/// Strip trailing path separators (`/` or `\`).
///
/// Windows canonicalization of directories leaves a trailing `\`, which
/// breaks component prefix checks.
pub fn strip_trailing_sep(p: &str) -> (r: String)
    ensures
        r@ == strip_seps_s(p@),
{
    let v = chars_of(p);
    let mut n = v.len();
    assert(v@.take(n as int) =~= v@);
    while n > 0 && (v[n - 1] == '/' || v[n - 1] == '\\')
        invariant
            n <= v@.len(),
            v@ == p@,
            strip_seps_s(v@.take(n as int)) == strip_seps_s(p@),
        decreases n,
    {
        assert(v@.take(n as int).drop_last() =~= v@.take(n - 1));
        n = n - 1;
    }
    assert(v@.take(n as int) =~= v@.subrange(0, n as int));
    let mut out: Vec<char> = Vec::new();
    crate::text::extend_range(&mut out, v.as_slice(), 0, n);
    assert(out@ =~= v@.take(n as int));
    string_of(out.as_slice())
}

/// An absolute path in plain form: a `/`, then one or more components
/// separated by single `/`s, none of them `.` or `..`, and no `\` or `:`
/// anywhere (so that every platform splits it the same way).
pub open spec fn plain_path(p: Seq<char>) -> bool {
    &&& p.len() >= 2
    &&& p[0] == '/'
    &&& p.last() != '/'
    &&& forall|i: int| 0 <= i < p.len() ==> #[trigger] p[i] != '\\' && p[i] != ':'
    &&& forall|i: int| 0 <= i < p.len() - 1 && #[trigger] p[i] == '/' ==> p[i + 1] != '/'
    &&& forall|i: int| 0 <= i < p.len() - 1 && #[trigger] p[i] == '/' && p[i + 1] == '.' ==> (i + 2 < p.len() && p[i + 2] != '/' && (p[i + 2] != '.' || (i + 3 < p.len() && p[i + 3] != '/')))
}

/// `path` is `base` or lies below it: `base` followed by `/` and more
/// components.
pub open spec fn under_s(path: Seq<char>, base: Seq<char>) -> bool {
    path == base || (path.len() > base.len() && path.take(base.len() as int) == base && path[base.len() as int] == '/')
}

/// `std::path::Path::starts_with`: whether `base`'s components are a
/// prefix of `path`'s, whole components only.  Stated: a path starts with
/// itself; for two plain absolute paths (see `plain_path`), the result is
/// `path` being `base` or `base` followed by `/` and more components.  For
/// other forms (relative, with `.`, `..`, repeated or trailing separators,
/// Windows prefixes) nothing is stated.
#[verifier::external_body]
fn path_starts_with(path: &str, base: &str) -> (r: bool)
    ensures
        path@ == base@ ==> r,
        plain_path(path@) && plain_path(base@) ==> r == under_s(path@, base@),
{
    std::path::Path::new(path).starts_with(base)
}

/// Extracted, validated security policy.
#[derive(Debug, Clone)]
pub struct SecurityConfig {
    allowed_dirs: Vec<String>,
    deny_path_traversal: bool,
    dangerous_commands: Vec<String>,
}

/// The error for a raw path holding `..`.
pub open spec fn traversal_error_s(raw: Seq<char>) -> Seq<char> {
    "Path traversal rejected: '"@ + raw + "' contains '..'"@
}

/// The error for a path outside the allowed directories.
pub open spec fn denied_error_s(raw: Seq<char>) -> Seq<char> {
    "Access denied: '"@ + raw + "' is outside allowed directories"@
}

/// The error of a tool with a message.
pub open spec fn is_tool_error(e: McError, m: Seq<char>) -> bool {
    e matches McError::Tool(s) && s@ == m
}

/// How the caller resolved a path on disk.
#[derive(Debug, Clone)]
pub enum Resolution {
    /// The canonical path, and whether it has the kind asked for (a regular
    /// file, or a directory).
    Resolved { canonical: String, right_kind: bool },
    /// Canonicalization failed with this error.
    Failed(String),
}

/// How the caller resolved a path to be written.
#[derive(Debug, Clone)]
pub enum WriteResolution {
    /// The canonical path of the file, or of its parent joined with its name.
    Resolved(String),
    /// The file exists but could not be canonicalized (error text).
    CannotCanonicalize(String),
    /// The file does not exist and no directory to create it in can be
    /// reached: the error text.
    ParentNotFound(String),
    /// The file and possibly some of its parent directories do not exist yet
    /// and can be created: the canonical nearest existing ancestor
    /// directory, and the missing components below it, outermost first
    /// (the last one is the file's name).
    Creatable { ancestor: String, missing: Vec<String> },
    /// The path has no file name.
    InvalidPath,
}

/// `base` joined with each name in turn (`Path::join` of plain components).
pub open spec fn join_all_s(base: Seq<char>, names: Seq<Seq<char>>) -> Seq<char>
    decreases names.len(),
{
    if names.len() == 0 {
        base
    } else {
        join_path_s(join_all_s(base, names.drop_last()), names.last())
    }
}

/// The path a write resolution designates, when it designates one.
pub open spec fn write_target_s(res: WriteResolution) -> Option<Seq<char>> {
    match res {
        WriteResolution::Resolved(c) => Some(c@),
        WriteResolution::Creatable { ancestor, missing } => Some(join_all_s(ancestor@, strs_view(missing@))),
        _ => None,
    }
}

/// `base` joined with each of `names` in turn.
pub fn join_all(base: &str, names: &Vec<String>) -> (r: String)
    ensures
        r@ == join_all_s(base@, strs_view(names@)),
{
    let mut out = crate::error::owned(base);
    let mut i: usize = 0;
    assert(strs_view(names@).take(0) =~= seq![]);
    while i < names.len()
        invariant
            i <= names@.len(),
            out@ == join_all_s(base@, strs_view(names@).take(i as int)),
        decreases names.len() - i,
    {
        let next = join_path(out.as_str(), names[i].as_str());
        proof {
            let v = strs_view(names@);
            assert(v.take(i + 1).drop_last() =~= v.take(i as int));
            assert(v.take(i + 1).last() == names@[i as int]@);
        }
        out = next;
        i = i + 1;
    }
    assert(strs_view(names@).take(names@.len() as int) =~= strs_view(names@));
    out
}

/// Whether some allowed directory matched: no directories means no
/// restriction.
pub open spec fn any_hit(hits: Seq<bool>) -> bool {
    hits.len() == 0 || exists|k: int| 0 <= k < hits.len() && hits[k]
}

/// The first dangerous pattern the lowercased command contains.
pub open spec fn first_pattern_s(cmd: Seq<char>, pats: Seq<Seq<char>>) -> Option<int> {
    if exists|k: int| 0 <= k < pats.len() && contains_s(cmd, #[trigger] pats[k]) {
        Some(choose|k: int| 0 <= k < pats.len() && contains_s(cmd, #[trigger] pats[k]) && forall|m: int| 0 <= m < k ==> !contains_s(cmd, #[trigger] pats[m]))
    } else {
        None
    }
}

/// `first_pattern_s` is the first pattern the command contains, or `None`
/// when it contains none.
pub proof fn lemma_first_pattern(cmd: Seq<char>, pats: Seq<Seq<char>>)
    ensures
        match first_pattern_s(cmd, pats) {
            Some(k) => 0 <= k < pats.len() && contains_s(cmd, pats[k]) && forall|m: int| 0 <= m < k ==> !contains_s(cmd, #[trigger] pats[m]),
            None => forall|k: int| 0 <= k < pats.len() ==> !contains_s(cmd, #[trigger] pats[k]),
        },
{
    if exists|k: int| 0 <= k < pats.len() && contains_s(cmd, #[trigger] pats[k]) {
        let k = choose|k: int| 0 <= k < pats.len() && contains_s(cmd, #[trigger] pats[k]);
        let p = |i: int| 0 <= i < pats.len() && contains_s(cmd, pats[i]);
        assert(p(k));
        crate::text::lemma_least_from(p, 0, k);
        let m = choose|m: int| 0 <= m <= k && #[trigger] p(m) && forall|j: int| 0 <= j < m ==> !#[trigger] p(j);
        assert(forall|j: int| 0 <= j < m ==> !contains_s(cmd, #[trigger] pats[j])) by {
            assert forall|j: int| 0 <= j < m implies !contains_s(cmd, #[trigger] pats[j]) by {
                assert(!p(j));
            }
        }
    }
}

impl SecurityConfig {
    /// The allowed directory prefixes.
    pub closed spec fn dirs(&self) -> Seq<Seq<char>> {
        strs_view(self.allowed_dirs@)
    }

    /// Every allowed directory is a plain absolute path.
    pub open spec fn plain_dirs(&self) -> bool {
        forall|k: int| 0 <= k < self.dirs().len() ==> plain_path(#[trigger] self.dirs()[k])
    }

    /// Whether raw paths with `..` are rejected.
    pub closed spec fn denies_traversal(&self) -> bool {
        self.deny_path_traversal
    }

    /// The (lowercased) dangerous command patterns.
    pub closed spec fn patterns(&self) -> Seq<Seq<char>> {
        strs_view(self.dangerous_commands@)
    }

    /// Build from the tools configuration.
    ///
    /// `resolved_dirs` are the allowed paths joined to the working directory
    /// (`"."` is the working directory itself) and canonicalized where
    /// possible; their trailing separators are stripped here. Dangerous
    /// command patterns are lowercased.
    pub fn from_tools_config(config: &ToolsConfig, resolved_dirs: &Vec<String>) -> (r: Self)
        ensures
            r.dirs() == strs_view(resolved_dirs@).map_values(|d: Seq<char>| strip_seps_s(d)),
            r.denies_traversal() == config.deny_path_traversal,
            r.patterns() == strs_view(config.bash_dangerous_commands@).map_values(|c: Seq<char>| str_lower(c)),
    {
        let mut dirs: Vec<String> = Vec::new();
        let mut i: usize = 0;
        while i < resolved_dirs.len()
            invariant
                i <= resolved_dirs@.len(),
                dirs@.len() == i,
                forall|k: int| 0 <= k < i ==> (#[trigger] dirs@[k])@ == strip_seps_s(resolved_dirs@[k]@),
            decreases resolved_dirs.len() - i,
        {
            dirs.push(strip_trailing_sep(resolved_dirs[i].as_str()));
            i = i + 1;
        }
        let mut pats: Vec<String> = Vec::new();
        let mut k: usize = 0;
        while k < config.bash_dangerous_commands.len()
            invariant
                k <= config.bash_dangerous_commands@.len(),
                pats@.len() == k,
                forall|m: int| 0 <= m < k ==> (#[trigger] pats@[m])@ == str_lower(config.bash_dangerous_commands@[m]@),
            decreases config.bash_dangerous_commands.len() - k,
        {
            pats.push(to_lowercase(config.bash_dangerous_commands[k].as_str()));
            k = k + 1;
        }
        let r = SecurityConfig { allowed_dirs: dirs, deny_path_traversal: config.deny_path_traversal, dangerous_commands: pats };
        assert(r.dirs() =~= strs_view(resolved_dirs@).map_values(|d: Seq<char>| strip_seps_s(d)));
        assert(r.patterns() =~= strs_view(config.bash_dangerous_commands@).map_values(|c: Seq<char>| str_lower(c)));
        r
    }

    /// Reject a raw path holding `..` when traversal is denied.
    pub fn check_traversal(&self, raw: &str) -> (r: Result<(), McError>)
        ensures
            (self.denies_traversal() && contains_s(raw@, ".."@)) ==> (r matches Err(e) && is_tool_error(e, traversal_error_s(raw@))),
            !(self.denies_traversal() && contains_s(raw@, ".."@)) ==> r is Ok,
    {
        let v = chars_of(raw);
        let dd = chars_of("..");
        if self.deny_path_traversal && contains_chars(v.as_slice(), dd.as_slice()) {
            let mut m: Vec<char> = Vec::new();
            extend_chars(&mut m, "Path traversal rejected: '");
            extend_chars(&mut m, raw);
            extend_chars(&mut m, "' contains '..'");
            return Err(McError::Tool(string_of(m.as_slice())));
        }
        Ok(())
    }

    /// Which allowed directories a canonical path lies under.
    pub fn allowed_hits(&self, canonical: &str) -> (r: Vec<bool>)
        ensures
            r@.len() == self.dirs().len(),
            forall|k: int| 0 <= k < r@.len() && strip_seps_s(canonical@) == self.dirs()[k] ==> #[trigger] r@[k],
            forall|k: int| 0 <= k < r@.len() && plain_path(strip_seps_s(canonical@)) && plain_path(self.dirs()[k])
                ==> #[trigger] r@[k] == under_s(strip_seps_s(canonical@), self.dirs()[k]),
    {
        let norm = strip_trailing_sep(canonical);
        let mut hits: Vec<bool> = Vec::new();
        let mut i: usize = 0;
        while i < self.allowed_dirs.len()
            invariant
                i <= self.allowed_dirs@.len(),
                hits@.len() == i,
                norm@ == strip_seps_s(canonical@),
                forall|k: int| 0 <= k < i && norm@ == self.allowed_dirs@[k]@ ==> #[trigger] hits@[k],
                forall|k: int| 0 <= k < i && plain_path(norm@) && plain_path(self.allowed_dirs@[k]@)
                    ==> #[trigger] hits@[k] == under_s(norm@, self.allowed_dirs@[k]@),
            decreases self.allowed_dirs.len() - i,
        {
            hits.push(path_starts_with(norm.as_str(), self.allowed_dirs[i].as_str()));
            i = i + 1;
        }
        hits
    }

    /// The verdict on a resolved path, given which allowed directories it
    /// lies under: traversal, resolution, kind and confinement checks in
    /// that order.
    pub fn path_verdict(&self, raw: &str, res: &Resolution, kind_error: &str, hits: &Vec<bool>) -> (r: Result<String, McError>)
        requires
            hits@.len() == self.dirs().len(),
        ensures
            path_verdict_s(self.denies_traversal(), raw@, *res, kind_error@, hits@, r),
    {
        self.check_traversal(raw)?;
        match res {
            Resolution::Failed(err) => {
                let mut m: Vec<char> = Vec::new();
                extend_chars(&mut m, "Path not found or inaccessible: ");
                extend_chars(&mut m, raw);
                extend_chars(&mut m, " (");
                extend_chars(&mut m, err.as_str());
                extend_chars(&mut m, ")");
                Err(McError::Tool(string_of(m.as_slice())))
            },
            Resolution::Resolved { canonical, right_kind } => {
                if !*right_kind {
                    let mut m: Vec<char> = Vec::new();
                    extend_chars(&mut m, kind_error);
                    extend_chars(&mut m, raw);
                    return Err(McError::Tool(string_of(m.as_slice())));
                }
                if !any_hit_exec(hits) {
                    return Err(McError::Tool(denied_message(raw)));
                }
                Ok(canonical.clone())
            },
        }
    }

    /// Validate a path for read or write access to a regular file.
    ///
    /// `res` is the path canonicalized, and whether it is a regular file.
    pub fn validate_path(&self, raw: &str, res: &Resolution) -> (r: Result<String, McError>)
        ensures
            exists|h: Seq<bool>| h.len() == self.dirs().len() && path_verdict_s(self.denies_traversal(), raw@, *res, "Path is not a regular file: "@, h, r),
            self.dirs().len() == 0 ==> path_verdict_s(self.denies_traversal(), raw@, *res, "Path is not a regular file: "@, seq![], r),
            match *res {
                Resolution::Resolved { canonical, right_kind } => (!(self.denies_traversal() && contains_s(raw@, ".."@))
                    && right_kind && exists|k: int| 0 <= k < self.dirs().len() && strip_seps_s(canonical@) == #[trigger] self.dirs()[k])
                    ==> (r matches Ok(c) && c@ == canonical@),
                Resolution::Failed(_) => true,
            },
            self.plain_dirs() ==> match *res {
                Resolution::Resolved { canonical, .. } => plain_path(strip_seps_s(canonical@)) ==> path_verdict_s(
                    self.denies_traversal(),
                    raw@,
                    *res,
                    "Path is not a regular file: "@,
                    self.dirs().map_values(|d: Seq<char>| under_s(strip_seps_s(canonical@), d)),
                    r,
                ),
                Resolution::Failed(_) => true,
            },
    {
        let hits = match res {
            Resolution::Resolved { canonical, .. } => self.allowed_hits(canonical.as_str()),
            Resolution::Failed(_) => self.no_hits(),
        };
        let r = self.path_verdict(raw, res, "Path is not a regular file: ", &hits);
        proof {
            if let Resolution::Resolved { canonical, .. } = res {
                if exists|k: int| 0 <= k < self.dirs().len() && strip_seps_s(canonical@) == #[trigger] self.dirs()[k] {
                    let k = choose|k: int| 0 <= k < self.dirs().len() && strip_seps_s(canonical@) == #[trigger] self.dirs()[k];
                    assert(hits@[k]);
                }
            }
            reveal_strlit("Path is not a regular file: ");
            if let Resolution::Resolved { canonical, .. } = res {
                if self.plain_dirs() && plain_path(strip_seps_s(canonical@)) {
                    assert(hits@ =~= self.dirs().map_values(|d: Seq<char>| under_s(strip_seps_s(canonical@), d)));
                }
            }
            if self.dirs().len() == 0 {
                assert(hits@ =~= seq![]);
            }
        }
        r
    }

    /// Validate a path for directory access (list_dir, glob, grep).
    ///
    /// `res` is the path canonicalized, and whether it is a directory.
    pub fn validate_dir_path(&self, raw: &str, res: &Resolution) -> (r: Result<String, McError>)
        ensures
            exists|h: Seq<bool>| h.len() == self.dirs().len() && path_verdict_s(self.denies_traversal(), raw@, *res, "Path is not a directory: "@, h, r),
            self.dirs().len() == 0 ==> path_verdict_s(self.denies_traversal(), raw@, *res, "Path is not a directory: "@, seq![], r),
            match *res {
                Resolution::Resolved { canonical, right_kind } => (!(self.denies_traversal() && contains_s(raw@, ".."@))
                    && right_kind && exists|k: int| 0 <= k < self.dirs().len() && strip_seps_s(canonical@) == #[trigger] self.dirs()[k])
                    ==> (r matches Ok(c) && c@ == canonical@),
                Resolution::Failed(_) => true,
            },
            self.plain_dirs() ==> match *res {
                Resolution::Resolved { canonical, .. } => plain_path(strip_seps_s(canonical@)) ==> path_verdict_s(
                    self.denies_traversal(),
                    raw@,
                    *res,
                    "Path is not a directory: "@,
                    self.dirs().map_values(|d: Seq<char>| under_s(strip_seps_s(canonical@), d)),
                    r,
                ),
                Resolution::Failed(_) => true,
            },
    {
        let hits = match res {
            Resolution::Resolved { canonical, .. } => self.allowed_hits(canonical.as_str()),
            Resolution::Failed(_) => self.no_hits(),
        };
        let r = self.path_verdict(raw, res, "Path is not a directory: ", &hits);
        proof {
            if let Resolution::Resolved { canonical, .. } = res {
                if exists|k: int| 0 <= k < self.dirs().len() && strip_seps_s(canonical@) == #[trigger] self.dirs()[k] {
                    let k = choose|k: int| 0 <= k < self.dirs().len() && strip_seps_s(canonical@) == #[trigger] self.dirs()[k];
                    assert(hits@[k]);
                }
            }
            if let Resolution::Resolved { canonical, .. } = res {
                if self.plain_dirs() && plain_path(strip_seps_s(canonical@)) {
                    assert(hits@ =~= self.dirs().map_values(|d: Seq<char>| under_s(strip_seps_s(canonical@), d)));
                }
            }
            if self.dirs().len() == 0 {
                assert(hits@ =~= seq![]);
            }
        }
        r
    }

    /// One `false` per allowed directory.
    fn no_hits(&self) -> (r: Vec<bool>)
        ensures
            r@.len() == self.dirs().len(),
    {
        let mut v: Vec<bool> = Vec::new();
        let mut i: usize = 0;
        while i < self.allowed_dirs.len()
            invariant
                i <= self.allowed_dirs@.len(),
                v@.len() == i,
            decreases self.allowed_dirs.len() - i,
        {
            v.push(false);
            i = i + 1;
        }
        v
    }

    /// Validate a path for write access: the file may not exist yet when its
    /// parent directory exists or can be created.
    ///
    /// `res` is how the caller resolved it: the canonical file path (or the
    /// canonical parent joined with the file name), or the nearest existing
    /// ancestor with the components still to be created.
    pub fn validate_write_path(&self, raw: &str, res: &WriteResolution) -> (r: Result<String, McError>)
        ensures
            exists|h: Seq<bool>| h.len() == self.dirs().len() && write_verdict_s(self.denies_traversal(), raw@, *res, h, r),
            self.dirs().len() == 0 ==> write_verdict_s(self.denies_traversal(), raw@, *res, seq![], r),
            match write_target_s(*res) {
                Some(t) => (!(self.denies_traversal() && contains_s(raw@, ".."@)) && exists|k: int|
                    0 <= k < self.dirs().len() && strip_seps_s(t) == #[trigger] self.dirs()[k])
                    ==> (r matches Ok(c) && c@ == t),
                None => true,
            },
            self.plain_dirs() ==> match write_target_s(*res) {
                Some(t) => plain_path(strip_seps_s(t)) ==> write_verdict_s(
                    self.denies_traversal(),
                    raw@,
                    *res,
                    self.dirs().map_values(|d: Seq<char>| under_s(strip_seps_s(t), d)),
                    r,
                ),
                None => true,
            },
    {
        let hits = match res {
            WriteResolution::Resolved(c) => self.allowed_hits(c.as_str()),
            WriteResolution::Creatable { ancestor, missing } => {
                let t = join_all(ancestor.as_str(), missing);
                self.allowed_hits(t.as_str())
            },
            _ => self.no_hits(),
        };
        let r = self.write_verdict(raw, res, &hits);
        proof {
            if let Some(t) = write_target_s(*res) {
                if exists|k: int| 0 <= k < self.dirs().len() && strip_seps_s(t) == #[trigger] self.dirs()[k] {
                    let k = choose|k: int| 0 <= k < self.dirs().len() && strip_seps_s(t) == #[trigger] self.dirs()[k];
                    assert(hits@[k]);
                }
            }
            if let Some(t) = write_target_s(*res) {
                if self.plain_dirs() && plain_path(strip_seps_s(t)) {
                    assert(hits@ =~= self.dirs().map_values(|d: Seq<char>| under_s(strip_seps_s(t), d)));
                }
            }
            if self.dirs().len() == 0 {
                assert(hits@ =~= seq![]);
            }
        }
        r
    }

    /// The verdict on a path to be written, given which allowed directories
    /// it lies under.
    pub fn write_verdict(&self, raw: &str, res: &WriteResolution, hits: &Vec<bool>) -> (r: Result<String, McError>)
        requires
            hits@.len() == self.dirs().len(),
        ensures
            write_verdict_s(self.denies_traversal(), raw@, *res, hits@, r),
    {
        self.check_traversal(raw)?;
        match res {
            WriteResolution::CannotCanonicalize(err) => {
                let mut m: Vec<char> = Vec::new();
                extend_chars(&mut m, "Cannot canonicalize '");
                extend_chars(&mut m, raw);
                extend_chars(&mut m, "': ");
                extend_chars(&mut m, err.as_str());
                Err(McError::Tool(string_of(m.as_slice())))
            },
            WriteResolution::ParentNotFound(err) => {
                let mut m: Vec<char> = Vec::new();
                extend_chars(&mut m, "Parent directory not found: ");
                extend_chars(&mut m, raw);
                extend_chars(&mut m, " (");
                extend_chars(&mut m, err.as_str());
                extend_chars(&mut m, ")");
                Err(McError::Tool(string_of(m.as_slice())))
            },
            WriteResolution::InvalidPath => {
                let mut m: Vec<char> = Vec::new();
                extend_chars(&mut m, "Invalid path: '");
                extend_chars(&mut m, raw);
                extend_chars(&mut m, "'");
                Err(McError::Tool(string_of(m.as_slice())))
            },
            WriteResolution::Resolved(c) => {
                if !any_hit_exec(hits) {
                    return Err(McError::Tool(denied_message(raw)));
                }
                Ok(c.clone())
            },
            WriteResolution::Creatable { ancestor, missing } => {
                if !any_hit_exec(hits) {
                    return Err(McError::Tool(denied_message(raw)));
                }
                Ok(join_all(ancestor.as_str(), missing))
            },
        }
    }

    /// Check whether a shell command matches any dangerous pattern
    /// (case-insensitively): the first pattern its lowercased text contains
    /// blocks it.
    pub fn check_command(&self, command: &str) -> (r: Result<(), McError>)
        ensures
            match first_pattern_s(str_lower(command@), self.patterns()) {
                Some(k) => r matches Err(e) && is_tool_error(
                    e,
                    "Blocked dangerous command: matches pattern '"@ + self.patterns()[k] + "'"@,
                ),
                None => r is Ok,
            },
    {
        if self.dangerous_commands.len() == 0 {
            return Ok(());
        }
        let lower = to_lowercase(command);
        let lv = chars_of(lower.as_str());
        let ghost pats = self.patterns();
        let mut i: usize = 0;
        while i < self.dangerous_commands.len()
            invariant
                i <= self.dangerous_commands@.len(),
                pats == self.patterns(),
                pats.len() == self.dangerous_commands@.len(),
                forall|k: int| 0 <= k < pats.len() ==> pats[k] == (#[trigger] self.dangerous_commands@[k])@,
                lv@ == str_lower(command@),
                forall|m: int| 0 <= m < i ==> !contains_s(lv@, #[trigger] pats[m]),
            decreases self.dangerous_commands.len() - i,
        {
            let pv = chars_of(self.dangerous_commands[i].as_str());
            if contains_chars(lv.as_slice(), pv.as_slice()) {
                proof {
                    assert(contains_s(lv@, pats[i as int]));
                    let k = first_pattern_s(lv@, pats).unwrap();
                    assert(0 <= k < pats.len() && contains_s(lv@, pats[k]));
                    if k < i {
                        assert(!contains_s(lv@, pats[k]));
                    }
                    if k > i {
                        assert(!contains_s(lv@, pats[i as int]));
                    }
                }
                let mut m: Vec<char> = Vec::new();
                extend_chars(&mut m, "Blocked dangerous command: matches pattern '");
                extend_chars(&mut m, self.dangerous_commands[i].as_str());
                extend_chars(&mut m, "'");
                return Err(McError::Tool(string_of(m.as_slice())));
            }
            i = i + 1;
        }
        Ok(())
    }

    /// Reject glob patterns containing `..` when traversal is denied.
    pub fn check_glob_pattern(&self, pattern: &str) -> (r: Result<(), McError>)
        ensures
            (self.denies_traversal() && contains_s(pattern@, ".."@)) ==> (r matches Err(e) && is_tool_error(
                e,
                "Path traversal rejected: glob pattern '"@ + pattern@ + "' contains '..'"@,
            )),
            !(self.denies_traversal() && contains_s(pattern@, ".."@)) ==> r is Ok,
    {
        let v = chars_of(pattern);
        let dd = chars_of("..");
        if self.deny_path_traversal && contains_chars(v.as_slice(), dd.as_slice()) {
            let mut m: Vec<char> = Vec::new();
            extend_chars(&mut m, "Path traversal rejected: glob pattern '");
            extend_chars(&mut m, pattern);
            extend_chars(&mut m, "' contains '..'");
            return Err(McError::Tool(string_of(m.as_slice())));
        }
        Ok(())
    }
}

/// The access-denied message.
fn denied_message(raw: &str) -> (r: String)
    ensures
        r@ == denied_error_s(raw@),
{
    let mut m: Vec<char> = Vec::new();
    extend_chars(&mut m, "Access denied: '");
    extend_chars(&mut m, raw);
    extend_chars(&mut m, "' is outside allowed directories");
    string_of(m.as_slice())
}

/// Whether some allowed directory matched.
fn any_hit_exec(hits: &Vec<bool>) -> (r: bool)
    ensures
        r == any_hit(hits@),
{
    if hits.len() == 0 {
        return true;
    }
    let mut i: usize = 0;
    while i < hits.len()
        invariant
            i <= hits@.len(),
            forall|k: int| 0 <= k < i ==> !hits@[k],
        decreases hits.len() - i,
    {
        if hits[i] {
            return true;
        }
        i = i + 1;
    }
    false
}

/// `r` is the verdict on a resolved path given its directory hits.
pub open spec fn path_verdict_s(
    deny: bool,
    raw: Seq<char>,
    res: Resolution,
    kind_error: Seq<char>,
    hits: Seq<bool>,
    r: Result<String, McError>,
) -> bool {
    if deny && contains_s(raw, ".."@) {
        r matches Err(e) && is_tool_error(e, traversal_error_s(raw))
    } else {
        match res {
            Resolution::Failed(err) => r matches Err(e) && is_tool_error(
                e,
                "Path not found or inaccessible: "@ + raw + " ("@ + err@ + ")"@,
            ),
            Resolution::Resolved { canonical, right_kind } => if !right_kind {
                r matches Err(e) && is_tool_error(e, kind_error + raw)
            } else if !any_hit(hits) {
                r matches Err(e) && is_tool_error(e, denied_error_s(raw))
            } else {
                r matches Ok(c) && c@ == canonical@
            },
        }
    }
}

/// `r` is the verdict on a path to be written given its directory hits.
pub open spec fn write_verdict_s(
    deny: bool,
    raw: Seq<char>,
    res: WriteResolution,
    hits: Seq<bool>,
    r: Result<String, McError>,
) -> bool {
    if deny && contains_s(raw, ".."@) {
        r matches Err(e) && is_tool_error(e, traversal_error_s(raw))
    } else {
        match res {
            WriteResolution::CannotCanonicalize(err) => r matches Err(e) && is_tool_error(
                e,
                "Cannot canonicalize '"@ + raw + "': "@ + err@,
            ),
            WriteResolution::ParentNotFound(err) => r matches Err(e) && is_tool_error(
                e,
                "Parent directory not found: "@ + raw + " ("@ + err@ + ")"@,
            ),
            WriteResolution::InvalidPath => r matches Err(e) && is_tool_error(e, "Invalid path: '"@ + raw + "'"@),
            WriteResolution::Resolved(c) => if !any_hit(hits) {
                r matches Err(e) && is_tool_error(e, denied_error_s(raw))
            } else {
                r matches Ok(x) && x@ == c@
            },
            WriteResolution::Creatable { ancestor, missing } => if !any_hit(hits) {
                r matches Err(e) && is_tool_error(e, denied_error_s(raw))
            } else {
                r matches Ok(x) && x@ == join_all_s(ancestor@, strs_view(missing@))
            },
        }
    }
}

} // verus!
