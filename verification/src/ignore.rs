//! Inclusion/exclusion rules: a fixed built-in exclusion list merged with the
//! lines of a project ignore file, split into exclude patterns and negate
//! (force-include) patterns by a leading `!`. Each pattern is a glob matched
//! against the full path string; an entry is excluded iff it matches at least
//! one exclude pattern and no negate pattern.
use vstd::prelude::*;
use vstd::string::*;
use crate::DeployError;

verus! {

/// Views of a sequence of strings.
pub open spec fn str_views(s: Seq<String>) -> Seq<Seq<char>> {
    s.map_values(|p: String| p@)
}

/// Whether a pattern is a usable glob: valid glob syntax that also compiles
/// into a matcher (an enormous pattern can parse yet exceed the compiled
/// size limit); `globset::Glob::new` followed by `GlobSetBuilder::build`
/// decides it.
pub uninterp spec fn glob_ok(pattern: Seq<char>) -> bool;

/// Whether a glob pattern matches a full path string; a function of the
/// pattern and the path alone, as `globset` matches them (its path-separator
/// handling is fixed by the build target).
pub uninterp spec fn glob_match(pattern: Seq<char>, path: Seq<char>) -> bool;

/// Relies on `globset::Glob::new` and `GlobSetBuilder::build`: both succeed
/// exactly when the pattern is valid glob syntax that compiles into a
/// matcher (`build`, unlike `Glob::compile_matcher`, reports a pattern past
/// the compiled size limit as an error instead of panicking).
#[verifier::external_body]
fn glob_check(pattern: &str) -> (r: bool)
    ensures
        r == glob_ok(pattern@),
{
    match globset::Glob::new(pattern) {
        Ok(glob) => {
            let mut builder = globset::GlobSetBuilder::new();
            builder.add(glob);
            builder.build().is_ok()
        },
        Err(_) => false,
    }
}

/// Relies on `globset::GlobSet::is_match` over the one-pattern set built by
/// `globset::Glob::new` and `GlobSetBuilder::build` (both succeed on a
/// `glob_ok` pattern): whether the glob matches the whole path string.
#[verifier::external_body]
fn glob_is_match(pattern: &str, path: &str) -> (r: bool)
    requires
        glob_ok(pattern@),
    ensures
        r == glob_match(pattern@, path@),
{
    let mut builder = globset::GlobSetBuilder::new();
    builder.add(globset::Glob::new(pattern).unwrap());
    builder.build().unwrap().is_match(path)
}

/// Some pattern in `pats` matches `path`.
pub open spec fn matches_any(pats: Seq<Seq<char>>, path: Seq<char>) -> bool {
    exists|i: int| 0 <= i < pats.len() && glob_match(pats[i], path)
}

fn any_match(pats: &Vec<String>, path: &str) -> (r: bool)
    requires
        forall|i: int| 0 <= i < pats@.len() ==> glob_ok(#[trigger] pats@[i]@),
    ensures
        r == matches_any(str_views(pats@), path@),
{
    let n = pats.len();
    let mut i: usize = 0;
    while i < n
        invariant
            n == pats@.len(),
            0 <= i <= n,
            forall|i0: int| 0 <= i0 < pats@.len() ==> glob_ok(#[trigger] pats@[i0]@),
            forall|j: int| 0 <= j < i ==> !glob_match(str_views(pats@)[j], path@),
        decreases n - i,
    {
        if glob_is_match(pats[i].as_str(), path) {
            assert(glob_match(str_views(pats@)[i as int], path@));
            return true;
        }
        i = i + 1;
    }
    false
}

/// The inclusion decision for one entry.
#[derive(Clone, Copy, Debug, PartialEq, Eq, Structural)]
pub enum Decision {
    Included,
    Excluded,
}

/// A negate (force-include) pattern: an ignore line starting with `!`.
pub open spec fn is_negate(p: Seq<char>) -> bool {
    p.len() >= 1 && p[0] == '!'
}

/// A negate pattern stripped of its leading `!`.
pub open spec fn strip_negate(p: Seq<char>) -> Seq<char> {
    p.subrange(1, p.len() as int)
}

/// The glob that a raw ignore line contributes: itself, or, for a negate
/// line, the line without its leading `!`.
pub open spec fn effective_pattern(p: Seq<char>) -> Seq<char> {
    if is_negate(p) {
        strip_negate(p)
    } else {
        p
    }
}

/// The exclude patterns among `ps`, in order.
pub open spec fn excludes_of(ps: Seq<Seq<char>>) -> Seq<Seq<char>>
    decreases ps.len(),
{
    if ps.len() == 0 {
        Seq::empty()
    } else if is_negate(ps.last()) {
        excludes_of(ps.drop_last())
    } else {
        excludes_of(ps.drop_last()).push(ps.last())
    }
}

/// The negate patterns among `ps`, stripped of their `!`, in order.
pub open spec fn negates_of(ps: Seq<Seq<char>>) -> Seq<Seq<char>>
    decreases ps.len(),
{
    if ps.len() == 0 {
        Seq::empty()
    } else if is_negate(ps.last()) {
        negates_of(ps.drop_last()).push(strip_negate(ps.last()))
    } else {
        negates_of(ps.drop_last())
    }
}

/// The mathematical content of a rule set: its exclude and negate patterns.
pub ghost struct RuleSetView {
    pub excludes: Seq<Seq<char>>,
    pub negates: Seq<Seq<char>>,
}

/// An ordered set of compiled ignore rules: exclude patterns and negate
/// patterns, every one of them valid glob syntax.
pub struct IgnoreRuleSet {
    excludes: Vec<String>,
    negates: Vec<String>,
}

impl View for IgnoreRuleSet {
    type V = RuleSetView;

    closed spec fn view(&self) -> RuleSetView {
        RuleSetView { excludes: str_views(self.excludes@), negates: str_views(self.negates@) }
    }
}

/// The decision rule: excluded iff the path matches at least one exclude
/// pattern and no negate pattern; negate patterns always win.
pub open spec fn spec_decision(rules: RuleSetView, path: Seq<char>) -> Decision {
    if matches_any(rules.excludes, path) && !matches_any(rules.negates, path) {
        Decision::Excluded
    } else {
        Decision::Included
    }
}

impl IgnoreRuleSet {
    #[verifier::type_invariant]
    spec fn wf(self) -> bool {
        &&& forall|i: int| 0 <= i < self.excludes@.len() ==> glob_ok(#[trigger] self.excludes@[i]@)
        &&& forall|i: int| 0 <= i < self.negates@.len() ==> glob_ok(#[trigger] self.negates@[i]@)
    }

    /// Splits raw pattern lines into exclude and negate rules, validating
    /// each glob; fails with `IgnoreFileError` iff some line is not valid
    /// glob syntax (negate lines are judged without their leading `!`).
    pub fn from_patterns(patterns: &Vec<String>) -> (r: Result<IgnoreRuleSet, DeployError>)
        ensures
            (r is Ok) <==> (forall|i: int|
                0 <= i < patterns@.len() ==> glob_ok(
                    effective_pattern(#[trigger] str_views(patterns@)[i]),
                )),
            r matches Ok(rs) ==> rs@.excludes == excludes_of(str_views(patterns@))
                && rs@.negates == negates_of(str_views(patterns@)),
            r matches Err(e) ==> e matches DeployError::IgnoreFileError,
    {
        let ghost all = str_views(patterns@);
        let n = patterns.len();
        let mut ex: Vec<String> = Vec::new();
        let mut ng: Vec<String> = Vec::new();
        let mut i: usize = 0;
        while i < n
            invariant
                n == patterns@.len(),
                0 <= i <= n,
                all == str_views(patterns@),
                str_views(ex@) == excludes_of(all.subrange(0, i as int)),
                str_views(ng@) == negates_of(all.subrange(0, i as int)),
                forall|j: int| 0 <= j < ex@.len() ==> glob_ok(#[trigger] ex@[j]@),
                forall|j: int| 0 <= j < ng@.len() ==> glob_ok(#[trigger] ng@[j]@),
                forall|j: int| 0 <= j < i ==> glob_ok(effective_pattern(#[trigger] all[j])),
            decreases n - i,
        {
            let p = &patterns[i];
            proof {
                assert(all.subrange(0, i + 1).drop_last() =~= all.subrange(0, i as int));
                assert(all.subrange(0, i + 1).last() == p@);
            }
            let negate = p.as_str().unicode_len() >= 1 && p.as_str().get_char(0) == '!';
            if negate {
                let len = p.as_str().unicode_len();
                let stripped = p.as_str().substring_char(1, len);
                if !glob_check(stripped) {
                    assert(!glob_ok(effective_pattern(all[i as int])));
                    return Err(DeployError::IgnoreFileError);
                }
                let ghost old_ng = ng@;
                ng.push(String::from_str(stripped));
                proof {
                    assert(str_views(ng@) =~= str_views(old_ng).push(strip_negate(p@)));
                }
            } else {
                if !glob_check(p.as_str()) {
                    assert(!glob_ok(effective_pattern(all[i as int])));
                    return Err(DeployError::IgnoreFileError);
                }
                let ghost old_ex = ex@;
                ex.push(p.clone());
                proof {
                    assert(str_views(ex@) =~= str_views(old_ex).push(p@));
                }
            }
            i = i + 1;
        }
        proof {
            assert(all.subrange(0, n as int) =~= all);
        }
        Ok(IgnoreRuleSet { excludes: ex, negates: ng })
    }

    /// The decision for one entry path: `Excluded` iff the path matches at
    /// least one exclude pattern and no negate pattern of this rule set.
    pub fn decide(&self, path: &str) -> (d: Decision)
        ensures
            d == spec_decision(self@, path@),
            (d matches Decision::Excluded) <==> (matches_any(self@.excludes, path@)
                && !matches_any(self@.negates, path@)),
    {
        proof {
            use_type_invariant(self);
        }
        let ex = any_match(&self.excludes, path);
        let ng = any_match(&self.negates, path);
        if ex && !ng {
            Decision::Excluded
        } else {
            Decision::Included
        }
    }

    /// The exclude patterns, in order.
    pub fn exclude_patterns(&self) -> (r: &Vec<String>)
        ensures
            str_views(r@) == self@.excludes,
    {
        &self.excludes
    }

    /// The negate patterns, stripped of their `!`, in order.
    pub fn negate_patterns(&self) -> (r: &Vec<String>)
        ensures
            str_views(r@) == self@.negates,
    {
        &self.negates
    }
}

/// The fixed built-in exclusion list, applied before any user pattern.
pub open spec fn default_patterns() -> Seq<Seq<char>> {
    seq![
        ".git"@,
        ".gitmodules"@,
        ".vscode"@,
        ".next"@,
        ".npm"@,
        ".venv"@,
        ".yarn"@,
        "__pycache__"@,
        "bin"@,
        "dist"@,
        "node_modules"@,
        "yarn-error.log"@,
        ".DS_Store"@,
    ]
}

/// The built-in exclusion list as pattern strings.
pub fn default_ignore_patterns() -> (r: Vec<String>)
    ensures
        str_views(r@) == default_patterns(),
{
    let mut v: Vec<String> = Vec::new();
    v.push(String::from_str(".git"));
    v.push(String::from_str(".gitmodules"));
    v.push(String::from_str(".vscode"));
    v.push(String::from_str(".next"));
    v.push(String::from_str(".npm"));
    v.push(String::from_str(".venv"));
    v.push(String::from_str(".yarn"));
    v.push(String::from_str("__pycache__"));
    v.push(String::from_str("bin"));
    v.push(String::from_str("dist"));
    v.push(String::from_str("node_modules"));
    v.push(String::from_str("yarn-error.log"));
    v.push(String::from_str(".DS_Store"));
    proof {
        assert(str_views(v@) =~= default_patterns());
    }
    v
}

/// Merges the built-in exclusion list with the user's ignore lines and
/// resolves the whole into a rule set; fails with `IgnoreFileError` iff some
/// line is not valid glob syntax.
pub fn resolve(user_lines: &Vec<String>) -> (r: Result<IgnoreRuleSet, DeployError>)
    ensures
        ({
            let all = default_patterns() + str_views(user_lines@);
            &&& (r is Ok) <==> (forall|i: int|
                0 <= i < all.len() ==> glob_ok(effective_pattern(#[trigger] all[i])))
            &&& r matches Ok(rs) ==> rs@.excludes == excludes_of(all) && rs@.negates
                == negates_of(all)
            &&& r matches Err(e) ==> e matches DeployError::IgnoreFileError
        }),
{
    let mut combined = default_ignore_patterns();
    let n = user_lines.len();
    let mut i: usize = 0;
    while i < n
        invariant
            n == user_lines@.len(),
            0 <= i <= n,
            str_views(combined@) == default_patterns() + str_views(user_lines@.subrange(0, i as int)),
        decreases n - i,
    {
        let ghost old_combined = combined@;
        combined.push(user_lines[i].clone());
        proof {
            assert(str_views(combined@) =~= str_views(old_combined).push(user_lines@[i as int]@));
            assert(str_views(combined@) =~= default_patterns() + str_views(
                user_lines@.subrange(0, i + 1),
            ));
        }
        i = i + 1;
    }
    proof {
        assert(user_lines@.subrange(0, n as int) =~= user_lines@);
        assert(str_views(combined@) =~= default_patterns() + str_views(user_lines@));
    }
    IgnoreRuleSet::from_patterns(&combined)
}

proof fn lemma_excludes_of_contains(ps: Seq<Seq<char>>, i: int)
    requires
        0 <= i < ps.len(),
        !is_negate(ps[i]),
    ensures
        excludes_of(ps).contains(ps[i]),
    decreases ps.len(),
{
    if i == ps.len() - 1 {
        assert(excludes_of(ps).last() == ps[i]);
    } else {
        lemma_excludes_of_contains(ps.drop_last(), i);
        let ghost rest = excludes_of(ps.drop_last());
        let j = choose|j: int| 0 <= j < rest.len() && rest[j] == ps[i];
        assert(excludes_of(ps)[j] == ps[i]);
    }
}

/// Whatever the user's ignore lines, the resolved exclude patterns keep the
/// built-in `node_modules` entry.
pub proof fn lemma_node_modules_always_excluded(user: Seq<Seq<char>>)
    ensures
        excludes_of(default_patterns() + user).contains("node_modules"@),
{
    reveal_strlit("node_modules");
    let all = default_patterns() + user;
    assert(all[10] == "node_modules"@);
    assert(!is_negate("node_modules"@));
    lemma_excludes_of_contains(all, 10);
}

/// Least index `>= i` holding `\n`, or the length if there is none.
pub open spec fn first_nl_from(s: Seq<char>, i: int) -> int
    decreases s.len() - i,
{
    if i < 0 || i >= s.len() {
        s.len() as int
    } else if s[i] == '\n' {
        i
    } else {
        first_nl_from(s, i + 1)
    }
}

proof fn lemma_first_nl_bounds(s: Seq<char>, i: int)
    requires
        0 <= i <= s.len(),
    ensures
        i <= first_nl_from(s, i) <= s.len(),
    decreases s.len() - i,
{
    if i < s.len() && s[i] != '\n' {
        lemma_first_nl_bounds(s, i + 1);
    }
}

/// The lines of `s` from position `i` on, split at `\n`; the text after the
/// final `\n` is a line of its own, so the result is never empty.
pub open spec fn split_lines_from(s: Seq<char>, i: int) -> Seq<Seq<char>>
    decreases s.len() - i,
    when 0 <= i <= s.len()
    via split_lines_from_decreases
{
    if first_nl_from(s, i) >= s.len() {
        seq![s.subrange(i, s.len() as int)]
    } else {
        seq![s.subrange(i, first_nl_from(s, i))] + split_lines_from(s, first_nl_from(s, i) + 1)
    }
}

#[via_fn]
proof fn split_lines_from_decreases(s: Seq<char>, i: int) {
    lemma_first_nl_bounds(s, i);
}

proof fn lemma_first_nl_skip(s: Seq<char>, start: int, i: int)
    requires
        0 <= start <= i <= s.len(),
        forall|j: int| start <= j < i ==> s[j] != '\n',
    ensures
        first_nl_from(s, start) == first_nl_from(s, i),
    decreases i - start,
{
    if i > start {
        lemma_first_nl_skip(s, start + 1, i);
    }
}

/// Splits a text into its lines at `\n`; the text after the final `\n` (or
/// the whole text, if it has none) is a line of its own.
pub fn split_lines(text: &str) -> (r: Vec<String>)
    ensures
        str_views(r@) == split_lines_from(text@, 0),
{
    let n = text.unicode_len();
    let mut out: Vec<String> = Vec::new();
    let mut start: usize = 0;
    let mut i: usize = 0;
    while i < n
        invariant
            n == text@.len(),
            0 <= start <= i <= n,
            forall|j: int| start <= j < i ==> text@[j] != '\n',
            split_lines_from(text@, 0) == str_views(out@) + split_lines_from(
                text@,
                start as int,
            ),
        decreases n - i,
    {
        if text.get_char(i) == '\n' {
            let line = text.substring_char(start, i);
            proof {
                lemma_first_nl_skip(text@, start as int, i as int);
                assert(first_nl_from(text@, i as int) == i);
                assert(split_lines_from(text@, start as int) == seq![line@] + split_lines_from(
                    text@,
                    i + 1,
                ));
            }
            let ghost old_out = out@;
            out.push(String::from_str(line));
            proof {
                assert(str_views(out@) =~= str_views(old_out).push(line@));
                assert(str_views(old_out) + (seq![line@] + split_lines_from(text@, i + 1))
                    =~= str_views(out@) + split_lines_from(text@, i + 1));
            }
            start = i + 1;
        }
        i = i + 1;
    }
    let line = text.substring_char(start, n);
    proof {
        lemma_first_nl_skip(text@, start as int, n as int);
        assert(first_nl_from(text@, start as int) == n);
        assert(split_lines_from(text@, start as int) == seq![line@]);
    }
    let ghost old_out = out@;
    out.push(String::from_str(line));
    proof {
        assert(str_views(out@) =~= str_views(old_out).push(line@));
        assert(str_views(old_out) + seq![line@] =~= str_views(out@));
    }
    out
}

} // verus!
