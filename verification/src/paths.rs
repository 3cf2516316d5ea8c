//! Absolute-path arithmetic on plain strings: parent directories, ancestor
//! chains, and root-relative paths. Paths are absolute, `/`-separated strings;
//! the filesystem root is the one-character path `/`.
use vstd::prelude::*;
use vstd::string::*;

verus! {

/// The view of the filesystem root path.
pub open spec fn root_path() -> Seq<char> {
    seq!['/']
}

/// Index of the last `/` in `s`, or `-1` if there is none.
pub open spec fn last_slash(s: Seq<char>) -> int
    decreases s.len(),
{
    if s.len() == 0 {
        -1
    } else if s.last() == '/' {
        s.len() - 1
    } else {
        last_slash(s.drop_last())
    }
}

/// The parent directory of an absolute path: everything before the last `/`,
/// or the root when the last `/` is the leading one.
pub open spec fn parent_of(s: Seq<char>) -> Seq<char> {
    if last_slash(s) <= 0 {
        root_path()
    } else {
        s.subrange(0, last_slash(s))
    }
}

/// An absolute path: nonempty, starting with `/`.
pub open spec fn is_absolute(s: Seq<char>) -> bool {
    s.len() >= 1 && s[0] == '/'
}

proof fn lemma_last_slash_absolute(s: Seq<char>)
    requires
        is_absolute(s),
    ensures
        0 <= last_slash(s) < s.len(),
    decreases s.len(),
{
    if s.last() != '/' {
        lemma_last_slash_absolute(s.drop_last());
    }
}

/// Characterizes `last_slash`: if `s[i]` is a `/` and nothing after it is,
/// then `i` is the last slash.
proof fn lemma_last_slash_at(s: Seq<char>, i: int)
    requires
        0 <= i < s.len(),
        s[i] == '/',
        forall|j: int| i < j < s.len() ==> s[j] != '/',
    ensures
        last_slash(s) == i,
    decreases s.len(),
{
    if i == s.len() - 1 {
    } else {
        lemma_last_slash_at(s.drop_last(), i);
    }
}

/// The parent of an absolute path other than the root is strictly shorter
/// and still absolute.
pub proof fn lemma_parent_shorter(s: Seq<char>)
    requires
        is_absolute(s),
        s.len() >= 2,
    ensures
        parent_of(s).len() < s.len(),
        is_absolute(parent_of(s)),
    decreases s.len(),
{
    lemma_last_slash_absolute(s);
    if last_slash(s) > 0 {
        assert(parent_of(s)[0] == s[0]);
    }
}

/// The parent directory of an absolute path, or `None` for the root.
pub fn parent_dir(dir: &str) -> (r: Option<String>)
    requires
        is_absolute(dir@),
    ensures
        (r is None) <==> dir@ == root_path(),
        r matches Some(p) ==> p@ == parent_of(dir@) && is_absolute(p@),
{
    let n = dir.unicode_len();
    if n == 1 {
        proof {
            assert(dir@ =~= root_path());
        }
        return None;
    }
    assert(dir@ != root_path());
    let mut i: usize = n - 1;
    while dir.get_char(i) != '/'
        invariant
            is_absolute(dir@),
            n == dir@.len(),
            0 <= i < n,
            forall|j: int| i < j < n ==> dir@[j] != '/',
        decreases i,
    {
        assert(i > 0) by {
            assert(dir@[0] == '/');
        }
        i = i - 1;
    }
    proof {
        lemma_last_slash_at(dir@, i as int);
    }
    if i == 0 {
        let root = String::from_str("/");
        proof {
            reveal_strlit("/");
            assert(root@ =~= root_path());
        }
        Some(root)
    } else {
        let p = dir.substring_char(0, i);
        proof {
            assert(p@ == parent_of(dir@));
            assert(p@[0] == '/');
        }
        Some(String::from_str(p))
    }
}

/// The chain of ancestor directories of `start`: `start` itself first, each
/// followed by its parent, ending at the filesystem root.
pub fn ancestors_of(start: &str) -> (r: Vec<String>)
    requires
        is_absolute(start@),
    ensures
        r@.len() >= 1,
        r@[0]@ == start@,
        r@[r@.len() - 1]@ == root_path(),
        forall|i: int| 0 <= i < r@.len() - 1 ==> r@[i + 1]@ == parent_of(r@[i]@),
        forall|i: int| 0 <= i < r@.len() ==> is_absolute(#[trigger] r@[i]@),
    decreases start@.len(),
{
    let mut out: Vec<String> = Vec::new();
    let mut cur: String = start.to_owned();
    loop
        invariant_except_break
            forall|i: int| 0 <= i < out@.len() ==> #[trigger] out@[i]@ != root_path(),
        invariant
            is_absolute(cur@),
            out@.len() == 0 ==> cur@ == start@,
            out@.len() > 0 ==> out@[0]@ == start@ && cur@ == parent_of(out@[out@.len() - 1]@),
            forall|i: int| 0 <= i < out@.len() - 1 ==> out@[i + 1]@ == parent_of(out@[i]@),
            forall|i: int| 0 <= i < out@.len() ==> is_absolute(#[trigger] out@[i]@),
        ensures
            out@.len() >= 1,
            out@[0]@ == start@,
            out@[out@.len() - 1]@ == root_path(),
        decreases cur@.len(),
    {
        if cur.as_str().unicode_len() == 1 {
            proof {
                assert(cur@ =~= root_path());
            }
            out.push(cur);
            break;
        }
        proof {
            lemma_parent_shorter(cur@);
        }
        let p = parent_dir(cur.as_str()).unwrap();
        out.push(cur);
        cur = p;
    }
    out
}

/// Length of the prefix that `base` contributes to the paths below it:
/// the base itself plus the separating `/` (already present for the root).
pub open spec fn dir_prefix_len(base: Seq<char>) -> int {
    if base == root_path() {
        1
    } else {
        base.len() as int + 1
    }
}

/// `abs` lies strictly below the directory `base`, and the remainder is a
/// well-formed relative path (nonempty, no leading `/`).
pub open spec fn is_under(base: Seq<char>, abs: Seq<char>) -> bool {
    &&& abs.len() > dir_prefix_len(base)
    &&& abs.subrange(0, base.len() as int) == base
    &&& (base == root_path() || abs[base.len() as int] == '/')
    &&& abs[dir_prefix_len(base)] != '/'
}

/// The root-relative path of `abs` below `base`: the suffix after the base
/// and its separating `/`.
pub open spec fn rel_path_of(base: Seq<char>, abs: Seq<char>) -> Seq<char> {
    abs.subrange(dir_prefix_len(base), abs.len() as int)
}

/// The path of an entry named `name` directly under the directory `dir`.
pub open spec fn join_of(dir: Seq<char>, name: Seq<char>) -> Seq<char> {
    if dir == root_path() {
        root_path() + name
    } else {
        dir + root_path() + name
    }
}

/// Builds the path of `name` directly under the directory `dir`.
pub fn join_under(dir: &str, name: &str) -> (r: String)
    requires
        is_absolute(dir@),
    ensures
        r@ == join_of(dir@, name@),
{
    if dir.unicode_len() == 1 {
        proof {
            assert(dir@ =~= root_path());
            reveal_strlit("/");
        }
        String::from_str("/").concat(name)
    } else {
        proof {
            assert(dir@ != root_path());
            reveal_strlit("/");
        }
        String::from_str(dir).concat("/").concat(name)
    }
}

/// Joining a well-formed entry name under a directory and taking the
/// relative path again gives the name back: the two operations invert.
pub proof fn lemma_join_under_inverts(dir: Seq<char>, name: Seq<char>)
    requires
        is_absolute(dir),
        name.len() > 0,
        name[0] != '/',
    ensures
        is_under(dir, join_of(dir, name)),
        rel_path_of(dir, join_of(dir, name)) == name,
{
    let joined = join_of(dir, name);
    assert(joined.subrange(0, dir.len() as int) =~= dir);
    assert(rel_path_of(dir, joined) =~= name);
}

/// Computes the root-relative path of `abs` below the directory `base`, or
/// `None` when `abs` does not lie below `base`. A returned path is never
/// empty and never starts with `/`: it cannot escape the project root.
pub fn relative_to(base: &str, abs: &str) -> (r: Option<String>)
    requires
        is_absolute(base@),
    ensures
        (r is Some) <==> is_under(base@, abs@),
        r matches Some(rel) ==> rel@ == rel_path_of(base@, abs@) && rel@.len() > 0
            && rel@[0] != '/',
{
    let nb = base.unicode_len();
    let na = abs.unicode_len();
    if na <= nb {
        assert(!is_under(base@, abs@));
        return None;
    }
    let mut i: usize = 0;
    while i < nb
        invariant
            is_absolute(base@),
            nb == base@.len(),
            na == abs@.len(),
            na > nb,
            0 <= i <= nb,
            forall|j: int| 0 <= j < i ==> abs@[j] == base@[j],
        decreases nb - i,
    {
        if abs.get_char(i) != base.get_char(i) {
            proof {
                assert(abs@.subrange(0, nb as int) != base@) by {
                    assert(abs@.subrange(0, nb as int)[i as int] == abs@[i as int]);
                }
            }
            return None;
        }
        i = i + 1;
    }
    proof {
        assert(abs@.subrange(0, nb as int) =~= base@);
    }
    let is_root = nb == 1;
    proof {
        if is_root {
            assert(base@ =~= root_path());
        } else {
            assert(base@ != root_path());
        }
    }
    if !is_root {
        if abs.get_char(nb) != '/' {
            return None;
        }
    }
    let skip: usize = if is_root { 1 } else { nb + 1 };
    assert(skip == dir_prefix_len(base@));
    if na <= skip {
        return None;
    }
    if abs.get_char(skip) == '/' {
        return None;
    }
    let rel = abs.substring_char(skip, na);
    Some(String::from_str(rel))
}

} // verus!
