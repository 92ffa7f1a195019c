//! Paths, written as strings with `/` separators.
//!
//! `join` and `parent` follow `std::path` on Unix for the paths this launcher
//! builds: absolute or relative, without `.` components or doubled
//! separators.

use vstd::prelude::*;

use crate::text::{
    from_chars, lemma_trail_char, push_all, push_str, slice, to_chars, trim_end_char,
    trim_end_matches,
};

verus! {

/// `Path::join`: an absolute `rest` replaces `base`, otherwise a separator is
/// added when `base` is not empty and does not already end with one.
pub open spec fn path_join(base: Seq<char>, rest: Seq<char>) -> Seq<char> {
    if rest.len() > 0 && rest[0] == '/' {
        rest
    } else if base.len() == 0 {
        rest
    } else if base.last() == '/' {
        base + rest
    } else {
        base + seq!['/'] + rest
    }
}

/// Index of the last `/`, or `-1`.
pub open spec fn last_slash(p: Seq<char>) -> int
    decreases p.len(),
{
    if p.len() == 0 {
        -1
    } else if p.last() == '/' {
        p.len() - 1
    } else {
        last_slash(p.drop_last())
    }
}

/// `Path::parent`: `None` for the root and for the empty path; the empty path
/// for a single relative component; trailing separators are ignored.
pub open spec fn path_parent(p: Seq<char>) -> Option<Seq<char>> {
    let q = trim_end_char(p, '/');
    if q.len() == 0 {
        None
    } else {
        let i = last_slash(q);
        if i < 0 {
            Some(Seq::empty())
        } else if i == 0 {
            Some(seq!['/'])
        } else {
            Some(q.take(i))
        }
    }
}

pub open spec fn is_absolute(p: Seq<char>) -> bool {
    p.len() > 0 && p[0] == '/'
}

pub fn join(base: &str, rest: &str) -> (r: String)
    ensures
        r@ == path_join(base@, rest@),
{
    let b = to_chars(base);
    let r = to_chars(rest);
    if r.len() > 0 && r[0] == '/' {
        return rest.to_owned();
    }
    if b.len() == 0 {
        return rest.to_owned();
    }
    let mut out = b.clone();
    if b[b.len() - 1] != '/' {
        out.push('/');
    }
    push_all(&mut out, &r);
    assert(out@ =~= path_join(base@, rest@));
    from_chars(&out)
}

pub(crate) fn last_slash_exec(p: &[char]) -> (r: Option<usize>)
    ensures
        r matches Some(i) ==> i == last_slash(p@) && i < p@.len(),
        r is None ==> last_slash(p@) == -1,
{
    let mut k: usize = p.len();
    assert(p@.take(p@.len() as int) =~= p@);
    while k > 0
        invariant
            k <= p@.len(),
            last_slash(p@) == last_slash(p@.take(k as int)),
        decreases k,
    {
        assert(p@.take(k as int).drop_last() =~= p@.take(k - 1));
        if p[k - 1] == '/' {
            return Some(k - 1);
        }
        k -= 1;
    }
    None
}

pub fn parent(p: &str) -> (r: Option<String>)
    ensures
        r matches Some(s) ==> path_parent(p@) == Some(s@),
        r is None ==> path_parent(p@) is None,
{
    let chars = to_chars(p);
    let q = trim_end_matches(&chars, '/');
    if q.len() == 0 {
        return None;
    }
    assert(q@.take(q@.len() as int) =~= q@);
    match last_slash_exec(&q) {
        None => Some(String::new()),
        Some(i) => {
            if i == 0 {
                let mut v: Vec<char> = Vec::new();
                v.push('/');
                assert(v@ =~= seq!['/']);
                Some(from_chars(&v))
            } else {
                let head = slice(&q, 0, i);
                assert(head@ =~= q@.take(i as int));
                Some(from_chars(&head))
            }
        },
    }
}

pub fn is_absolute_path(p: &str) -> (r: bool)
    ensures
        r == is_absolute(p@),
{
    let chars = to_chars(p);
    chars.len() > 0 && chars[0] == '/'
}

/// A separator on Windows, where `/` and `\\` both separate.
pub open spec fn is_windows_sep(c: char) -> bool {
    c == '/' || c == '\\'
}

/// Index of the first Windows separator of `q`, or `q.len()`.
pub open spec fn first_windows_sep(q: Seq<char>) -> nat
    decreases q.len(),
{
    if q.len() == 0 || is_windows_sep(q[0]) {
        0
    } else {
        1 + first_windows_sep(q.drop_first())
    }
}

/// `\\server\share` after its two leading separators: a server name, a
/// separator and a share name, neither empty.
pub open spec fn unc_parts(q: Seq<char>) -> bool {
    let i = first_windows_sep(q) as int;
    i > 0 && i + 1 < q.len() && !is_windows_sep(q[i + 1])
}

/// `Path::is_absolute` on Windows: a prefix and a root, as in `C:\\Games`
/// (a drive letter, a colon and a separator) or `\\server\share`; `C:Games`
/// and `\\Games` are not absolute.
pub open spec fn windows_absolute(p: Seq<char>) -> bool {
    ||| (p.len() >= 3 && (('a' <= p[0] && p[0] <= 'z') || ('A' <= p[0] && p[0] <= 'Z'))
        && p[1] == ':' && is_windows_sep(p[2]))
    ||| (p.len() >= 2 && is_windows_sep(p[0]) && is_windows_sep(p[1]) && unc_parts(p.skip(2)))
}

/// `Path::is_absolute` on the target: Windows' rule there, a leading `/`
/// elsewhere.
pub open spec fn absolute_on(p: Seq<char>, windows: bool) -> bool {
    if windows {
        windows_absolute(p)
    } else {
        is_absolute(p)
    }
}

fn is_windows_sep_exec(c: char) -> (r: bool)
    ensures
        r == is_windows_sep(c),
{
    c == '/' || c == '\\'
}

proof fn lemma_first_windows_sep(q: Seq<char>, k: int)
    requires
        0 <= k <= q.len(),
        forall|j: int| 0 <= j < k ==> !is_windows_sep(#[trigger] q[j]),
        k == q.len() || is_windows_sep(q[k]),
    ensures
        first_windows_sep(q) == k,
    decreases k,
{
    if k > 0 {
        let t = q.drop_first();
        assert forall|j: int| 0 <= j < k - 1 implies !is_windows_sep(#[trigger] t[j]) by {
            assert(t[j] == q[j + 1]);
        }
        if k - 1 < t.len() {
            assert(t[k - 1] == q[k]);
        }
        lemma_first_windows_sep(t, k - 1);
    }
}

/// Whether `p` is absolute on the target (`windows` when it is Windows).
pub fn is_absolute_on(p: &str, windows: bool) -> (r: bool)
    ensures
        r == absolute_on(p@, windows),
{
    let c = to_chars(p);
    if !windows {
        return c.len() > 0 && c[0] == '/';
    }
    let n = c.len();
    if n >= 3 && (('a' <= c[0] && c[0] <= 'z') || ('A' <= c[0] && c[0] <= 'Z')) && c[1] == ':'
        && is_windows_sep_exec(c[2]) {
        return true;
    }
    if n < 2 || !is_windows_sep_exec(c[0]) || !is_windows_sep_exec(c[1]) {
        return false;
    }
    let ghost q = c@.skip(2);
    let mut i: usize = 2;
    while i < n && !is_windows_sep_exec(c[i])
        invariant
            2 <= i <= n == c@.len(),
            q == c@.skip(2),
            forall|j: int| 2 <= j < i ==> !is_windows_sep(#[trigger] c@[j]),
        decreases n - i,
    {
        i += 1;
    }
    proof {
        assert forall|j: int| 0 <= j < i - 2 implies !is_windows_sep(#[trigger] q[j]) by {
            assert(q[j] == c@[j + 2]);
        }
        if i < n {
            assert(q[i - 2] == c@[i as int]);
        }
        lemma_first_windows_sep(q, i - 2);
        if i + 1 < n {
            assert(q[i - 1] == c@[i + 1]);
        }
    }
    i > 2 && i < n - 1 && !is_windows_sep_exec(c[i + 1])
}

} // verus!
