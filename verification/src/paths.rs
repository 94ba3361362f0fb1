//! File system paths as text, with the meaning that `std::path` gives them on
//! Unix: `/` separates components, and a path is absolute when it starts
//! with `/`.

use vstd::prelude::*;
use crate::hex::chars_of;

verus! {

/// Whether a path is absolute (`Path::is_absolute` on Unix).
pub open spec fn is_absolute_spec(p: Seq<char>) -> bool {
    p.len() > 0 && p[0] == '/'
}

/// `a.join(b)`: an absolute `b` replaces `a`; otherwise `b` is appended,
/// after a `/` unless `a` is empty or already ends with one.
pub open spec fn join_spec(a: Seq<char>, b: Seq<char>) -> Seq<char> {
    if is_absolute_spec(b) {
        b
    } else if a.len() > 0 && a.last() != '/' {
        a + seq!['/'] + b
    } else {
        a + b
    }
}

/// Whether `s` starts with a separator or with a `.` component.
pub open spec fn front_trimmable(s: Seq<char>) -> bool {
    s.len() > 0 && (s[0] == '/' || (s[0] == '.' && (s.len() == 1 || s[1] == '/')))
}

/// Whether `s` ends with a separator or with a `.` component.
pub open spec fn back_trimmable(s: Seq<char>) -> bool {
    s.len() > 0 && (s.last() == '/' || (s.last() == '.' && (s.len() == 1 || s[s.len()
        - 2] == '/')))
}

/// `s` without its leading separators and `.` components.
pub open spec fn trim_front(s: Seq<char>) -> Seq<char>
    decreases s.len(),
{
    if front_trimmable(s) {
        trim_front(s.drop_first())
    } else {
        s
    }
}

/// `s` without its trailing separators and `.` components.
pub open spec fn trim_back(s: Seq<char>) -> Seq<char>
    decreases s.len(),
{
    if back_trimmable(s) {
        trim_back(s.drop_last())
    } else {
        s
    }
}

/// `p.strip_prefix("~")`: defined when the first component of `p` is `~`,
/// and then the rest of the path without the separators and `.` components
/// at either end.
pub open spec fn strip_tilde(p: Seq<char>) -> Option<Seq<char>> {
    if p.len() > 0 && p[0] == '~' && (p.len() == 1 || p[1] == '/') {
        Some(trim_back(trim_front(p.drop_first())))
    } else {
        None
    }
}

/// A path with a leading `~` component replaced by the home directory.
pub open spec fn expand_tilde_spec(p: Seq<char>, home: Seq<char>) -> Seq<char> {
    match strip_tilde(p) {
        Some(rest) => join_spec(home, rest),
        None => p,
    }
}

/// The text of an optional path.
pub open spec fn opt_view(o: Option<String>) -> Option<Seq<char>> {
    match o {
        Some(s) => Some(s@),
        None => None,
    }
}

/// A copy of an optional text.
pub(crate) fn copy_opt(o: &Option<String>) -> (r: Option<String>)
    ensures
        opt_view(r) == opt_view(*o),
{
    match o {
        Some(s) => Some(s.clone()),
        None => None,
    }
}

/// The user's home directory, as `dirs::home_dir` finds it.
///
/// What it returns depends on the environment the program runs in; the path
/// is written as text with `to_string_lossy`. On Unix `dirs` gives no empty
/// path (an empty `HOME` or passwd entry counts as none), and that is all
/// that is stated of it.
#[verifier::external_body]
pub(crate) fn home_dir() -> (r: Option<String>)
    ensures
        r matches Some(h) ==> h@.len() > 0,
{
    match dirs::home_dir() {
        Some(p) => Some(p.to_string_lossy().into_owned()),
        None => None,
    }
}

/// The user's configuration directory, as `dirs::config_dir` finds it.
///
/// What it returns depends on the environment the program runs in; the path
/// is written as text with `to_string_lossy`. Nothing is stated of it.
#[verifier::external_body]
pub(crate) fn config_dir() -> (r: Option<String>) {
    match dirs::config_dir() {
        Some(p) => Some(p.to_string_lossy().into_owned()),
        None => None,
    }
}

/// The user's cache directory, as `dirs::cache_dir` finds it.
///
/// What it returns depends on the environment the program runs in; the path
/// is written as text with `to_string_lossy`. Nothing is stated of it.
#[verifier::external_body]
pub(crate) fn cache_dir() -> (r: Option<String>) {
    match dirs::cache_dir() {
        Some(p) => Some(p.to_string_lossy().into_owned()),
        None => None,
    }
}

/// Whether the path is absolute.
pub fn is_absolute(p: &str) -> (r: bool)
    ensures
        r == is_absolute_spec(p@),
{
    let v = chars_of(p);
    v.len() > 0 && v[0] == '/'
}

/// Joins two paths as `Path::join` does on Unix.
pub fn join(a: &str, b: &str) -> (r: String)
    ensures
        r@ == join_spec(a@, b@),
{
    if is_absolute(b) {
        return String::from_str(b);
    }
    let va = chars_of(a);
    let mut r = String::from_str(a);
    if va.len() > 0 && va[va.len() - 1] != '/' {
        r.append("/");
        proof {
            reveal_strlit("/");
        }
    }
    r.append(b);
    r
}

fn front_trim_index(v: &Vec<char>, start: usize) -> (i: usize)
    requires
        start <= v@.len(),
    ensures
        start <= i <= v@.len(),
        trim_front(v@.subrange(start as int, v@.len() as int)) == v@.subrange(
            i as int,
            v@.len() as int,
        ),
{
    let n = v.len();
    let mut i = start;
    while i < n && (v[i] == '/' || (v[i] == '.' && (i + 1 == n || v[i + 1] == '/')))
        invariant
            start <= i <= n,
            n == v@.len(),
            trim_front(v@.subrange(start as int, n as int)) == trim_front(
                v@.subrange(i as int, n as int),
            ),
        decreases n - i,
    {
        proof {
            let s = v@.subrange(i as int, n as int);
            assert(front_trimmable(s));
            assert(s.drop_first() =~= v@.subrange(i + 1, n as int));
        }
        i = i + 1;
    }
    proof {
        let s = v@.subrange(i as int, n as int);
        assert(!front_trimmable(s));
    }
    i
}

fn back_trim_index(v: &Vec<char>, lo: usize) -> (j: usize)
    requires
        lo <= v@.len(),
    ensures
        lo <= j <= v@.len(),
        trim_back(v@.subrange(lo as int, v@.len() as int)) == v@.subrange(lo as int, j as int),
{
    let n = v.len();
    let mut j = n;
    while j > lo && (v[j - 1] == '/' || (v[j - 1] == '.' && (j - 1 == lo || v[j - 2] == '/')))
        invariant
            lo <= j <= n,
            n == v@.len(),
            trim_back(v@.subrange(lo as int, n as int)) == trim_back(
                v@.subrange(lo as int, j as int),
            ),
        decreases j - lo,
    {
        proof {
            let s = v@.subrange(lo as int, j as int);
            assert(s.last() == v@[j - 1]);
            if j - 1 > lo {
                assert(s[s.len() - 2] == v@[j - 2]);
            }
            assert(back_trimmable(s));
            assert(s.drop_last() =~= v@.subrange(lo as int, j - 1));
        }
        j = j - 1;
    }
    proof {
        let s = v@.subrange(lo as int, j as int);
        if s.len() > 0 {
            assert(s.last() == v@[j - 1]);
            if s.len() > 1 {
                assert(s[s.len() - 2] == v@[j - 2]);
            }
        }
        assert(!back_trimmable(s));
    }
    j
}

/// `p.strip_prefix("~")` as text: `Some` of the rest when the first
/// component of `p` is `~`.
pub fn strip_tilde_prefix(p: &str) -> (r: Option<String>)
    ensures
        opt_view(r) == strip_tilde(p@),
{
    let v = chars_of(p);
    let n = v.len();
    if n > 0 && v[0] == '~' && (n == 1 || v[1] == '/') {
        let lo = front_trim_index(&v, 1);
        let hi = back_trim_index(&v, lo);
        proof {
            assert(p@.drop_first() =~= v@.subrange(1, n as int));
            assert(v@.subrange(lo as int, n as int).subrange(0, hi - lo) =~= v@.subrange(
                lo as int,
                hi as int,
            ));
        }
        let rest = p.substring_char(lo, hi);
        Some(String::from_str(rest))
    } else {
        None
    }
}

/// Replaces a leading `~` component of `path` by `home_dir`; any other path
/// is left as it is.
pub fn expand_tilde(path: &mut String, home_dir: &str)
    ensures
        final(path)@ == expand_tilde_spec(old(path)@, home_dir@),
{
    match strip_tilde_prefix(path.as_str()) {
        Some(rest) => {
            *path = join(home_dir, rest.as_str());
        },
        None => {},
    }
}

} // verus!
