//! Unix path arithmetic over strings.
//!
//! Paths are strings with `/` as the separator. The operations follow
//! `std::path::Path` on the paths this tool handles (absolute, without `.` or
//! doubled separators in their middle): joining replaces on an absolute right-hand
//! side, trailing separators are ignored when taking a parent or a file name, and a
//! prefix test respects component boundaries.

use vstd::prelude::*;
use crate::text::{chars_match_at, chars_of, copy_str, is_prefix, last_char_index, push_char, string_of};

verus! {

/// The path separator as a one-character sequence.
pub open spec fn slash() -> Seq<char> {
    seq!['/']
}

/// A path that starts at the root.
pub open spec fn is_abs(p: Seq<char>) -> bool {
    p.len() > 0 && p[0] == '/'
}

/// `PathBuf::push` / `Path::join`: an absolute `b` replaces `a`; otherwise `b` is
/// appended after a separator, unless `a` is empty or already ends in one.
pub open spec fn path_join(a: Seq<char>, b: Seq<char>) -> Seq<char> {
    if is_abs(b) {
        b
    } else if a.len() == 0 || a.last() == '/' {
        a + b
    } else {
        a + slash() + b
    }
}

/// `p` without trailing separators, keeping a lone root `/`.
pub open spec fn trim_slashes_end(p: Seq<char>) -> Seq<char>
    decreases p.len(),
{
    if p.len() > 1 && p.last() == '/' {
        trim_slashes_end(p.drop_last())
    } else {
        p
    }
}

/// `p` without leading separators.
pub open spec fn skip_slashes(p: Seq<char>) -> Seq<char>
    decreases p.len(),
{
    if p.len() > 0 && p[0] == '/' {
        skip_slashes(p.skip(1))
    } else {
        p
    }
}

/// `Path::parent`: the path without its last component; `None` for the root and
/// for the empty path.
pub open spec fn parent(p: Seq<char>) -> Option<Seq<char>> {
    let t = trim_slashes_end(p);
    if t.len() == 0 || t == slash() {
        None
    } else {
        match last_char_index(t, '/') {
            None => Some(Seq::empty()),
            Some(i) => if i == 0 {
                Some(slash())
            } else {
                Some(trim_slashes_end(t.take(i)))
            },
        }
    }
}

/// `Path::file_name`: the last component, unless it is `.` or `..` or absent.
pub open spec fn file_name(p: Seq<char>) -> Option<Seq<char>> {
    let t = trim_slashes_end(p);
    let name = match last_char_index(t, '/') {
        Some(i) => t.skip(i + 1),
        None => t,
    };
    if name.len() == 0 || name == seq!['.'] || name == seq!['.', '.'] {
        None
    } else {
        Some(name)
    }
}

/// `Path::starts_with`: `base` is a component-wise prefix of `p`.
pub open spec fn path_starts_with(p: Seq<char>, base: Seq<char>) -> bool {
    let b = trim_slashes_end(base);
    if b.len() == 0 {
        true
    } else if b == slash() {
        is_abs(p)
    } else {
        is_prefix(b, p) && (p.len() == b.len() || p[b.len() as int] == '/')
    }
}

/// `Path::strip_prefix("/")`: the path relative to the root, for an absolute path.
pub open spec fn strip_root(p: Seq<char>) -> Option<Seq<char>> {
    if is_abs(p) {
        Some(skip_slashes(p))
    } else {
        None
    }
}

proof fn lemma_trim_slashes_end(p: Seq<char>)
    ensures
        trim_slashes_end(p).len() <= p.len(),
        p.len() > 0 ==> trim_slashes_end(p).len() > 0,
        trim_slashes_end(p) == p.take(trim_slashes_end(p).len() as int),
        p.len() > 0 && p[0] == '/' ==> trim_slashes_end(p)[0] == '/',
        trim_slashes_end(p).len() > 1 ==> trim_slashes_end(p).last() != '/',
    decreases p.len(),
{
    if p.len() > 1 && p.last() == '/' {
        lemma_trim_slashes_end(p.drop_last());
        let t = trim_slashes_end(p.drop_last());
        assert(p.drop_last().take(t.len() as int) =~= p.take(t.len() as int));
    } else {
        assert(p.take(p.len() as int) =~= p);
    }
}

pub proof fn lemma_skip_slashes(p: Seq<char>, k: int)
    requires
        0 <= k <= p.len(),
        forall|j: int| 0 <= j < k ==> p[j] == '/',
        k == p.len() || p[k] != '/',
    ensures
        skip_slashes(p) == p.skip(k),
    decreases k,
{
    if k > 0 {
        assert forall|j: int| 0 <= j < k - 1 implies p.skip(1)[j] == '/' by {}
        lemma_skip_slashes(p.skip(1), k - 1);
        assert(p.skip(1).skip(k - 1) =~= p.skip(k));
    } else {
        assert(p.skip(0) =~= p);
    }
}

/// The length of `p` once trailing separators are trimmed.
pub fn trimmed_len(v: &Vec<char>) -> (n: usize)
    ensures
        n == trim_slashes_end(v@).len(),
        n <= v.len(),
        trim_slashes_end(v@) == v@.take(n as int),
{
    let mut n = v.len();
    assert(v@.take(n as int) =~= v@);
    while n > 1 && v[n - 1] == '/'
        invariant
            n <= v.len(),
            trim_slashes_end(v@) == trim_slashes_end(v@.take(n as int)),
        decreases n,
    {
        proof {
            assert(v@.take(n as int).drop_last() =~= v@.take(n - 1));
        }
        n -= 1;
    }
    proof {
        assert(trim_slashes_end(v@.take(n as int)) == v@.take(n as int));
    }
    n
}

/// Joins `b` onto `a` as `Path::join` does.
pub fn join_path(a: &str, b: &str) -> (r: String)
    ensures
        r@ == path_join(a@, b@),
{
    let bv = chars_of(b);
    if bv.len() > 0 && bv[0] == '/' {
        return copy_str(b);
    }
    let av = chars_of(a);
    let mut r = copy_str(a);
    if !(av.len() == 0 || av[av.len() - 1] == '/') {
        push_char(&mut r, '/');
    }
    r.append(b);
    proof {
        if !(av@.len() == 0 || av@.last() == '/') {
            assert(r@ =~= a@ + slash() + b@);
        }
    }
    r
}

/// The parent directory of `p`, as `Path::parent` gives it.
pub fn parent_of(p: &str) -> (r: Option<String>)
    ensures
        match r {
            Some(s) => parent(p@) == Some(s@),
            None => parent(p@) is None,
        },
{
    let v = chars_of(p);
    let n = trimmed_len(&v);
    let ghost t = trim_slashes_end(p@);
    if n == 0 || (n == 1 && v[0] == '/') {
        proof {
            if n == 1 {
                assert(t =~= slash());
            }
        }
        return None;
    }
    proof {
        if t == slash() {
            assert(t[0] == v@[0]);
        }
    }
    let mut i = n;
    while i > 0 && v[i - 1] != '/'
        invariant
            i <= n <= v.len(),
            t == v@.take(n as int),
            forall|j: int| i <= j < n ==> v@[j] != '/',
        decreases i,
    {
        i -= 1;
    }
    proof {
        reveal_with_fuel(last_char_index, 2);
        lemma_last_of(t, i as int);
    }
    if i == 0 {
        let r = String::new();
        return Some(r);
    }
    if i == 1 {
        let mut r = String::new();
        push_char(&mut r, '/');
        assert(r@ =~= slash());
        return Some(r);
    }
    let head = string_of(&v, 0, i - 1);
    let hv = chars_of(head.as_str());
    let m = trimmed_len(&hv);
    proof {
        assert(t.take(i - 1) =~= v@.subrange(0, i - 1));
    }
    Some(string_of(&hv, 0, m))
}

proof fn lemma_last_of(t: Seq<char>, i: int)
    requires
        0 <= i <= t.len(),
        forall|j: int| i <= j < t.len() ==> t[j] != '/',
        i == 0 || t[i - 1] == '/',
    ensures
        i == 0 ==> last_char_index(t, '/') is None,
        i > 0 ==> last_char_index(t, '/') == Some(i - 1),
    decreases t.len() - i,
{
    if t.len() > i {
        lemma_last_of(t.drop_last(), i);
    }
}

/// The last component of `p`, as `Path::file_name` gives it.
pub fn file_name_of(p: &str) -> (r: Option<String>)
    ensures
        match r {
            Some(s) => file_name(p@) == Some(s@),
            None => file_name(p@) is None,
        },
{
    let v = chars_of(p);
    let n = trimmed_len(&v);
    let ghost t = trim_slashes_end(p@);
    let mut i = n;
    while i > 0 && v[i - 1] != '/'
        invariant
            i <= n <= v.len(),
            t == v@.take(n as int),
            forall|j: int| i <= j < n ==> v@[j] != '/',
        decreases i,
    {
        i -= 1;
    }
    proof {
        lemma_last_of(t, i as int);
    }
    let name = string_of(&v, i, n);
    proof {
        if i > 0 {
            assert(t.skip(i as int) =~= v@.subrange(i as int, n as int));
        } else {
            assert(t =~= v@.subrange(0, n as int));
        }
    }
    let nv = chars_of(name.as_str());
    if nv.len() == 0 || (nv.len() == 1 && nv[0] == '.') || (nv.len() == 2 && nv[0] == '.' && nv[1]
        == '.') {
        proof {
            if nv.len() == 1 {
                assert(name@ =~= seq!['.']);
            }
            if nv.len() == 2 {
                assert(name@ =~= seq!['.', '.']);
            }
        }
        None
    } else {
        proof {
            if name@ == seq!['.'] {
                assert(nv@.len() == 1);
            }
            if name@ == seq!['.', '.'] {
                assert(nv@.len() == 2);
            }
        }
        Some(name)
    }
}

/// Is `base` a component-wise prefix of `p`?
pub fn starts_with_path(p: &str, base: &str) -> (b: bool)
    ensures
        b == path_starts_with(p@, base@),
{
    let bv = chars_of(base);
    let n = trimmed_len(&bv);
    let pv = chars_of(p);
    let ghost bt = trim_slashes_end(base@);
    if n == 0 {
        return true;
    }
    if n == 1 && bv[0] == '/' {
        proof {
            assert(bt =~= slash());
        }
        return pv.len() > 0 && pv[0] == '/';
    }
    proof {
        if bt == slash() {
            assert(bt[0] == bv@[0]);
        }
    }
    let bs = string_of(&bv, 0, n);
    let bsv = chars_of(bs.as_str());
    let m = chars_match_at(&pv, &bsv, 0);
    proof {
        assert(bsv@ =~= bt);
        if bt.len() <= p@.len() {
            assert(p@.subrange(0, bt.len() as int) =~= p@.take(bt.len() as int));
        }
    }
    m && (pv.len() == n || pv[n] == '/')
}

/// `p` relative to the root, when `p` is absolute.
pub fn strip_root_of(p: &str) -> (r: Option<String>)
    ensures
        match r {
            Some(s) => strip_root(p@) == Some(s@),
            None => strip_root(p@) is None,
        },
{
    let v = chars_of(p);
    if v.len() == 0 || v[0] != '/' {
        return None;
    }
    let mut k: usize = 0;
    while k < v.len() && v[k] == '/'
        invariant
            k <= v.len(),
            forall|j: int| 0 <= j < k ==> v@[j] == '/',
        decreases v.len() - k,
    {
        k += 1;
    }
    proof {
        lemma_skip_slashes(p@, k as int);
        assert(p@.skip(k as int) =~= v@.subrange(k as int, v@.len() as int));
    }
    Some(string_of(&v, k, v.len()))
}

/// Is `p` absolute?
pub fn is_absolute(p: &str) -> (b: bool)
    ensures
        b == is_abs(p@),
{
    let v = chars_of(p);
    v.len() > 0 && v[0] == '/'
}

} // verus!
