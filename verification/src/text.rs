//! Character-level string helpers with exact specifications.
//!
//! Every operation is specified over `Seq<char>`, the view of `str` and `String`.
//! The executable versions work on a vector of characters and are proved to agree
//! with the specification.

use vstd::prelude::*;

verus! {

// ---------------------------------------------------------------------------
// Specifications
// ---------------------------------------------------------------------------

/// `p` is a prefix of `s`.
pub open spec fn is_prefix(p: Seq<char>, s: Seq<char>) -> bool {
    p.len() <= s.len() && s.take(p.len() as int) == p
}

/// `p` is a suffix of `s`.
pub open spec fn is_suffix(p: Seq<char>, s: Seq<char>) -> bool {
    p.len() <= s.len() && s.skip(s.len() - p.len()) == p
}

/// `n` occurs in `s` starting at index `i`.
pub open spec fn occurs_at(s: Seq<char>, n: Seq<char>, i: int) -> bool {
    0 <= i && i + n.len() <= s.len() && s.subrange(i, i + n.len() as int) == n
}

/// `n` occurs somewhere in `s`.
pub open spec fn contains_seq(s: Seq<char>, n: Seq<char>) -> bool {
    exists|i: int| occurs_at(s, n, i)
}

/// The first index at or after `i` where `n` occurs in `s`.
pub open spec fn find_from(s: Seq<char>, n: Seq<char>, i: int) -> Option<int>
    decreases s.len() - i,
{
    if i < 0 || i + n.len() > s.len() {
        None
    } else if s.subrange(i, i + n.len() as int) == n {
        Some(i)
    } else if n.len() == 0 {
        None
    } else {
        find_from(s, n, i + 1)
    }
}

/// The first index where `n` occurs in `s`, as `str::find` returns it.
pub open spec fn find_seq(s: Seq<char>, n: Seq<char>) -> Option<int> {
    find_from(s, n, 0)
}

/// Every non-overlapping occurrence of `from` replaced by `to`, scanning left to
/// right, as `str::replace` does (for a non-empty pattern).
pub open spec fn replace_all(s: Seq<char>, from: Seq<char>, to: Seq<char>) -> Seq<char>
    decreases s.len(),
{
    if from.len() == 0 || s.len() < from.len() {
        s
    } else if s.take(from.len() as int) == from {
        to + replace_all(s.skip(from.len() as int), from, to)
    } else {
        seq![s[0]] + replace_all(s.skip(1), from, to)
    }
}

/// The index of the first occurrence of `c` in `s`.
pub open spec fn first_char_index(s: Seq<char>, c: char) -> Option<int>
    decreases s.len(),
{
    if s.len() == 0 {
        None
    } else if s[0] == c {
        Some(0)
    } else {
        match first_char_index(s.skip(1), c) {
            Some(i) => Some(i + 1),
            None => None,
        }
    }
}

/// The index of the last occurrence of `c` in `s`.
pub open spec fn last_char_index(s: Seq<char>, c: char) -> Option<int>
    decreases s.len(),
{
    if s.len() == 0 {
        None
    } else if s.last() == c {
        Some(s.len() - 1)
    } else {
        last_char_index(s.drop_last(), c)
    }
}

/// `str::split_once(c)`: the parts before and after the first `c`.
pub open spec fn split_once(s: Seq<char>, c: char) -> Option<(Seq<char>, Seq<char>)> {
    match first_char_index(s, c) {
        Some(i) => Some((s.take(i), s.skip(i + 1))),
        None => None,
    }
}

/// `str::rsplit_once(c)`: the parts before and after the last `c`.
pub open spec fn rsplit_once(s: Seq<char>, c: char) -> Option<(Seq<char>, Seq<char>)> {
    match last_char_index(s, c) {
        Some(i) => Some((s.take(i), s.skip(i + 1))),
        None => None,
    }
}

/// The characters with the Unicode `White_Space` property, which `str::trim` removes.
pub open spec fn is_whitespace(c: char) -> bool {
    let u = c as u32;
    ||| 0x09 <= u <= 0x0d
    ||| u == 0x20
    ||| u == 0x85
    ||| u == 0xa0
    ||| u == 0x1680
    ||| 0x2000 <= u <= 0x200a
    ||| u == 0x2028
    ||| u == 0x2029
    ||| u == 0x202f
    ||| u == 0x205f
    ||| u == 0x3000
}

/// `s` without leading whitespace.
pub open spec fn trim_start(s: Seq<char>) -> Seq<char>
    decreases s.len(),
{
    if s.len() > 0 && is_whitespace(s[0]) {
        trim_start(s.skip(1))
    } else {
        s
    }
}

/// `s` without trailing whitespace.
pub open spec fn trim_end(s: Seq<char>) -> Seq<char>
    decreases s.len(),
{
    if s.len() > 0 && is_whitespace(s.last()) {
        trim_end(s.drop_last())
    } else {
        s
    }
}

/// `str::trim`: `s` without leading or trailing whitespace.
pub open spec fn trim(s: Seq<char>) -> Seq<char> {
    trim_end(trim_start(s))
}

/// An ASCII upper-case letter.
pub open spec fn is_ascii_upper(c: char) -> bool {
    'A' <= c <= 'Z'
}

/// `char::to_ascii_lowercase`.
pub open spec fn ascii_lower(c: char) -> char {
    if is_ascii_upper(c) {
        ((c as u32) + 32) as char
    } else {
        c
    }
}

/// `str::to_ascii_lowercase`.
pub open spec fn ascii_lowercase(s: Seq<char>) -> Seq<char> {
    Seq::new(s.len(), |i: int| ascii_lower(s[i]))
}

/// An ASCII decimal digit.
pub open spec fn is_digit(c: char) -> bool {
    '0' <= c <= '9'
}

/// The value of an ASCII decimal digit.
pub open spec fn digit_value(c: char) -> nat {
    ((c as u32) - ('0' as u32)) as nat
}

/// The ASCII decimal digit for `d < 10`.
pub open spec fn digit_char(d: nat) -> char {
    ((d + ('0' as u32)) as u32) as char
}

/// The decimal rendering of `n`, as `Display` prints an unsigned integer.
pub open spec fn decimal(n: nat) -> Seq<char>
    decreases n,
{
    if n < 10 {
        seq![digit_char(n)]
    } else {
        decimal(n / 10).push(digit_char(n % 10))
    }
}

/// `n` spaces.
pub open spec fn spaces(n: nat) -> Seq<char> {
    Seq::new(n, |i: int| ' ')
}

/// `s` right-aligned in a field of `width` characters, as `{:>width}` prints it.
pub open spec fn pad_left(s: Seq<char>, width: nat) -> Seq<char> {
    if s.len() < width {
        spaces((width - s.len()) as nat) + s
    } else {
        s
    }
}

/// `s` left-aligned in a field of `width` characters, as `{:width}` prints a string.
pub open spec fn pad_right(s: Seq<char>, width: nat) -> Seq<char> {
    if s.len() < width {
        s + spaces((width - s.len()) as nat)
    } else {
        s
    }
}

/// The items of `list` joined by `sep`, as `[String]::join` does.
pub open spec fn join(list: Seq<Seq<char>>, sep: Seq<char>) -> Seq<char>
    decreases list.len(),
{
    if list.len() == 0 {
        Seq::empty()
    } else if list.len() == 1 {
        list[0]
    } else {
        join(list.drop_last(), sep) + sep + list.last()
    }
}

/// The views of a sequence of strings.
pub open spec fn views(v: Seq<String>) -> Seq<Seq<char>> {
    Seq::new(v.len(), |i: int| v[i]@)
}

// ---------------------------------------------------------------------------
// Lemmas
// ---------------------------------------------------------------------------

/// The views of `v` with `x` pushed are those of `v` with the view of `x` pushed.
pub proof fn lemma_views_push(v: Seq<String>, x: String)
    ensures
        views(v.push(x)) == views(v).push(x@),
{
    assert(views(v.push(x)) =~= views(v).push(x@));
}

/// The views of a prefix are the prefix of the views.
pub proof fn lemma_views_take(v: Seq<String>, n: int)
    requires
        0 <= n <= v.len(),
    ensures
        views(v.take(n)) == views(v).take(n),
{
    assert(views(v.take(n)) =~= views(v).take(n));
}

/// The views of a concatenation.
pub proof fn lemma_views_add(v: Seq<String>, w: Seq<String>)
    ensures
        views(v + w) == views(v) + views(w),
{
    assert(views(v + w) =~= views(v) + views(w));
}

proof fn lemma_find_from_found(s: Seq<char>, n: Seq<char>, i: int, k: int)
    requires
        0 <= i <= k,
        occurs_at(s, n, k),
        forall|j: int| i <= j < k ==> !occurs_at(s, n, j),
    ensures
        find_from(s, n, i) == Some(k),
    decreases k - i,
{
    if i < k {
        assert(!occurs_at(s, n, i));
        if n.len() == 0 {
            assert(s.subrange(i, i) =~= n);
        }
        lemma_find_from_found(s, n, i + 1, k);
    }
}

proof fn lemma_find_from_none(s: Seq<char>, n: Seq<char>, i: int)
    requires
        0 <= i,
        forall|j: int| i <= j ==> !occurs_at(s, n, j),
    ensures
        find_from(s, n, i) is None,
    decreases s.len() - i,
{
    if i + n.len() > s.len() {
    } else {
        assert(!occurs_at(s, n, i));
        if n.len() == 0 {
            assert(s.subrange(i, i) =~= n);
        }
        lemma_find_from_none(s, n, i + 1);
    }
}

/// `find_seq` names the leftmost occurrence.
pub proof fn lemma_find_seq(s: Seq<char>, n: Seq<char>)
    ensures
        match find_seq(s, n) {
            Some(i) => occurs_at(s, n, i) && forall|j: int| 0 <= j < i ==> !occurs_at(s, n, j),
            None => !contains_seq(s, n),
        },
{
    if contains_seq(s, n) {
        let k = choose|k: int| occurs_at(s, n, k);
        let m = least_occurrence(s, n, k);
        lemma_find_from_found(s, n, 0, m);
    } else {
        lemma_find_from_none(s, n, 0);
    }
}

proof fn least_occurrence(s: Seq<char>, n: Seq<char>, k: int) -> (m: int)
    requires
        occurs_at(s, n, k),
    ensures
        occurs_at(s, n, m),
        0 <= m <= k,
        forall|j: int| 0 <= j < m ==> !occurs_at(s, n, j),
    decreases k,
{
    if exists|j: int| 0 <= j < k && occurs_at(s, n, j) {
        let j = choose|j: int| 0 <= j < k && occurs_at(s, n, j);
        least_occurrence(s, n, j)
    } else {
        k
    }
}

/// The index `first_char_index` gives is that of the first `c` in `s`.
pub proof fn lemma_first_char_index(s: Seq<char>, c: char)
    ensures
        match first_char_index(s, c) {
            Some(i) => 0 <= i < s.len() && s[i] == c && forall|j: int| 0 <= j < i ==> s[j] != c,
            None => forall|j: int| 0 <= j < s.len() ==> s[j] != c,
        },
    decreases s.len(),
{
    if s.len() > 0 && s[0] != c {
        lemma_first_char_index(s.skip(1), c);
        assert forall|j: int| 1 <= j < s.len() implies s[j] == s.skip(1)[j - 1] by {}
    }
}

proof fn lemma_first_char_index_unique(s: Seq<char>, c: char, i: int)
    requires
        0 <= i < s.len(),
        s[i] == c,
        forall|j: int| 0 <= j < i ==> s[j] != c,
    ensures
        first_char_index(s, c) == Some(i),
{
    lemma_first_char_index(s, c);
}

proof fn lemma_first_char_index_none(s: Seq<char>, c: char)
    requires
        forall|j: int| 0 <= j < s.len() ==> s[j] != c,
    ensures
        first_char_index(s, c) is None,
{
    lemma_first_char_index(s, c);
}

proof fn lemma_last_char_index(s: Seq<char>, c: char)
    ensures
        match last_char_index(s, c) {
            Some(i) => 0 <= i < s.len() && s[i] == c && forall|j: int| i < j < s.len() ==> s[j] != c,
            None => forall|j: int| 0 <= j < s.len() ==> s[j] != c,
        },
    decreases s.len(),
{
    if s.len() > 0 && s.last() != c {
        lemma_last_char_index(s.drop_last(), c);
        assert forall|j: int| 0 <= j < s.len() - 1 implies s[j] == s.drop_last()[j] by {}
    }
}

proof fn lemma_trim_start(s: Seq<char>, k: int)
    requires
        0 <= k <= s.len(),
        forall|j: int| 0 <= j < k ==> is_whitespace(s[j]),
        k == s.len() || !is_whitespace(s[k]),
    ensures
        trim_start(s) == s.skip(k),
    decreases k,
{
    if k > 0 {
        assert forall|j: int| 0 <= j < k - 1 implies is_whitespace(s.skip(1)[j]) by {}
        lemma_trim_start(s.skip(1), k - 1);
        assert(s.skip(1).skip(k - 1) =~= s.skip(k));
    } else {
        assert(s.skip(0) =~= s);
    }
}

proof fn lemma_trim_end(s: Seq<char>, k: int)
    requires
        0 <= k <= s.len(),
        forall|j: int| k <= j < s.len() ==> is_whitespace(s[j]),
        k == 0 || !is_whitespace(s[k - 1]),
    ensures
        trim_end(s) == s.take(k),
    decreases s.len() - k,
{
    if k < s.len() {
        lemma_trim_end(s.drop_last(), k);
        assert(s.drop_last().take(k) =~= s.take(k));
    } else {
        assert(s.take(k) =~= s);
    }
}

// ---------------------------------------------------------------------------
// Executable helpers
// ---------------------------------------------------------------------------

/// Appends one character to a string.
///
/// Trusted: calls `String::push`, which std documents as appending the character
/// to the end of the string.
#[verifier::external_body]
pub fn push_char(s: &mut String, c: char)
    ensures
        final(s)@ == old(s)@.push(c),
{
    s.push(c);
}

/// The characters of `s`, in order.
pub fn chars_of(s: &str) -> (v: Vec<char>)
    ensures
        v@ == s@,
{
    let mut v: Vec<char> = Vec::new();
    for c in it: s.chars()
        invariant
            v@ == it.seq().take(it.index() as int),
            it.seq() == s@,
    {
        v.push(c);
    }
    v
}

/// The string made of `v[lo..hi]`.
pub fn string_of(v: &Vec<char>, lo: usize, hi: usize) -> (s: String)
    requires
        lo <= hi <= v.len(),
    ensures
        s@ == v@.subrange(lo as int, hi as int),
{
    let mut s = String::new();
    let mut i = lo;
    while i < hi
        invariant
            lo <= i <= hi <= v.len(),
            s@ == v@.subrange(lo as int, i as int),
        decreases hi - i,
    {
        push_char(&mut s, v[i]);
        i += 1;
        assert(s@ =~= v@.subrange(lo as int, i as int));
    }
    s
}

/// A copy of `s`.
pub fn copy_str(s: &str) -> (r: String)
    ensures
        r@ == s@,
{
    let v = chars_of(s);
    let r = string_of(&v, 0, v.len());
    assert(v@.subrange(0, v@.len() as int) =~= v@);
    r
}

/// `a` followed by `b`.
pub fn concat(a: &str, b: &str) -> (r: String)
    ensures
        r@ == a@ + b@,
{
    let mut r = copy_str(a);
    r.append(b);
    r
}

/// Does `v[at..]` start with `p`?
pub fn chars_match_at(v: &Vec<char>, p: &Vec<char>, at: usize) -> (b: bool)
    ensures
        b == (at + p.len() <= v.len() && v@.subrange(at as int, at + p.len()) == p@),
{
    if p.len() > v.len() || at > v.len() - p.len() {
        return false;
    }
    let mut k: usize = 0;
    while k < p.len()
        invariant
            at + p.len() <= v.len(),
            k <= p.len(),
            forall|j: int| 0 <= j < k ==> v@[at + j] == p@[j],
        decreases p.len() - k,
    {
        if v[at + k] != p[k] {
            assert(v@.subrange(at as int, at + p.len())[k as int] != p@[k as int]);
            return false;
        }
        k += 1;
    }
    assert(v@.subrange(at as int, at + p.len()) =~= p@);
    true
}

/// Are `a` and `b` the same string?
pub fn str_eq(a: &str, b: &str) -> (r: bool)
    ensures
        r == (a@ == b@),
{
    let v = chars_of(a);
    let w = chars_of(b);
    if v.len() != w.len() {
        return false;
    }
    let r = chars_match_at(&v, &w, 0);
    proof {
        assert(v@.subrange(0, w@.len() as int) =~= v@);
    }
    r
}

/// Does `s` start with `p`?
pub fn starts_with(s: &str, p: &str) -> (b: bool)
    ensures
        b == is_prefix(p@, s@),
{
    let v = chars_of(s);
    let w = chars_of(p);
    let b = chars_match_at(&v, &w, 0);
    proof {
        if w@.len() <= v@.len() {
            assert(v@.subrange(0, w@.len() as int) =~= v@.take(w@.len() as int));
        }
    }
    b
}

/// Does `s` end with `p`?
pub fn ends_with(s: &str, p: &str) -> (b: bool)
    ensures
        b == is_suffix(p@, s@),
{
    let v = chars_of(s);
    let w = chars_of(p);
    if w.len() > v.len() {
        return false;
    }
    let b = chars_match_at(&v, &w, v.len() - w.len());
    proof {
        assert(v@.subrange(v@.len() - w@.len(), v@.len() as int) =~= v@.skip(v@.len() - w@.len()));
    }
    b
}

/// The first index where `n` occurs in `s`.
pub fn find(s: &str, n: &str) -> (r: Option<usize>)
    ensures
        match r {
            Some(i) => find_seq(s@, n@) == Some(i as int),
            None => find_seq(s@, n@) is None,
        },
{
    let v = chars_of(s);
    let w = chars_of(n);
    if w.len() > v.len() {
        proof {
            assert forall|j: int| 0 <= j implies !occurs_at(s@, n@, j) by {}
            lemma_find_from_none(s@, n@, 0);
        }
        return None;
    }
    if w.len() == 0 {
        proof {
            assert(s@.subrange(0, 0) =~= n@);
            lemma_find_from_found(s@, n@, 0, 0);
        }
        return Some(0);
    }
    let mut i: usize = 0;
    while i <= v.len() - w.len()
        invariant
            v@ == s@,
            w@ == n@,
            0 < w.len() <= v.len(),
            i <= v.len() - w.len() + 1,
            forall|j: int| 0 <= j < i ==> !occurs_at(s@, n@, j),
        decreases v.len() - w.len() + 1 - i,
    {
        if chars_match_at(&v, &w, i) {
            proof {
                lemma_find_from_found(s@, n@, 0, i as int);
            }
            return Some(i);
        }
        i += 1;
    }
    proof {
        assert forall|j: int| 0 <= j implies !occurs_at(s@, n@, j) by {}
        lemma_find_from_none(s@, n@, 0);
    }
    None
}

/// Does `n` occur in `s`?
pub fn contains(s: &str, n: &str) -> (b: bool)
    ensures
        b == contains_seq(s@, n@),
{
    let r = find(s, n);
    proof {
        lemma_find_seq(s@, n@);
    }
    r.is_some()
}

/// The index of the first `c` in `s`.
pub fn find_char(s: &str, c: char) -> (r: Option<usize>)
    ensures
        match r {
            Some(i) => first_char_index(s@, c) == Some(i as int),
            None => first_char_index(s@, c) is None,
        },
{
    let v = chars_of(s);
    let mut i: usize = 0;
    while i < v.len()
        invariant
            v@ == s@,
            i <= v.len(),
            forall|j: int| 0 <= j < i ==> v@[j] != c,
        decreases v.len() - i,
    {
        if v[i] == c {
            proof {
                lemma_first_char_index_unique(s@, c, i as int);
            }
            return Some(i);
        }
        i += 1;
    }
    proof {
        lemma_first_char_index_none(s@, c);
    }
    None
}

/// Does `s` contain the character `c`?
pub fn contains_char(s: &str, c: char) -> (b: bool)
    ensures
        b == s@.contains(c),
{
    let r = find_char(s, c);
    proof {
        lemma_first_char_index(s@, c);
        if s@.contains(c) {
            let k = choose|k: int| 0 <= k < s@.len() && s@[k] == c;
        }
    }
    r.is_some()
}

/// The index of the last `c` in `s`.
pub fn rfind_char(s: &str, c: char) -> (r: Option<usize>)
    ensures
        match r {
            Some(i) => last_char_index(s@, c) == Some(i as int),
            None => last_char_index(s@, c) is None,
        },
{
    let v = chars_of(s);
    let mut i: usize = v.len();
    while i > 0
        invariant
            v@ == s@,
            i <= v.len(),
            forall|j: int| i <= j < v.len() ==> v@[j] != c,
        decreases i,
    {
        if v[i - 1] == c {
            proof {
                lemma_last_char_index(s@, c);
                let k = last_char_index(s@, c);
                if k is None {
                    assert(s@[i - 1] != c);
                }
            }
            return Some(i - 1);
        }
        i -= 1;
    }
    proof {
        lemma_last_char_index(s@, c);
    }
    None
}

/// `str::split_once(c)`.
pub fn split_once_char(s: &str, c: char) -> (r: Option<(String, String)>)
    ensures
        match r {
            Some((a, b)) => split_once(s@, c) == Some((a@, b@)),
            None => split_once(s@, c) is None,
        },
{
    match find_char(s, c) {
        Some(i) => {
            proof {
                lemma_first_char_index(s@, c);
            }
            let v = chars_of(s);
            let a = string_of(&v, 0, i);
            let b = string_of(&v, i + 1, v.len());
            assert(a@ =~= s@.take(i as int));
            assert(b@ =~= s@.skip(i + 1));
            Some((a, b))
        },
        None => None,
    }
}

/// `str::rsplit_once(c)`.
pub fn rsplit_once_char(s: &str, c: char) -> (r: Option<(String, String)>)
    ensures
        match r {
            Some((a, b)) => rsplit_once(s@, c) == Some((a@, b@)),
            None => rsplit_once(s@, c) is None,
        },
{
    match rfind_char(s, c) {
        Some(i) => {
            proof {
                lemma_last_char_index(s@, c);
            }
            let v = chars_of(s);
            let a = string_of(&v, 0, i);
            let b = string_of(&v, i + 1, v.len());
            assert(a@ =~= s@.take(i as int));
            assert(b@ =~= s@.skip(i + 1));
            Some((a, b))
        },
        None => None,
    }
}

/// Is `c` whitespace in the sense of `str::trim`?
pub fn char_is_whitespace(c: char) -> (b: bool)
    ensures
        b == is_whitespace(c),
{
    let u = c as u32;
    (0x09 <= u && u <= 0x0d) || u == 0x20 || u == 0x85 || u == 0xa0 || u == 0x1680 || (0x2000
        <= u && u <= 0x200a) || u == 0x2028 || u == 0x2029 || u == 0x202f || u == 0x205f || u
        == 0x3000
}

/// `str::trim`.
pub fn trim_str(s: &str) -> (r: String)
    ensures
        r@ == trim(s@),
{
    let v = chars_of(s);
    let mut lo: usize = 0;
    while lo < v.len() && char_is_whitespace(v[lo])
        invariant
            v@ == s@,
            lo <= v.len(),
            forall|j: int| 0 <= j < lo ==> is_whitespace(v@[j]),
        decreases v.len() - lo,
    {
        lo += 1;
    }
    proof {
        lemma_trim_start(s@, lo as int);
    }
    let mut hi: usize = v.len();
    while hi > lo && char_is_whitespace(v[hi - 1])
        invariant
            v@ == s@,
            lo <= hi <= v.len(),
            forall|j: int| hi <= j < v.len() ==> is_whitespace(v@[j]),
        decreases hi,
    {
        hi -= 1;
    }
    proof {
        let t = s@.skip(lo as int);
        assert forall|j: int| hi - lo <= j < t.len() implies is_whitespace(t[j]) by {}
        lemma_trim_end(t, hi - lo);
        assert(t.take(hi - lo) =~= v@.subrange(lo as int, hi as int));
    }
    string_of(&v, lo, hi)
}

/// `str::trim_end`.
pub fn trim_end_str(s: &str) -> (r: String)
    ensures
        r@ == trim_end(s@),
{
    let v = chars_of(s);
    let mut hi: usize = v.len();
    while hi > 0 && char_is_whitespace(v[hi - 1])
        invariant
            v@ == s@,
            hi <= v.len(),
            forall|j: int| hi <= j < v.len() ==> is_whitespace(v@[j]),
        decreases hi,
    {
        hi -= 1;
    }
    proof {
        lemma_trim_end(s@, hi as int);
        assert(s@.take(hi as int) =~= v@.subrange(0, hi as int));
    }
    string_of(&v, 0, hi)
}

/// `char::to_ascii_lowercase`.
pub fn lower_char(c: char) -> (r: char)
    ensures
        r == ascii_lower(c),
{
    if 'A' <= c && c <= 'Z' {
        let u = (c as u32) + 32;
        ((u as u8) as char)
    } else {
        c
    }
}

/// `str::to_ascii_lowercase`.
pub fn to_ascii_lowercase(s: &str) -> (r: String)
    ensures
        r@ == ascii_lowercase(s@),
{
    let v = chars_of(s);
    let mut r = String::new();
    let mut i: usize = 0;
    while i < v.len()
        invariant
            v@ == s@,
            i <= v.len(),
            r@ == ascii_lowercase(s@.take(i as int)),
        decreases v.len() - i,
    {
        push_char(&mut r, lower_char(v[i]));
        i += 1;
        assert(r@ =~= ascii_lowercase(s@.take(i as int)));
    }
    assert(s@.take(v.len() as int) =~= s@);
    r
}

/// Every occurrence of `from` in `s` replaced by `to`, as `str::replace` does.
pub fn replace(s: &str, from: &str, to: &str) -> (r: String)
    requires
        from@.len() > 0,
    ensures
        r@ == replace_all(s@, from@, to@),
{
    let v = chars_of(s);
    let w = chars_of(from);
    let mut r = String::new();
    let mut i: usize = 0;
    assert(s@.skip(0) =~= s@);
    assert(r@ + replace_all(s@, from@, to@) =~= replace_all(s@, from@, to@));
    while i < v.len()
        invariant
            v@ == s@,
            w@ == from@,
            w.len() > 0,
            i <= v.len(),
            r@ + replace_all(s@.skip(i as int), from@, to@) == replace_all(s@, from@, to@),
        decreases v.len() - i,
    {
        let ghost rest = s@.skip(i as int);
        if chars_match_at(&v, &w, i) {
            proof {
                assert(rest.take(w@.len() as int) =~= v@.subrange(i as int, i + w@.len()));
                assert(rest.skip(w@.len() as int) =~= s@.skip(i + w@.len()));
            }
            r.append(to);
            i += w.len();
            assert(r@ + replace_all(s@.skip(i as int), from@, to@) =~= replace_all(s@, from@, to@));
        } else {
            proof {
                if rest.len() >= w@.len() {
                    assert(rest.take(w@.len() as int) =~= v@.subrange(i as int, i + w@.len()));
                }
                assert(rest.skip(1) =~= s@.skip(i + 1));
                assert(rest[0] == v@[i as int]);
            }
            push_char(&mut r, v[i]);
            i += 1;
            assert(r@ + replace_all(s@.skip(i as int), from@, to@) =~= replace_all(s@, from@, to@));
        }
    }
    assert(s@.skip(i as int) =~= Seq::<char>::empty());
    assert(r@ + Seq::<char>::empty() =~= r@);
    r
}

/// The decimal rendering of `n`.
pub fn decimal_string(n: u64) -> (r: String)
    ensures
        r@ == decimal(n as nat),
    decreases n,
{
    if n < 10 {
        let mut r = String::new();
        let c = (((n as u32) + 0x30) as u8) as char;
        push_char(&mut r, c);
        assert(r@ =~= decimal(n as nat));
        r
    } else {
        let mut r = decimal_string(n / 10);
        let d = (n % 10) as u32;
        let c = ((d + 0x30) as u8) as char;
        push_char(&mut r, c);
        r
    }
}

/// `s` right-aligned in a field of `width` characters.
pub fn pad_left_str(s: &str, width: usize) -> (r: String)
    ensures
        r@ == pad_left(s@, width as nat),
{
    let n = s.unicode_len();
    let mut r = String::new();
    if n < width {
        let mut k: usize = 0;
        while k < width - n
            invariant
                n < width,
                k <= width - n,
                r@ == spaces(k as nat),
            decreases width - n - k,
        {
            push_char(&mut r, ' ');
            k += 1;
            assert(r@ =~= spaces(k as nat));
        }
    }
    r.append(s);
    proof {
        if n >= width {
            assert(r@ =~= s@);
        }
    }
    r
}

/// `s` left-aligned in a field of `width` characters.
pub fn pad_right_str(s: &str, width: usize) -> (r: String)
    ensures
        r@ == pad_right(s@, width as nat),
{
    let n = s.unicode_len();
    let mut r = copy_str(s);
    if n < width {
        let mut k: usize = 0;
        while k < width - n
            invariant
                n == s@.len(),
                n < width,
                k <= width - n,
                r@ == s@ + spaces(k as nat),
            decreases width - n - k,
        {
            push_char(&mut r, ' ');
            k += 1;
            assert(r@ =~= s@ + spaces(k as nat));
        }
    }
    r
}

/// The strings of `list` joined by `sep`.
pub fn join_strings(list: &Vec<String>, sep: &str) -> (r: String)
    ensures
        r@ == join(views(list@), sep@),
{
    let mut r = String::new();
    let ghost vs = views(list@);
    let mut i: usize = 0;
    while i < list.len()
        invariant
            vs == views(list@),
            i <= list.len(),
            r@ == join(vs.take(i as int), sep@),
        decreases list.len() - i,
    {
        if i > 0 {
            r.append(sep);
        }
        r.append(list[i].as_str());
        proof {
            let t = vs.take(i + 1);
            assert(t.drop_last() =~= vs.take(i as int));
            assert(t.last() == list@[i as int]@);
            if i == 0 {
                assert(vs.take(0) =~= Seq::<Seq<char>>::empty());
                assert(r@ =~= list@[0]@);
            }
        }
        i += 1;
    }
    assert(vs.take(list.len() as int) =~= vs);
    r
}

// ---------------------------------------------------------------------------
// Ordering
// ---------------------------------------------------------------------------

/// The sort key of a character: its code point, or, when `slash_low` holds, the
/// lowest key of all for `/` (which orders normalized paths component by
/// component, as `Path` does).
pub open spec fn char_key(c: char, slash_low: bool) -> int {
    if slash_low && c == '/' {
        0
    } else {
        (c as u32) as int + 1
    }
}

/// Lexicographic order on character sequences under [`char_key`]. With
/// `slash_low` false this is the order of `String` (code point order, which is
/// also the byte order of UTF-8).
pub open spec fn lex_less(a: Seq<char>, b: Seq<char>, slash_low: bool) -> bool
    decreases a.len(),
{
    if b.len() == 0 {
        false
    } else if a.len() == 0 {
        true
    } else if char_key(a[0], slash_low) < char_key(b[0], slash_low) {
        true
    } else if char_key(a[0], slash_low) > char_key(b[0], slash_low) {
        false
    } else {
        lex_less(a.skip(1), b.skip(1), slash_low)
    }
}

/// `v` is strictly increasing under [`lex_less`].
pub open spec fn sorted_strict(v: Seq<Seq<char>>, slash_low: bool) -> bool {
    forall|i: int, j: int| 0 <= i < j < v.len() ==> lex_less(v[i], v[j], slash_low)
}

proof fn lemma_key_injective(c: char, d: char, slash_low: bool)
    ensures
        char_key(c, slash_low) == char_key(d, slash_low) ==> c == d,
{
    if char_key(c, slash_low) == char_key(d, slash_low) {
        if slash_low && c == '/' {
        } else if slash_low && d == '/' {
        } else {
            assert(c as u32 == d as u32);
        }
    }
}

/// [`lex_less`] is a strict total order.
pub proof fn lemma_lex_total(a: Seq<char>, b: Seq<char>, slash_low: bool)
    ensures
        !lex_less(a, a, slash_low),
        a != b ==> (lex_less(a, b, slash_low) || lex_less(b, a, slash_low)),
        !(lex_less(a, b, slash_low) && lex_less(b, a, slash_low)),
    decreases a.len(),
{
    if a.len() > 0 && b.len() > 0 {
        lemma_key_injective(a[0], b[0], slash_low);
        lemma_lex_total(a.skip(1), b.skip(1), slash_low);
        lemma_lex_total(a.skip(1), a.skip(1), slash_low);
        if a[0] == b[0] && a.skip(1) == b.skip(1) {
            assert forall|k: int| 0 <= k < a.len() implies a[k] == b[k] by {
                if k > 0 {
                    assert(a[k] == a.skip(1)[k - 1]);
                    assert(b[k] == b.skip(1)[k - 1]);
                }
            }
            assert(a =~= b);
        }
    } else if a.len() > 0 {
        lemma_lex_total(a.skip(1), a.skip(1), slash_low);
    } else if b.len() > 0 {
    } else {
        assert(a =~= b);
    }
}

/// [`lex_less`] is transitive.
pub proof fn lemma_lex_trans(a: Seq<char>, b: Seq<char>, c: Seq<char>, slash_low: bool)
    requires
        lex_less(a, b, slash_low),
        lex_less(b, c, slash_low),
    ensures
        lex_less(a, c, slash_low),
    decreases a.len(),
{
    if a.len() > 0 && b.len() > 0 && c.len() > 0 {
        if char_key(a[0], slash_low) == char_key(b[0], slash_low) && char_key(b[0], slash_low)
            == char_key(c[0], slash_low) {
            lemma_lex_trans(a.skip(1), b.skip(1), c.skip(1), slash_low);
        }
    }
}

/// Two strictly sorted sequences that hold the same items are equal.
pub proof fn lemma_sorted_same_items(a: Seq<Seq<char>>, b: Seq<Seq<char>>, slash_low: bool)
    requires
        sorted_strict(a, slash_low),
        sorted_strict(b, slash_low),
        forall|x: Seq<char>| a.contains(x) <==> b.contains(x),
    ensures
        a == b,
    decreases a.len(),
{
    if a.len() == 0 {
        if b.len() > 0 {
            assert(b.contains(b[0]));
        }
        assert(a =~= b);
    } else {
        assert(a.contains(a[0]));
        assert(b.contains(a[0]));
        assert(b.len() > 0);
        assert(b.contains(b[0]));
        assert(a.contains(b[0]));
        if a[0] != b[0] {
            let k = choose|k: int| 0 <= k < b.len() && b[k] == a[0];
            let i = choose|i: int| 0 <= i < a.len() && a[i] == b[0];
            assert(lex_less(b[0], b[k], slash_low));
            assert(lex_less(a[0], a[i], slash_low));
            lemma_lex_total(a[0], b[0], slash_low);
        }
        let a1 = a.skip(1);
        let b1 = b.skip(1);
        lemma_lex_total(a[0], a[0], slash_low);
        assert forall|x: Seq<char>| a1.contains(x) <==> b1.contains(x) by {
            if a1.contains(x) {
                let p = choose|p: int| 0 <= p < a1.len() && a1[p] == x;
                assert(a[p + 1] == x);
                assert(lex_less(a[0], x, slash_low));
                assert(a.contains(x));
                let q = choose|q: int| 0 <= q < b.len() && b[q] == x;
                assert(q != 0);
                assert(b1[q - 1] == x);
            }
            if b1.contains(x) {
                let p = choose|p: int| 0 <= p < b1.len() && b1[p] == x;
                assert(b[p + 1] == x);
                assert(lex_less(b[0], x, slash_low));
                assert(b.contains(x));
                let q = choose|q: int| 0 <= q < a.len() && a[q] == x;
                assert(q != 0);
                assert(a1[q - 1] == x);
            }
        }
        assert forall|i: int, j: int| 0 <= i < j < a1.len() implies lex_less(a1[i], a1[j], slash_low) by {
            assert(a1[i] == a[i + 1] && a1[j] == a[j + 1]);
        }
        assert forall|i: int, j: int| 0 <= i < j < b1.len() implies lex_less(b1[i], b1[j], slash_low) by {
            assert(b1[i] == b[i + 1] && b1[j] == b[j + 1]);
        }
        lemma_sorted_same_items(a1, b1, slash_low);
        assert(a =~= seq![a[0]] + a1);
        assert(b =~= seq![b[0]] + b1);
    }
}

/// Is `a` before `b` under [`lex_less`]?
pub fn less_than(a: &str, b: &str, slash_low: bool) -> (r: bool)
    ensures
        r == lex_less(a@, b@, slash_low),
{
    let v = chars_of(a);
    let w = chars_of(b);
    let mut i: usize = 0;
    assert(a@.skip(0) =~= a@);
    assert(b@.skip(0) =~= b@);
    while i < v.len() && i < w.len()
        invariant
            i <= v.len(),
            i <= w.len(),
            v@ == a@,
            w@ == b@,
            lex_less(a@, b@, slash_low) == lex_less(a@.skip(i as int), b@.skip(i as int), slash_low),
        decreases v.len() - i,
    {
        let ka: u64 = if slash_low && v[i] == '/' { 0 } else { (v[i] as u32) as u64 + 1 };
        let kb: u64 = if slash_low && w[i] == '/' { 0 } else { (w[i] as u32) as u64 + 1 };
        proof {
            assert(a@.skip(i as int)[0] == v@[i as int]);
            assert(b@.skip(i as int)[0] == w@[i as int]);
            assert(a@.skip(i as int).skip(1) =~= a@.skip(i + 1));
            assert(b@.skip(i as int).skip(1) =~= b@.skip(i + 1));
            assert(ka as int == char_key(v@[i as int], slash_low));
            assert(kb as int == char_key(w@[i as int], slash_low));
        }
        if ka < kb {
            return true;
        }
        if ka > kb {
            return false;
        }
        i += 1;
    }
    proof {
        if i == w.len() {
            assert(b@.skip(i as int).len() == 0);
        } else {
            assert(a@.skip(i as int).len() == 0);
        }
    }
    i < w.len()
}

/// The strings of `items` as a set, listed once each in increasing order.
pub fn sorted_set(items: &Vec<String>, slash_low: bool) -> (r: Vec<String>)
    ensures
        sorted_strict(views(r@), slash_low),
        views(r@).to_set() == views(items@).to_set(),
{
    let mut r: Vec<String> = Vec::new();
    let mut i: usize = 0;
    while i < items.len()
        invariant
            i <= items.len(),
            sorted_strict(views(r@), slash_low),
            views(r@).to_set() == views(items@.take(i as int)).to_set(),
        decreases items.len() - i,
    {
        let x = &items[i];
        let mut j: usize = 0;
        while j < r.len() && less_than(r[j].as_str(), x.as_str(), slash_low)
            invariant
                j <= r.len(),
                forall|k: int| 0 <= k < j ==> lex_less(r@[k]@, x@, slash_low),
            decreases r.len() - j,
        {
            j += 1;
        }
        let ghost before = views(r@);
        proof {
            lemma_views_take(items@, i + 1);
            assert(items@.take(i + 1) =~= items@.take(i as int).push(*x));
            lemma_views_push(items@.take(i as int), *x);
            views(items@.take(i as int)).lemma_push_to_set_commute(x@);
        }
        if j < r.len() && crate::text::str_eq(r[j].as_str(), x.as_str()) {
            proof {
                assert(before[j as int] == x@);
                assert(views(items@.take(i + 1)).to_set() =~= views(items@.take(i as int)).to_set().insert(x@));
                assert(before.to_set().contains(x@));
                assert(before.to_set().insert(x@) =~= before.to_set());
            }
        } else {
            proof {
                if j < r.len() {
                    lemma_lex_total(r@[j as int]@, x@, slash_low);
                }
            }
            r.insert(j, x.clone());
            proof {
                let after = views(r@);
                assert(after =~= before.insert(j as int, x@));
                assert forall|a: int, b: int| 0 <= a < b < after.len() implies lex_less(after[a], after[b], slash_low) by {
                    if b < j {
                    } else if b == j {
                    } else if a == j {
                        // x < before[j] <= before[b - 1]
                        if b - 1 > j {
                            lemma_lex_trans(x@, before[j as int], before[b - 1], slash_low);
                        }
                    } else if a < j {
                        // before[a] < x < before[b - 1]
                        if b - 1 >= j {
                            lemma_lex_total(before[j as int], x@, slash_low);
                            if b - 1 > j {
                                lemma_lex_trans(x@, before[j as int], before[b - 1], slash_low);
                            }
                            lemma_lex_trans(before[a], x@, before[b - 1], slash_low);
                        }
                    } else {
                    }
                }
                assert(after.to_set() =~= before.to_set().insert(x@)) by {
                    assert forall|y: Seq<char>| after.to_set().contains(y) implies before.to_set().insert(x@).contains(y) by {
                        let k = choose|k: int| 0 <= k < after.len() && after[k] == y;
                        if k < j {
                            assert(before[k] == y);
                        } else if k > j {
                            assert(before[k - 1] == y);
                        }
                    }
                    assert forall|y: Seq<char>| before.to_set().insert(x@).contains(y) implies after.to_set().contains(y) by {
                        if y == x@ {
                            assert(after[j as int] == y);
                        } else {
                            let k = choose|k: int| 0 <= k < before.len() && before[k] == y;
                            if k < j {
                                assert(after[k] == y);
                            } else {
                                assert(after[k + 1] == y);
                            }
                        }
                    }
                }
                assert(views(items@.take(i + 1)).to_set() =~= views(items@.take(i as int)).to_set().insert(x@));
            }
        }
        i += 1;
    }
    assert(items@.take(items.len() as int) =~= items@);
    r
}

} // verus!
