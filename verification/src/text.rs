//! Character-level text utilities shared by the configuration helpers.
//!
//! Text is handled as sequences of `char`; the specifications below describe
//! the behaviour of the corresponding `str` operations of the standard library.

use vstd::prelude::*;
use vstd::string::{StrSliceExecFns, StringExecFns};

verus! {

/// Unicode `White_Space`, the set that `char::is_whitespace` and `str::trim` use.
pub open spec fn is_ws(c: char) -> bool {
    let u = c as u32;
    ||| u == 0x20
    ||| 0x09 <= u <= 0x0d
    ||| u == 0x85
    ||| u == 0xa0
    ||| u == 0x1680
    ||| 0x2000 <= u <= 0x200a
    ||| u == 0x2028
    ||| u == 0x2029
    ||| u == 0x202f
    ||| u == 0x205f
    ||| u == 0x3000
}

/// `s` without its leading whitespace (`str::trim_start`).
pub open spec fn trim_start(s: Seq<char>) -> Seq<char>
    decreases s.len(),
{
    if s.len() > 0 && is_ws(s[0]) {
        trim_start(s.drop_first())
    } else {
        s
    }
}

/// `s` without its trailing whitespace (`str::trim_end`).
pub open spec fn trim_end(s: Seq<char>) -> Seq<char>
    decreases s.len(),
{
    if s.len() > 0 && is_ws(s.last()) {
        trim_end(s.drop_last())
    } else {
        s
    }
}

/// `s` without leading and trailing whitespace (`str::trim`).
pub open spec fn trim(s: Seq<char>) -> Seq<char> {
    trim_end(trim_start(s))
}

/// Whether `c` is whitespace.
pub fn is_whitespace(c: char) -> (r: bool)
    ensures
        r == is_ws(c),
{
    let u = c as u32;
    u == 0x20 || (0x09 <= u && u <= 0x0d) || u == 0x85 || u == 0xa0 || u == 0x1680 || (0x2000
        <= u && u <= 0x200a) || u == 0x2028 || u == 0x2029 || u == 0x202f || u == 0x205f || u
        == 0x3000
}

/// Index of the first `'\n'` in `s`, or `s.len()` when there is none: the end of
/// the first line of `s`.
pub open spec fn line_end(s: Seq<char>) -> nat
    decreases s.len(),
{
    if s.len() == 0 {
        0
    } else if s[0] == '\n' {
        0
    } else {
        1 + line_end(s.drop_first())
    }
}

pub proof fn lemma_line_end_bound(s: Seq<char>)
    ensures
        line_end(s) <= s.len(),
        line_end(s) < s.len() ==> s[line_end(s) as int] == '\n',
        forall|i: int| 0 <= i < line_end(s) ==> s[i] != '\n',
    decreases s.len(),
{
    if s.len() > 0 && s[0] != '\n' {
        lemma_line_end_bound(s.drop_first());
        assert forall|i: int| 0 <= i < line_end(s) implies s[i] != '\n' by {
            if i > 0 {
                assert(s[i] == s.drop_first()[i - 1]);
            }
        }
    }
}

/// The position of the first `'\n'` at or after `pos` in `s`, or `s.len()`.
pub fn find_line_end(s: &[char], pos: usize) -> (k: usize)
    requires
        pos <= s@.len(),
    ensures
        k == pos + line_end(s@.skip(pos as int)),
        pos <= k <= s@.len(),
{
    let n: usize = s.len();
    let mut i: usize = pos;
    while i < n && s[i] != '\n'
        invariant
            pos <= i <= n,
            n == s@.len(),
            line_end(s@.skip(pos as int)) == (i - pos) + line_end(s@.skip(i as int)),
        decreases n - i,
    {
        assert(s@.skip(i as int).drop_first() =~= s@.skip(i + 1));
        i = i + 1;
    }
    i
}

/// The bounds of `trim(s[lo..hi])` inside `s`.
pub fn trim_bounds(s: &[char], lo: usize, hi: usize) -> (r: (usize, usize))
    requires
        lo <= hi <= s@.len(),
    ensures
        lo <= r.0 <= r.1 <= hi,
        s@.subrange(r.0 as int, r.1 as int) == trim(s@.subrange(lo as int, hi as int)),
{
    let mut i: usize = lo;
    while i < hi && is_whitespace(s[i])
        invariant
            lo <= i <= hi,
            hi <= s@.len(),
            trim_start(s@.subrange(lo as int, hi as int)) == trim_start(
                s@.subrange(i as int, hi as int),
            ),
        decreases hi - i,
    {
        assert(s@.subrange(i as int, hi as int).drop_first() =~= s@.subrange(i + 1, hi as int));
        i = i + 1;
    }
    let mut j: usize = hi;
    while j > i && is_whitespace(s[j - 1])
        invariant
            i <= j <= hi,
            hi <= s@.len(),
            trim_end(s@.subrange(i as int, hi as int)) == trim_end(
                s@.subrange(i as int, j as int),
            ),
        decreases j - i,
    {
        assert(s@.subrange(i as int, j as int).drop_last() =~= s@.subrange(i as int, j - 1));
        j = j - 1;
    }
    (i, j)
}

/// Whether `s[a..b]` equals `t`.
pub fn range_eq(s: &[char], a: usize, b: usize, t: &[char]) -> (r: bool)
    requires
        a <= b <= s@.len(),
    ensures
        r == (s@.subrange(a as int, b as int) == t@),
{
    if b - a != t.len() {
        return false;
    }
    let mut i: usize = 0;
    while i < t.len()
        invariant
            a <= b <= s@.len(),
            b - a == t@.len(),
            0 <= i <= t@.len(),
            forall|k: int| 0 <= k < i ==> s@[a + k] == t@[k],
        decreases t@.len() - i,
    {
        if s[a + i] != t[i] {
            assert(s@.subrange(a as int, b as int)[i as int] != t@[i as int]);
            return false;
        }
        i = i + 1;
    }
    assert(s@.subrange(a as int, b as int) =~= t@);
    true
}

/// Whether `s[a..b]` starts with `p`.
pub fn range_starts_with(s: &[char], a: usize, b: usize, p: &[char]) -> (r: bool)
    requires
        a <= b <= s@.len(),
    ensures
        r == (p@.len() <= b - a && s@.subrange(a as int, b as int).take(p@.len() as int) == p@),
{
    if p.len() > b - a {
        return false;
    }
    let r = range_eq(s, a, a + p.len(), p);
    assert(s@.subrange(a as int, b as int).take(p@.len() as int) =~= s@.subrange(
        a as int,
        a + p@.len(),
    ));
    r
}

/// The characters of `s`, in order.
pub fn chars_of(s: &str) -> (r: Vec<char>)
    ensures
        r@ == s@,
{
    let mut v: Vec<char> = Vec::new();
    for c in it: s.chars()
        invariant
            v.len() == it.index(),
            forall|i: int| 0 <= i < v.len() ==> v@[i] == it.seq()[i],
    {
        v.push(c);
    }
    assert(v@ =~= s@);
    v
}

/// `s` with every occurrence of `from` replaced by `to`, occurrences taken
/// left to right without overlap (`str::replace` with a non-empty pattern).
pub open spec fn replace_spec(s: Seq<char>, from: Seq<char>, to: Seq<char>) -> Seq<char>
    recommends
        from.len() > 0,
    decreases s.len(),
{
    if from.len() == 0 || s.len() < from.len() {
        s
    } else if s.take(from.len() as int) == from {
        to + replace_spec(s.skip(from.len() as int), from, to)
    } else {
        seq![s[0]] + replace_spec(s.drop_first(), from, to)
    }
}

/// The index of the first occurrence of `p` in `s`.
pub open spec fn find_spec(s: Seq<char>, p: Seq<char>) -> Option<nat>
    decreases s.len(),
{
    if s.len() < p.len() {
        None
    } else if s.take(p.len() as int) == p {
        Some(0)
    } else if s.len() == 0 {
        None
    } else {
        match find_spec(s.drop_first(), p) {
            Some(i) => Some(i + 1),
            None => None,
        }
    }
}

/// Whether `p` occurs in `s` (`str::contains`).
pub open spec fn contains_spec(s: Seq<char>, p: Seq<char>) -> bool {
    find_spec(s, p) is Some
}

/// `s` with the first occurrence of `p` replaced by `to`
/// (`str::replacen` with a count of one).
pub open spec fn replace_first_spec(s: Seq<char>, p: Seq<char>, to: Seq<char>) -> Seq<char> {
    match find_spec(s, p) {
        Some(i) => s.take(i as int) + to + s.skip((i + p.len()) as int),
        None => s,
    }
}

proof fn lemma_skip_step(s: Seq<char>, i: int)
    requires
        0 <= i < s.len(),
    ensures
        s.skip(i).drop_first() == s.skip(i + 1),
        s.skip(i)[0] == s[i],
{
    assert(s.skip(i).drop_first() =~= s.skip(i + 1));
}

/// The characters `s[a..b]`, as a string.
pub fn substring(s: &str, a: usize, b: usize) -> (r: String)
    requires
        a <= b <= s@.len(),
    ensures
        r@ == s@.subrange(a as int, b as int),
{
    String::from_str(s.substring_char(a, b))
}

/// `s` with every occurrence of the non-empty `from` replaced by `to`.
pub fn replace_all(s: &str, from: &str, to: &str) -> (r: String)
    requires
        from@.len() > 0,
    ensures
        r@ == replace_spec(s@, from@, to@),
{
    let sc = chars_of(s);
    let fc = chars_of(from);
    let n: usize = sc.len();
    let m: usize = fc.len();
    let mut out = String::new();
    let mut last: usize = 0;
    let mut i: usize = 0;
    assert(s@.skip(0) =~= s@);
    assert(s@.subrange(0, 0) =~= Seq::<char>::empty());
    while i <= n && n - i >= m
        invariant
            sc@ == s@,
            fc@ == from@,
            n == s@.len(),
            m == from@.len(),
            m > 0,
            last <= i <= n,
            replace_spec(s@, from@, to@) == out@ + s@.subrange(last as int, i as int)
                + replace_spec(s@.skip(i as int), from@, to@),
        decreases n - i,
    {
        let ghost rest = s@.skip(i as int);
        assert(rest.take(m as int) =~= s@.subrange(i as int, i + m));
        if range_eq(sc.as_slice(), i, i + m, fc.as_slice()) {
            let piece = s.substring_char(last, i);
            out.append(piece);
            out.append(to);
            assert(rest.skip(m as int) =~= s@.skip(i + m));
            assert(s@.subrange((i + m) as int, (i + m) as int) =~= Seq::<char>::empty());
            i = i + m;
            last = i;
        } else {
            proof {
                lemma_skip_step(s@, i as int);
                assert(s@.subrange(last as int, i as int) + seq![s@[i as int]] =~= s@.subrange(
                    last as int,
                    i + 1,
                ));
            }
            i = i + 1;
        }
    }
    let tail = s.substring_char(last, n);
    out.append(tail);
    assert(s@.subrange(last as int, i as int) + s@.skip(i as int) =~= s@.subrange(
        last as int,
        n as int,
    ));
    out
}

/// The index of the first occurrence of `p` in `s`, searching from `from`.
fn find_from(s: &[char], p: &[char], from: usize) -> (r: Option<usize>)
    requires
        from <= s@.len(),
    ensures
        match find_spec(s@.skip(from as int), p@) {
            Some(k) => r == Some((from + k) as usize),
            None => r is None,
        },
{
    let n: usize = s.len();
    let m: usize = p.len();
    let mut i: usize = from;
    while i <= n && n - i >= m
        invariant
            from <= i <= n,
            n == s@.len(),
            m == p@.len(),
            find_spec(s@.skip(from as int), p@) == match find_spec(s@.skip(i as int), p@) {
                Some(k) => Some((k + (i - from)) as nat),
                None => None,
            },
        decreases n - i,
    {
        let ghost rest = s@.skip(i as int);
        assert(rest.take(m as int) =~= s@.subrange(i as int, i + m));
        if range_eq(s, i, i + m, p) {
            return Some(i);
        }
        if i == n {
            return None;
        }
        proof {
            lemma_skip_step(s@, i as int);
        }
        i = i + 1;
    }
    None
}

/// Whether `p` occurs in `s`.
pub fn contains(s: &str, p: &str) -> (r: bool)
    ensures
        r == contains_spec(s@, p@),
{
    let sc = chars_of(s);
    let pc = chars_of(p);
    assert(s@.skip(0) =~= s@);
    find_from(sc.as_slice(), pc.as_slice(), 0).is_some()
}

/// `s` with the first occurrence of `p` replaced by `to`.
pub fn replace_first(s: &str, p: &str, to: &str) -> (r: String)
    ensures
        r@ == replace_first_spec(s@, p@, to@),
{
    let sc = chars_of(s);
    let pc = chars_of(p);
    assert(s@.skip(0) =~= s@);
    match find_from(sc.as_slice(), pc.as_slice(), 0) {
        Some(i) => {
            proof {
                lemma_find_bound(s@, p@);
            }
            let mut out = substring(s, 0, i);
            out.append(to);
            let n: usize = sc.len();
            assert(i + p@.len() <= n);
            let tail = s.substring_char(i + pc.len(), n);
            out.append(tail);
            assert(s@.subrange(0, i as int) =~= s@.take(i as int));
            assert(s@.subrange(i + p@.len(), s@.len() as int) =~= s@.skip(i + p@.len()));
            out
        },
        None => String::from_str(s),
    }
}

proof fn lemma_find_bound(s: Seq<char>, p: Seq<char>)
    ensures
        find_spec(s, p) matches Some(i) ==> i + p.len() <= s.len() && s.subrange(
            i as int,
            (i + p.len()) as int,
        ) == p,
    decreases s.len(),
{
    if s.len() >= p.len() && s.take(p.len() as int) != p && s.len() > 0 {
        lemma_find_bound(s.drop_first(), p);
        if let Some(i) = find_spec(s.drop_first(), p) {
            assert(s.drop_first().subrange(i as int, (i + p.len()) as int) =~= s.subrange(
                (i + 1) as int,
                (i + 1 + p.len()) as int,
            ));
        }
    } else if s.len() >= p.len() && s.take(p.len() as int) == p {
        assert(s.subrange(0, p.len() as int) =~= s.take(p.len() as int));
    }
}

/// The start of `trim_start(s[lo..hi])` inside `s`.
pub fn trim_start_index(s: &[char], lo: usize, hi: usize) -> (r: usize)
    requires
        lo <= hi <= s@.len(),
    ensures
        lo <= r <= hi,
        s@.subrange(r as int, hi as int) == trim_start(s@.subrange(lo as int, hi as int)),
{
    let mut i: usize = lo;
    while i < hi && is_whitespace(s[i])
        invariant
            lo <= i <= hi,
            hi <= s@.len(),
            trim_start(s@.subrange(lo as int, hi as int)) == trim_start(
                s@.subrange(i as int, hi as int),
            ),
        decreases hi - i,
    {
        assert(s@.subrange(i as int, hi as int).drop_first() =~= s@.subrange(i + 1, hi as int));
        i = i + 1;
    }
    i
}

/// Whether `s` starts with `p`.
pub open spec fn starts_with_spec(s: Seq<char>, p: Seq<char>) -> bool {
    s.len() >= p.len() && s.take(p.len() as int) == p
}

/// Whether `s` ends with `p`.
pub open spec fn ends_with_spec(s: Seq<char>, p: Seq<char>) -> bool {
    s.len() >= p.len() && s.skip(s.len() - p.len()) == p
}

/// Whether `s` starts with `p`.
pub fn starts_with(s: &str, p: &str) -> (r: bool)
    ensures
        r == starts_with_spec(s@, p@),
{
    let sc = chars_of(s);
    let pc = chars_of(p);
    let r = range_starts_with(sc.as_slice(), 0, sc.len(), pc.as_slice());
    assert(sc@.subrange(0, sc@.len() as int) =~= s@);
    r
}

/// Whether `s` ends with `p`.
pub fn ends_with(s: &str, p: &str) -> (r: bool)
    ensures
        r == ends_with_spec(s@, p@),
{
    let sc = chars_of(s);
    let pc = chars_of(p);
    let n: usize = sc.len();
    let m: usize = pc.len();
    if m > n {
        return false;
    }
    let r = range_eq(sc.as_slice(), n - m, n, pc.as_slice());
    assert(sc@.subrange((n - m) as int, n as int) =~= s@.skip(s@.len() - p@.len()));
    r
}

/// The pieces of `s` between the occurrences of `sep` (`str::split` with a
/// `char`): one more piece than there are separators.
pub open spec fn split_spec(s: Seq<char>, sep: char) -> Seq<Seq<char>>
    decreases s.len(),
{
    match first_index_of(s, sep) {
        Some(i) => {
            proof {
                lemma_first_index_of(s, sep);
            }
            seq![s.take(i as int)] + split_spec(s.skip(i + 1int), sep)
        },
        None => seq![s],
    }
}

/// The index of the first `c` in `s`.
pub open spec fn first_index_of(s: Seq<char>, c: char) -> Option<nat>
    decreases s.len(),
{
    if s.len() == 0 {
        None
    } else if s[0] == c {
        Some(0)
    } else {
        match first_index_of(s.drop_first(), c) {
            Some(i) => Some(i + 1),
            None => None,
        }
    }
}

pub proof fn lemma_first_index_of(s: Seq<char>, c: char)
    ensures
        first_index_of(s, c) matches Some(i) ==> i < s.len() && s[i as int] == c && forall|
            k: int,
        | 0 <= k < i ==> s[k] != c,
        first_index_of(s, c) is None ==> forall|k: int| 0 <= k < s.len() ==> s[k] != c,
    decreases s.len(),
{
    if s.len() > 0 && s[0] != c {
        lemma_first_index_of(s.drop_first(), c);
        assert forall|k: int| 0 < k < s.len() implies s[k] == s.drop_first()[k - 1] by {}
    }
}

/// The pieces of `s` between the occurrences of `sep`.
pub fn split_char(s: &str, sep: char) -> (r: Vec<String>)
    ensures
        r@.len() == split_spec(s@, sep).len(),
        forall|i: int| 0 <= i < r@.len() ==> (#[trigger] r@[i])@ == split_spec(s@, sep)[i],
{
    let sc = chars_of(s);
    let n: usize = sc.len();
    let mut out: Vec<String> = Vec::new();
    let mut start: usize = 0;
    let mut i: usize = 0;
    assert(s@.skip(0) =~= s@);
    while i < n
        invariant
            start <= i <= n,
            n == s@.len(),
            sc@ == s@,
            forall|k: int| start <= k < i ==> s@[k] != sep,
            split_spec(s@, sep) == out@.map_values(|p: String| p@) + split_spec(
                s@.skip(start as int),
                sep,
            ),
        decreases n - i,
    {
        if sc[i] == sep {
            proof {
                let rest = s@.skip(start as int);
                lemma_first_index_of(rest, sep);
                assert(first_index_of(rest, sep) == Some((i - start) as nat)) by {
                    lemma_first_index_unique(rest, sep, (i - start) as nat);
                }
                assert(rest.take(i - start) =~= s@.subrange(start as int, i as int));
                assert(rest.skip(i - start + 1) =~= s@.skip(i + 1));
            }
            let piece = substring(s, start, i);
            let ghost before = out@;
            out.push(piece);
            assert(out@.map_values(|p: String| p@) =~= before.map_values(|p: String| p@).push(
                s@.subrange(start as int, i as int),
            ));
            start = i + 1;
        }
        i = i + 1;
    }
    proof {
        let rest = s@.skip(start as int);
        lemma_first_index_of(rest, sep);
        if let Some(j) = first_index_of(rest, sep) {
            assert(rest[j as int] == s@[start + j]);
        }
    }
    let piece = substring(s, start, n);
    let ghost before = out@;
    out.push(piece);
    assert(s@.skip(start as int) =~= s@.subrange(start as int, n as int));
    assert(out@.map_values(|p: String| p@) =~= before.map_values(|p: String| p@) + seq![
        s@.subrange(start as int, n as int),
    ]);
    out
}

proof fn lemma_first_index_unique(s: Seq<char>, c: char, i: nat)
    requires
        i < s.len(),
        s[i as int] == c,
        forall|k: int| 0 <= k < i ==> s[k] != c,
    ensures
        first_index_of(s, c) == Some(i),
    decreases i,
{
    if i > 0 {
        lemma_first_index_unique(s.drop_first(), c, (i - 1) as nat);
    }
}

/// A text made of `a`, then `p`, then `b`, contains `p`.
pub proof fn lemma_contains_middle(a: Seq<char>, p: Seq<char>, b: Seq<char>)
    ensures
        contains_spec(a + p + b, p),
    decreases a.len(),
{
    let s = a + p + b;
    if a.len() == 0 {
        assert(s.take(p.len() as int) =~= p);
    } else if s.take(p.len() as int) != p {
        lemma_contains_middle(a.drop_first(), p, b);
        assert(s.drop_first() =~= a.drop_first() + p + b);
    }
}


/// `p` occurs in `s` at index `i`.
pub open spec fn occurs_at(s: Seq<char>, p: Seq<char>, i: int) -> bool {
    0 <= i && i + p.len() <= s.len() && s.subrange(i, i + p.len()) == p
}

/// `a` from index `i + m` on agrees with `b` from index `m` on, wherever both
/// have a character.
pub open spec fn agrees_from(a: Seq<char>, i: int, b: Seq<char>, m: nat) -> bool
    decreases b.len() - m,
{
    if m >= b.len() || i + m >= a.len() {
        true
    } else {
        a[i + m] == b[m as int] && agrees_from(a, i, b, m + 1)
    }
}

/// No suffix of `a` that starts at `k` or later agrees with `b`.
pub open spec fn no_suffix_agrees(a: Seq<char>, b: Seq<char>, k: nat) -> bool
    decreases a.len() - k,
{
    if k >= a.len() {
        true
    } else {
        !agrees_from(a, k as int, b, 0) && no_suffix_agrees(a, b, k + 1)
    }
}

proof fn lemma_agrees_from_chars(a: Seq<char>, i: int, b: Seq<char>, m: nat)
    requires
        0 <= i,
        forall|k: int| m <= k < b.len() && i + k < a.len() ==> a[i + k] == b[k],
    ensures
        agrees_from(a, i, b, m),
    decreases b.len() - m,
{
    if m < b.len() && i + m < a.len() {
        lemma_agrees_from_chars(a, i, b, m + 1);
    }
}

proof fn lemma_no_suffix_agrees_at(a: Seq<char>, b: Seq<char>, k0: nat, k: int)
    requires
        no_suffix_agrees(a, b, k0),
        k0 <= k < a.len(),
    ensures
        !agrees_from(a, k, b, 0),
    decreases k - k0,
{
    if k > k0 {
        lemma_no_suffix_agrees_at(a, b, k0 + 1, k);
    }
}

/// Where `find_spec` finds `p`, `p` occurs.
pub proof fn lemma_find_occurs(s: Seq<char>, p: Seq<char>)
    ensures
        find_spec(s, p) matches Some(i) ==> occurs_at(s, p, i as int),
    decreases s.len(),
{
    if s.len() >= p.len() && s.take(p.len() as int) != p && s.len() > 0 {
        lemma_find_occurs(s.drop_first(), p);
        if let Some(i) = find_spec(s.drop_first(), p) {
            let j: int = i as int;
            assert(s.subrange(j + 1, j + 1 + p.len()) =~= s.drop_first().subrange(j, j + p.len()));
        }
    } else if s.len() >= p.len() && s.take(p.len() as int) == p {
        assert(s.subrange(0, p.len() as int) =~= s.take(p.len() as int));
    }
}

/// When `t` with `from` replaced by `to` starts with `p[j..]`, and no suffix
/// of `p` from `j` on agrees with `to`, then `t` itself starts with `p[j..]`.
proof fn lemma_replace_keeps_prefix(
    t: Seq<char>,
    from: Seq<char>,
    to: Seq<char>,
    p: Seq<char>,
    j: nat,
)
    requires
        from.len() > 0,
        j < p.len(),
        no_suffix_agrees(p, to, j),
        p.len() - j <= replace_spec(t, from, to).len(),
        replace_spec(t, from, to).take(p.len() - j) == p.skip(j as int),
    ensures
        p.len() - j <= t.len(),
        t.take(p.len() - j) == p.skip(j as int),
    decreases t.len(),
{
    let out = replace_spec(t, from, to);
    let n = p.len() - j;
    if t.len() < from.len() {
    } else if t.take(from.len() as int) == from {
        assert forall|k: int| 0 <= k < to.len() && j + k < p.len() implies p[j + k] == to[k] by {
            assert(out.take(n)[k] == out[k]);
            assert(p.skip(j as int)[k] == p[j + k]);
        }
        lemma_agrees_from_chars(p, j as int, to, 0);
    } else {
        let r = replace_spec(t.drop_first(), from, to);
        assert(out == seq![t[0]] + r);
        assert(out.take(n)[0] == out[0]);
        assert(p.skip(j as int)[0] == p[j as int]);
        if n > 1 {
            assert(r.take(n - 1) =~= out.take(n).drop_first());
            assert(p.skip(j as int).drop_first() =~= p.skip(j + 1int));
            assert(r.take(n - 1) =~= p.skip(j + 1int));
            lemma_replace_keeps_prefix(t.drop_first(), from, to, p, j + 1);
            assert(t.take(n) =~= seq![t[0]] + t.drop_first().take(n - 1));
            assert(t.take(n) =~= p.skip(j as int));
        } else {
            assert(t.take(n) =~= p.skip(j as int));
        }
    }
}

/// Replacing `from` by `to` in `t` leaves no occurrence of `p` when every
/// occurrence of `p` in `t` starts an occurrence of `from`, no suffix of `to`
/// agrees with `p`, and no proper suffix of `p` agrees with `to`.
pub proof fn lemma_replace_removes(t: Seq<char>, from: Seq<char>, to: Seq<char>, p: Seq<char>)
    requires
        from.len() > 0,
        p.len() > 0,
        no_suffix_agrees(to, p, 0),
        no_suffix_agrees(p, to, 1),
        forall|i: int|
            #![trigger occurs_at(t, p, i)]
            occurs_at(t, p, i) ==> from.len() <= t.len() - i && t.skip(i).take(from.len() as int)
                == from,
    ensures
        forall|i: int| !occurs_at(replace_spec(t, from, to), p, i),
    decreases t.len(),
{
    let out = replace_spec(t, from, to);
    if t.len() < from.len() {
    } else if t.take(from.len() as int) == from {
        let rest = t.skip(from.len() as int);
        assert forall|i: int| occurs_at(rest, p, i) implies from.len() <= rest.len() - i
            && rest.skip(i).take(from.len() as int) == from by {
            let j = i + from.len();
            assert(t.subrange(j, j + p.len()) =~= rest.subrange(i, i + p.len()));
            assert(occurs_at(t, p, j));
            assert(rest.skip(i) =~= t.skip(j));
        }
        lemma_replace_removes(rest, from, to, p);
        let r = replace_spec(rest, from, to);
        assert(out == to + r);
        assert forall|i: int| !occurs_at(out, p, i) by {
            if occurs_at(out, p, i) {
                if i >= to.len() {
                    assert(r.subrange(i - to.len(), i - to.len() + p.len()) =~= out.subrange(
                        i,
                        i + p.len(),
                    ));
                    assert(occurs_at(r, p, i - to.len()));
                } else {
                    assert forall|k: int| 0 <= k < p.len() && i + k < to.len() implies to[i + k]
                        == p[k] by {
                        assert(out.subrange(i, i + p.len())[k] == out[i + k]);
                    }
                    lemma_agrees_from_chars(to, i, p, 0);
                    lemma_no_suffix_agrees_at(to, p, 0, i);
                }
            }
        }
    } else {
        let rest = t.drop_first();
        assert forall|i: int| occurs_at(rest, p, i) implies from.len() <= rest.len() - i
            && rest.skip(i).take(from.len() as int) == from by {
            assert(t.subrange(i + 1, i + 1 + p.len()) =~= rest.subrange(i, i + p.len()));
            assert(occurs_at(t, p, i + 1));
            assert(rest.skip(i) =~= t.skip(i + 1));
        }
        lemma_replace_removes(rest, from, to, p);
        let r = replace_spec(rest, from, to);
        assert(out == seq![t[0]] + r);
        assert forall|i: int| !occurs_at(out, p, i) by {
            if occurs_at(out, p, i) {
                if i >= 1 {
                    assert(r.subrange(i - 1, i - 1 + p.len()) =~= out.subrange(i, i + p.len()));
                    assert(occurs_at(r, p, i - 1));
                } else {
                    assert(out.subrange(0, p.len() as int)[0] == out[0]);
                    assert(t[0] == p[0]);
                    if p.len() > 1 {
                        assert(r.take(p.len() - 1) =~= p.skip(1));
                        lemma_replace_keeps_prefix(rest, from, to, p, 1);
                        assert(p.len() <= t.len());
                        assert(t.subrange(0, p.len() as int) =~= seq![t[0]] + rest.take(p.len() - 1));
                        assert(t.subrange(0, p.len() as int) =~= seq![p[0]] + p.skip(1));
                        assert(t.subrange(0, p.len() as int) =~= p);
                    } else {
                        assert(t.subrange(0, p.len() as int) =~= p);
                    }
                    assert(occurs_at(t, p, 0));
                    assert(t.skip(0) =~= t);
                }
            }
        }
    }
}

} // verus!
