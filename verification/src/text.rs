//! Character-level text operations used throughout the library, each with a
//! specification over `Seq<char>` that mirrors the documented behaviour of the
//! corresponding `str` method.
use vstd::prelude::*;

verus! {

broadcast use vstd::string::group_string_axioms;

// ---------------------------------------------------------------------------
// Conversions between strings and character vectors
// ---------------------------------------------------------------------------

/// Appends one character to a string (`String::push`).
#[verifier::external_body]
pub(crate) fn push_char(s: &mut String, c: char)
    ensures
        final(s)@ == old(s)@.push(c),
{
    s.push(c);
}

/// The characters of `s`, in order.
pub fn chars_of(s: &str) -> (v: Vec<char>)
    ensures
        v@ == s@,
{
    let mut v: Vec<char> = Vec::new();
    for c in it: s.chars()
        invariant
            v@ == it.seq().take(it.index() as int),
            it.seq() == s@,
    {
        v.push(c);
    }
    v
}

/// The string made of the characters `v[lo..hi]`.
pub fn string_of_range(v: &Vec<char>, lo: usize, hi: usize) -> (s: String)
    requires
        lo <= hi <= v.len(),
    ensures
        s@ == v@.subrange(lo as int, hi as int),
{
    let mut s = String::new();
    let mut i: usize = lo;
    while i < hi
        invariant
            lo <= i <= hi <= v.len(),
            s@ == v@.subrange(lo as int, i as int),
        decreases hi - i,
    {
        push_char(&mut s, v[i]);
        assert(v@.subrange(lo as int, i + 1) == v@.subrange(lo as int, i as int).push(v@[i as int]));
        i = i + 1;
    }
    s
}

// ---------------------------------------------------------------------------
// Whitespace and trimming (`char::is_whitespace`, `str::trim`)
// ---------------------------------------------------------------------------

/// Unicode `White_Space`, the property that `char::is_whitespace` tests.
pub open spec fn is_white(c: char) -> bool {
    let u = c as u32;
    ||| 9 <= u <= 13
    ||| u == 32
    ||| u == 0x85
    ||| u == 0xa0
    ||| u == 0x1680
    ||| 0x2000 <= u <= 0x200a
    ||| u == 0x2028
    ||| u == 0x2029
    ||| u == 0x202f
    ||| u == 0x205f
    ||| u == 0x3000
}

/// `s` without its leading whitespace.
pub open spec fn trim_start(s: Seq<char>) -> Seq<char>
    decreases s.len(),
{
    if s.len() > 0 && is_white(s[0]) {
        trim_start(s.drop_first())
    } else {
        s
    }
}

/// `s` without its trailing whitespace.
pub open spec fn trim_end(s: Seq<char>) -> Seq<char>
    decreases s.len(),
{
    if s.len() > 0 && is_white(s.last()) {
        trim_end(s.drop_last())
    } else {
        s
    }
}

/// `s` without leading and trailing whitespace.
pub open spec fn trim(s: Seq<char>) -> Seq<char> {
    trim_end(trim_start(s))
}

/// `trim_start` drops a run of leading whitespace and nothing else.
proof fn lemma_trim_start_shape(s: Seq<char>)
    ensures
        exists|a: int|
            0 <= a <= s.len() && #[trigger] s.skip(a) == trim_start(s) && (forall|i: int|
                0 <= i < a ==> is_white(s[i])),
        trim_start(s).len() > 0 ==> !is_white(trim_start(s)[0]),
    decreases s.len(),
{
    if s.len() > 0 && is_white(s[0]) {
        lemma_trim_start_shape(s.drop_first());
        let a = choose|a: int|
            0 <= a <= s.drop_first().len() && #[trigger] s.drop_first().skip(a) == trim_start(s.drop_first())
                && (forall|i: int| 0 <= i < a ==> is_white(s.drop_first()[i]));
        assert(s.skip(a + 1) == s.drop_first().skip(a));
        assert forall|i: int| 0 <= i < a + 1 implies is_white(s[i]) by {
            if i > 0 {
                assert(s[i] == s.drop_first()[i - 1]);
            }
        }
    } else {
        assert(s.skip(0) == s);
    }
}

/// `trim_end` drops a run of trailing whitespace and nothing else.
proof fn lemma_trim_end_shape(s: Seq<char>)
    ensures
        exists|b: int|
            0 <= b <= s.len() && #[trigger] s.take(b) == trim_end(s) && (forall|i: int|
                b <= i < s.len() ==> is_white(s[i])),
        trim_end(s).len() > 0 ==> !is_white(trim_end(s).last()),
    decreases s.len(),
{
    if s.len() > 0 && is_white(s.last()) {
        lemma_trim_end_shape(s.drop_last());
        let b = choose|b: int|
            0 <= b <= s.drop_last().len() && #[trigger] s.drop_last().take(b) == trim_end(s.drop_last())
                && (forall|i: int| b <= i < s.drop_last().len() ==> is_white(s.drop_last()[i]));
        assert(s.take(b) == s.drop_last().take(b));
        assert forall|i: int| b <= i < s.len() implies is_white(s[i]) by {
            if i < s.len() - 1 {
                assert(s[i] == s.drop_last()[i]);
            }
        }
    } else {
        assert(s.take(s.len() as int) == s);
    }
}

/// Trimming removes whitespace from both ends and nothing else: what is
/// left is a stretch of `s`, everything before and after it is whitespace,
/// and it neither starts nor ends with whitespace.
pub proof fn lemma_trim_removes_only_outer_whitespace(s: Seq<char>)
    ensures
        exists|a: int, b: int|
            0 <= a <= b <= s.len() && #[trigger] s.subrange(a, b) == trim(s) && (forall|i: int|
                0 <= i < a ==> is_white(s[i])) && (forall|i: int| b <= i < s.len() ==> is_white(s[i])),
        trim(s).len() > 0 ==> !is_white(trim(s)[0]) && !is_white(trim(s).last()),
{
    lemma_trim_start_shape(s);
    let a = choose|a: int|
        0 <= a <= s.len() && #[trigger] s.skip(a) == trim_start(s) && (forall|i: int|
            0 <= i < a ==> is_white(s[i]));
    let t = trim_start(s);
    lemma_trim_end_shape(t);
    let b = choose|b: int|
        0 <= b <= t.len() && #[trigger] t.take(b) == trim_end(t) && (forall|i: int|
            b <= i < t.len() ==> is_white(t[i]));
    assert(s.subrange(a, a + b) == trim(s));
    assert forall|i: int| a + b <= i < s.len() implies is_white(s[i]) by {
        assert(s[i] == t[i - a]);
    }
    if trim(s).len() > 0 {
        assert(trim(s)[0] == t[0]);
    }
}

/// Whether `c` is whitespace.
pub fn char_is_white(c: char) -> (b: bool)
    ensures
        b == is_white(c),
{
    let u = c as u32;
    (9 <= u && u <= 13) || u == 32 || u == 0x85 || u == 0xa0 || u == 0x1680 || (0x2000 <= u
        && u <= 0x200a) || u == 0x2028 || u == 0x2029 || u == 0x202f || u == 0x205f || u == 0x3000
}

/// `s` with leading and trailing whitespace removed, as `str::trim` does.
pub fn trim_str(s: &str) -> (r: String)
    ensures
        r@ == trim(s@),
{
    let v = chars_of(s);
    let n = v.len();
    let mut i: usize = 0;
    assert(v@.subrange(0, n as int) == v@);
    while i < n && char_is_white(v[i])
        invariant
            i <= n == v@.len(),
            trim_start(v@) == trim_start(v@.subrange(i as int, n as int)),
        decreases n - i,
    {
        assert(v@.subrange(i as int, n as int).drop_first() == v@.subrange(i + 1, n as int));
        i = i + 1;
    }
    assert(trim_start(v@) == v@.subrange(i as int, n as int));
    let mut j: usize = n;
    while j > i && char_is_white(v[j - 1])
        invariant
            i <= j <= n == v@.len(),
            trim_end(v@.subrange(i as int, n as int)) == trim_end(v@.subrange(i as int, j as int)),
        decreases j - i,
    {
        assert(v@.subrange(i as int, j as int).drop_last() == v@.subrange(i as int, j - 1));
        j = j - 1;
    }
    assert(trim_end(v@.subrange(i as int, j as int)) == v@.subrange(i as int, j as int));
    string_of_range(&v, i, j)
}

// ---------------------------------------------------------------------------
// Lines (`str::lines`)
// ---------------------------------------------------------------------------

/// Index of the first `c` in `s`, or `s.len()` when there is none.
pub open spec fn find_char(s: Seq<char>, c: char) -> int
    decreases s.len(),
{
    if s.len() == 0 {
        0
    } else if s[0] == c {
        0
    } else {
        1 + find_char(s.drop_first(), c)
    }
}

/// `find_char` is an index of `s`, or its length.
pub proof fn lemma_find_char_bounds(s: Seq<char>, c: char)
    ensures
        0 <= find_char(s, c) <= s.len(),
    decreases s.len(),
{
    if s.len() > 0 && s[0] != c {
        lemma_find_char_bounds(s.drop_first(), c);
    }
}

/// `find_char` is the first position that holds `c`.
pub proof fn lemma_find_char_at(s: Seq<char>, c: char, m: int)
    requires
        0 <= m <= s.len(),
        forall|j: int| 0 <= j < m ==> s[j] != c,
        m == s.len() || s[m] == c,
    ensures
        find_char(s, c) == m,
    decreases m,
{
    if m > 0 {
        assert(s[0] != c);
        lemma_find_char_at(s.drop_first(), c, m - 1);
    }
}

/// `t` without one trailing carriage return.
pub open spec fn strip_cr(t: Seq<char>) -> Seq<char> {
    if t.len() > 0 && t.last() == '\r' {
        t.drop_last()
    } else {
        t
    }
}

/// The lines of `s` as `str::lines` yields them: split at each `\n`, with a
/// carriage return just before the `\n` removed, and no final empty line after
/// a trailing line ending.
pub open spec fn lines(s: Seq<char>) -> Seq<Seq<char>>
    decreases s.len(),
{
    if s.len() == 0 {
        seq![]
    } else {
        let k = find_char(s, '\n');
        if k >= s.len() {
            seq![s]
        } else {
            proof {
                lemma_find_char_bounds(s, '\n');
            }
            seq![strip_cr(s.take(k))] + lines(s.skip(k + 1))
        }
    }
}

/// The views of a vector of strings.
pub open spec fn views(v: Seq<String>) -> Seq<Seq<char>> {
    v.map_values(|x: String| x@)
}

/// The lines of `s`, as `str::lines` yields them.
pub fn text_lines(s: &str) -> (r: Vec<String>)
    ensures
        views(r@) == lines(s@),
{
    let v = chars_of(s);
    let n = v.len();
    let mut out: Vec<String> = Vec::new();
    let ghost mut done: Seq<Seq<char>> = seq![];
    let mut start: usize = 0;
    let mut i: usize = 0;
    assert(v@.skip(0) == v@);
    while i < n
        invariant
            start <= i <= n == v@.len(),
            views(out@) == done,
            lines(v@) == done + lines(v@.skip(start as int)),
            forall|j: int| start <= j < i ==> v@[j] != '\n',
        decreases n - i,
    {
        if v[i] == '\n' {
            let end = if i > start && v[i - 1] == '\r' {
                i - 1
            } else {
                i
            };
            let line = string_of_range(&v, start, end);
            proof {
                let t = v@.skip(start as int);
                lemma_find_char_at(t, '\n', i - start);
                assert(t.take(i - start) == v@.subrange(start as int, i as int));
                assert(t.skip(i - start + 1) == v@.skip(i + 1));
                assert(strip_cr(t.take(i - start)) == line@);
                assert(lines(t) == seq![line@] + lines(v@.skip(i + 1)));
                assert(done + lines(t) == done.push(line@) + lines(v@.skip(i + 1)));
                assert(views(out@.push(line)) == views(out@).push(line@));
                done = done.push(line@);
            }
            out.push(line);
            start = i + 1;
        }
        i = i + 1;
    }
    if start < n {
        let line = string_of_range(&v, start, n);
        proof {
            let t = v@.skip(start as int);
            lemma_find_char_at(t, '\n', n - start);
            assert(t == line@);
            assert(views(out@.push(line)) == views(out@).push(line@));
            assert(done + lines(t) == done.push(line@));
        }
        out.push(line);
    } else {
        assert(v@.skip(start as int) == Seq::<char>::empty());
        assert(done + lines(v@.skip(start as int)) == done);
    }
    out
}

/// Whether a line holds at least one character.
pub open spec fn is_nonempty(l: Seq<char>) -> bool {
    l.len() > 0
}

/// The non-empty lines of `s`, in order.
pub fn nonempty_lines(s: &str) -> (r: Vec<String>)
    ensures
        views(r@) == lines(s@).filter(|l: Seq<char>| is_nonempty(l)),
{
    let all = text_lines(s);
    let mut out: Vec<String> = Vec::new();
    let mut i: usize = 0;
    while i < all.len()
        invariant
            i <= all.len(),
            views(out@) == views(all@).take(i as int).filter(|l: Seq<char>| is_nonempty(l)),
        decreases all.len() - i,
    {
        let ghost pre = views(all@).take(i as int);
        assert(views(all@).take(i + 1) == pre.push(all@[i as int]@));
        proof {
            pre.lemma_filter_push(all@[i as int]@, |l: Seq<char>| is_nonempty(l));
        }
        if all[i].as_str().is_empty() == false {
            let l = all[i].clone();
            assert(views(out@.push(l)) == views(out@).push(all@[i as int]@));
            out.push(l);
        }
        i = i + 1;
    }
    assert(views(all@).take(all.len() as int) == views(all@));
    out
}

// ---------------------------------------------------------------------------
// Substrings (`str::contains`, `str::split`)
// ---------------------------------------------------------------------------

/// `n` occurs in `h` starting at index `i`.
pub open spec fn occurs_at(h: Seq<char>, n: Seq<char>, i: int) -> bool {
    0 <= i && i + n.len() <= h.len() && h.subrange(i, i + n.len()) == n
}

/// `n` occurs somewhere in `h`.
pub open spec fn contains_sub(h: Seq<char>, n: Seq<char>) -> bool {
    exists|i: int| occurs_at(h, n, i)
}

/// Whether `n` occurs in `h` at index `i`.
fn matches_at(h: &Vec<char>, n: &Vec<char>, i: usize) -> (b: bool)
    requires
        i + n.len() <= h.len(),
    ensures
        b == occurs_at(h@, n@, i as int),
{
    let mut j: usize = 0;
    while j < n.len()
        invariant
            j <= n.len(),
            i + n.len() <= h.len(),
            forall|k: int| 0 <= k < j ==> h@[i + k] == n@[k],
        decreases n.len() - j,
    {
        if h[i + j] != n[j] {
            assert(h@.subrange(i as int, i + n.len())[j as int] != n@[j as int]);
            return false;
        }
        j = j + 1;
    }
    assert(h@.subrange(i as int, i + n.len()) == n@);
    true
}

/// Whether `h` contains `n`, as `str::contains` with a string pattern.
pub fn contains_str(h: &str, n: &str) -> (b: bool)
    ensures
        b == contains_sub(h@, n@),
{
    let hv = chars_of(h);
    let nv = chars_of(n);
    if nv.len() > hv.len() {
        return false;
    }
    let mut i: usize = 0;
    while i <= hv.len() && nv.len() <= hv.len() - i
        invariant
            hv@ == h@,
            nv@ == n@,
            forall|k: int| 0 <= k < i ==> !occurs_at(hv@, nv@, k),
        decreases hv.len() + 1 - i,
    {
        if matches_at(&hv, &nv, i) {
            assert(occurs_at(h@, n@, i as int));
            return true;
        }
        assert(nv@.len() > 0) by {
            if nv@.len() == 0 {
                assert(hv@.subrange(i as int, i as int) == nv@);
            }
        }
        i = i + 1;
    }
    assert(forall|k: int| !occurs_at(h@, n@, k));
    false
}

/// Index of the first occurrence of `n` in `h`, or -1 when there is none.
pub open spec fn find_sub(h: Seq<char>, n: Seq<char>) -> int
    decreases h.len(),
{
    if h.len() < n.len() {
        -1
    } else if h.take(n.len() as int) == n {
        0
    } else if h.len() == 0 {
        -1
    } else {
        let r = find_sub(h.drop_first(), n);
        if r < 0 {
            -1
        } else {
            r + 1
        }
    }
}

proof fn lemma_occurs_drop_first(h: Seq<char>, n: Seq<char>, j: int)
    requires
        h.len() > 0,
        j >= 0,
    ensures
        occurs_at(h.drop_first(), n, j) == occurs_at(h, n, j + 1),
{
    if 0 <= j && j + n.len() <= h.len() - 1 {
        assert(h.drop_first().subrange(j, j + n.len()) == h.subrange(j + 1, j + 1 + n.len()));
    }
}

/// A found occurrence is a real one.
pub proof fn lemma_find_sub_occurs(h: Seq<char>, n: Seq<char>)
    ensures
        find_sub(h, n) >= 0 ==> occurs_at(h, n, find_sub(h, n)),
        find_sub(h, n) >= -1,
    decreases h.len(),
{
    if h.len() < n.len() {
    } else if h.take(n.len() as int) == n {
        assert(h.subrange(0, n.len() as int) == h.take(n.len() as int));
    } else if h.len() == 0 {
    } else {
        lemma_find_sub_occurs(h.drop_first(), n);
        let r = find_sub(h.drop_first(), n);
        if r >= 0 {
            lemma_occurs_drop_first(h, n, r);
        }
    }
}

/// The first occurrence is found.
pub proof fn lemma_find_sub_at(h: Seq<char>, n: Seq<char>, m: int)
    requires
        occurs_at(h, n, m),
        forall|j: int| 0 <= j < m ==> !occurs_at(h, n, j),
    ensures
        find_sub(h, n) == m,
    decreases m,
{
    if m == 0 {
        assert(h.subrange(0, n.len() as int) == h.take(n.len() as int));
    } else {
        assert(!occurs_at(h, n, 0));
        assert(h.subrange(0, n.len() as int) == h.take(n.len() as int));
        assert forall|j: int| 0 <= j < m - 1 implies !occurs_at(h.drop_first(), n, j) by {
            lemma_occurs_drop_first(h, n, j);
        }
        lemma_occurs_drop_first(h, n, m - 1);
        lemma_find_sub_at(h.drop_first(), n, m - 1);
    }
}

/// Without an occurrence nothing is found.
pub proof fn lemma_find_sub_none(h: Seq<char>, n: Seq<char>)
    requires
        forall|j: int| !occurs_at(h, n, j),
    ensures
        find_sub(h, n) == -1,
    decreases h.len(),
{
    if h.len() >= n.len() {
        assert(!occurs_at(h, n, 0));
        assert(h.subrange(0, n.len() as int) == h.take(n.len() as int));
        if h.len() > 0 {
            assert forall|j: int| !occurs_at(h.drop_first(), n, j) by {
                if j >= 0 {
                    lemma_occurs_drop_first(h, n, j);
                }
            }
            lemma_find_sub_none(h.drop_first(), n);
        }
    }
}

/// The pieces of `h` between the non-overlapping occurrences of `n`, found
/// from the left, as `str::split` with a non-empty string pattern yields them.
pub open spec fn split_on(h: Seq<char>, n: Seq<char>) -> Seq<Seq<char>>
    decreases h.len(),
{
    let k = find_sub(h, n);
    if n.len() == 0 || k < 0 {
        seq![h]
    } else {
        proof {
            lemma_find_sub_occurs(h, n);
        }
        seq![h.take(k)] + split_on(h.skip(k + n.len()), n)
    }
}

proof fn lemma_occurs_skip(v: Seq<char>, n: Seq<char>, start: int, j: int)
    requires
        0 <= start <= v.len(),
        j >= 0,
    ensures
        occurs_at(v.skip(start), n, j) == occurs_at(v, n, start + j),
{
    if 0 <= j && j + n.len() <= v.len() - start {
        assert(v.skip(start).subrange(j, j + n.len()) == v.subrange(start + j, start + j + n.len()));
    }
}

/// The pieces of `s` between the occurrences of `sep`, as `str::split` yields them.
pub fn split_str(s: &str, sep: &str) -> (r: Vec<String>)
    requires
        sep@.len() > 0,
    ensures
        views(r@) == split_on(s@, sep@),
{
    let v = chars_of(s);
    let p = chars_of(sep);
    let n = v.len();
    let m = p.len();
    let mut out: Vec<String> = Vec::new();
    let ghost mut done: Seq<Seq<char>> = seq![];
    let mut start: usize = 0;
    let mut i: usize = 0;
    assert(v@.skip(0) == v@);
    while i <= n && m <= n - i
        invariant
            start <= i <= n == v@.len(),
            m == p@.len() > 0,
            views(out@) == done,
            split_on(v@, p@) == done + split_on(v@.skip(start as int), p@),
            forall|j: int| start <= j < i ==> !occurs_at(v@, p@, j),
        decreases n + 1 - i,
    {
        if matches_at(&v, &p, i) {
            let piece = string_of_range(&v, start, i);
            proof {
                let t = v@.skip(start as int);
                assert forall|j: int| 0 <= j < i - start implies !occurs_at(t, p@, j) by {
                    lemma_occurs_skip(v@, p@, start as int, j);
                }
                lemma_occurs_skip(v@, p@, start as int, i - start);
                lemma_find_sub_at(t, p@, i - start);
                assert(t.take(i - start) == piece@);
                assert(t.skip(i - start + m) == v@.skip(i + m));
                assert(split_on(t, p@) == seq![piece@] + split_on(v@.skip(i + m), p@));
                assert(done + split_on(t, p@) == done.push(piece@) + split_on(v@.skip(i + m), p@));
                assert(views(out@.push(piece)) == views(out@).push(piece@));
                done = done.push(piece@);
            }
            out.push(piece);
            i = i + m;
            start = i;
        } else {
            i = i + 1;
        }
    }
    let piece = string_of_range(&v, start, n);
    proof {
        let t = v@.skip(start as int);
        assert forall|j: int| !occurs_at(t, p@, j) by {
            if j >= 0 {
                lemma_occurs_skip(v@, p@, start as int, j);
            }
        }
        lemma_find_sub_none(t, p@);
        assert(t == piece@);
        assert(views(out@.push(piece)) == views(out@).push(piece@));
        assert(done + split_on(t, p@) == done.push(piece@));
    }
    out.push(piece);
    out
}

// ---------------------------------------------------------------------------
// Path segments (`str::trim_end_matches`, `str::rsplit`)
// ---------------------------------------------------------------------------

/// `s` without any trailing `c`.
pub open spec fn trim_end_char(s: Seq<char>, c: char) -> Seq<char>
    decreases s.len(),
{
    if s.len() > 0 && s.last() == c {
        trim_end_char(s.drop_last(), c)
    } else {
        s
    }
}

/// The part of `s` after its last `c`, or all of `s` when it holds no `c`.
pub open spec fn after_last(s: Seq<char>, c: char) -> Seq<char>
    decreases s.len(),
{
    if s.len() == 0 {
        s
    } else if s.last() == c {
        seq![]
    } else {
        after_last(s.drop_last(), c).push(s.last())
    }
}

/// The last `/`-separated segment of `url` once its trailing slashes are
/// removed: `url.trim_end_matches('/').rsplit('/').next()`.
pub fn last_path_segment(url: &str) -> (r: String)
    ensures
        r@ == after_last(trim_end_char(url@, '/'), '/'),
{
    let v = chars_of(url);
    let mut j: usize = v.len();
    assert(v@.take(j as int) == v@);
    while j > 0 && v[j - 1] == '/'
        invariant
            j <= v@.len(),
            trim_end_char(v@, '/') == trim_end_char(v@.take(j as int), '/'),
        decreases j,
    {
        assert(v@.take(j as int).drop_last() == v@.take(j - 1));
        j = j - 1;
    }
    assert(trim_end_char(v@.take(j as int), '/') == v@.take(j as int));
    let mut k: usize = j;
    assert(v@.subrange(j as int, j as int) == Seq::<char>::empty());
    assert(after_last(v@.take(j as int), '/') == after_last(v@.take(k as int), '/') + v@.subrange(
        k as int,
        j as int,
    ));
    while k > 0 && v[k - 1] != '/'
        invariant
            k <= j <= v@.len(),
            after_last(v@.take(j as int), '/') == after_last(v@.take(k as int), '/') + v@.subrange(
                k as int,
                j as int,
            ),
        decreases k,
    {
        assert(v@.take(k as int).drop_last() == v@.take(k - 1));
        assert(v@.take(k as int).last() == v@[k - 1]);
        assert(v@.subrange(k - 1, j as int) == seq![v@[k - 1]] + v@.subrange(k as int, j as int));
        assert(after_last(v@.take(k - 1), '/').push(v@[k - 1]) + v@.subrange(k as int, j as int)
            == after_last(v@.take(k - 1), '/') + v@.subrange(k - 1, j as int));
        k = k - 1;
    }
    if k > 0 {
        assert(v@.take(k as int).last() == v@[k - 1]);
    }
    assert(after_last(v@.take(k as int), '/') == Seq::<char>::empty());
    assert(Seq::<char>::empty() + v@.subrange(k as int, j as int) == v@.subrange(k as int, j as int));
    string_of_range(&v, k, j)
}

// ---------------------------------------------------------------------------
// Joining and case mapping
// ---------------------------------------------------------------------------

/// The pieces of `parts` with `sep` between each two, as `[String]::join`.
pub open spec fn join(parts: Seq<Seq<char>>, sep: Seq<char>) -> Seq<char>
    decreases parts.len(),
{
    if parts.len() == 0 {
        seq![]
    } else if parts.len() == 1 {
        parts[0]
    } else {
        join(parts.drop_last(), sep) + sep + parts.last()
    }
}

/// `parts` joined with `sep` between each two.
pub fn join_strings(parts: &Vec<String>, sep: &str) -> (r: String)
    ensures
        r@ == join(views(parts@), sep@),
{
    let mut r = String::new();
    let mut i: usize = 0;
    while i < parts.len()
        invariant
            i <= parts.len(),
            r@ == join(views(parts@).take(i as int), sep@),
        decreases parts.len() - i,
    {
        assert(views(parts@).take(i + 1).drop_last() == views(parts@).take(i as int));
        if i != 0 {
            r.append(sep);
        }
        r.append(parts[i].as_str());
        i = i + 1;
    }
    assert(views(parts@).take(parts.len() as int) == views(parts@));
    r
}

/// What `str::to_lowercase` returns for a string: its Unicode lowercase
/// mapping (character by character, except that a Greek capital sigma at
/// the end of a word becomes a final sigma).
pub uninterp spec fn spec_to_lowercase(s: Seq<char>) -> Seq<char>;

/// `str::to_lowercase`. Its result is taken to be `spec_to_lowercase` of the
/// argument; the case mapping itself is not stated.
#[verifier::external_body]
pub(crate) fn to_lowercase(s: &str) -> (r: String)
    ensures
        r@ == spec_to_lowercase(s@),
{
    s.to_lowercase()
}

// ---------------------------------------------------------------------------
// Equality
// ---------------------------------------------------------------------------

/// Whether `a` and `b` hold the same characters.
pub fn same_text(a: &str, b: &str) -> (r: bool)
    ensures
        r == (a@ == b@),
{
    let av = chars_of(a);
    let bv = chars_of(b);
    if av.len() != bv.len() {
        return false;
    }
    let mut i: usize = 0;
    while i < av.len()
        invariant
            av@ == a@,
            bv@ == b@,
            av.len() == bv.len(),
            i <= av.len(),
            forall|k: int| 0 <= k < i ==> av@[k] == bv@[k],
        decreases av.len() - i,
    {
        if av[i] != bv[i] {
            assert(av@[i as int] != bv@[i as int]);
            return false;
        }
        i = i + 1;
    }
    assert(av@ == bv@);
    true
}

// ---------------------------------------------------------------------------
// Laws of splitting
// ---------------------------------------------------------------------------

/// Before the occurrence `find_sub` reports there is none, and when it
/// reports none there is none at all.
proof fn lemma_find_sub_is_first(h: Seq<char>, n: Seq<char>)
    ensures
        find_sub(h, n) >= 0 ==> forall|j: int| 0 <= j < find_sub(h, n) ==> !occurs_at(h, n, j),
        find_sub(h, n) < 0 ==> forall|j: int| !occurs_at(h, n, j),
    decreases h.len(),
{
    if h.len() < n.len() {
    } else if h.take(n.len() as int) == n {
    } else if h.len() == 0 {
    } else {
        lemma_find_sub_is_first(h.drop_first(), n);
        assert(h.subrange(0, n.len() as int) == h.take(n.len() as int));
        assert forall|j: int| j >= 1 implies occurs_at(h.drop_first(), n, j - 1) == occurs_at(h, n, j) by {
            lemma_occurs_drop_first(h, n, j - 1);
        }
    }
}

/// Joining a first part onto the rest puts the separator between them.
proof fn lemma_join_prepend(x: Seq<char>, r: Seq<Seq<char>>, sep: Seq<char>)
    requires
        r.len() > 0,
    ensures
        join(seq![x] + r, sep) == x + sep + join(r, sep),
    decreases r.len(),
{
    let xr = seq![x] + r;
    assert(xr.drop_last() == seq![x] + r.drop_last());
    assert(xr.last() == r.last());
    if r.len() == 1 {
        assert(seq![x] + r.drop_last() == seq![x]);
        assert(join(seq![x], sep) == x);
    } else {
        lemma_join_prepend(x, r.drop_last(), sep);
        assert(x + sep + join(r.drop_last(), sep) + sep + r.last() == x + sep + (join(r.drop_last(), sep) + sep
            + r.last()));
    }
}

/// Splitting at a separator loses nothing and cuts at every occurrence: the
/// pieces joined back with the separator give the text again, and no piece
/// contains the separator.
pub proof fn lemma_split_rejoins(h: Seq<char>, n: Seq<char>)
    requires
        n.len() > 0,
    ensures
        split_on(h, n).len() > 0,
        join(split_on(h, n), n) == h,
        forall|i: int| 0 <= i < split_on(h, n).len() ==> !contains_sub(#[trigger] split_on(h, n)[i], n),
    decreases h.len(),
{
    lemma_find_sub_is_first(h, n);
    lemma_find_sub_occurs(h, n);
    let k = find_sub(h, n);
    if k < 0 {
        assert(split_on(h, n) == seq![h]);
        assert(join(seq![h], n) == h);
        assert(!contains_sub(h, n));
    } else {
        let first = h.take(k);
        let rest = h.skip(k + n.len());
        lemma_split_rejoins(rest, n);
        assert(split_on(h, n) == seq![first] + split_on(rest, n));
        lemma_join_prepend(first, split_on(rest, n), n);
        assert(h.subrange(k, k + n.len()) == n);
        assert(h == first + n + rest);
        assert(!contains_sub(first, n)) by {
            if contains_sub(first, n) {
                let j = choose|j: int| occurs_at(first, n, j);
                assert(first.subrange(j, j + n.len()) == h.subrange(j, j + n.len()));
                assert(occurs_at(h, n, j));
            }
        }
        assert forall|i: int| 0 <= i < split_on(h, n).len() implies !contains_sub(#[trigger] split_on(h, n)[i], n) by {
            if i > 0 {
                assert(split_on(h, n)[i] == split_on(rest, n)[i - 1]);
            }
        }
    }
}

/// No position before `find_char` holds `c`.
proof fn lemma_find_char_first(s: Seq<char>, c: char)
    ensures
        forall|j: int| 0 <= j < find_char(s, c) && j < s.len() ==> s[j] != c,
    decreases s.len(),
{
    if s.len() > 0 && s[0] != c {
        lemma_find_char_first(s.drop_first(), c);
        assert forall|j: int| 0 <= j < find_char(s, c) && j < s.len() implies s[j] != c by {
            if j > 0 {
                assert(s[j] == s.drop_first()[j - 1]);
            }
        }
    }
}

/// The lines of a text hold no line break.
pub proof fn lemma_lines_hold_no_line_break(s: Seq<char>)
    ensures
        forall|i: int| 0 <= i < lines(s).len() ==> !(#[trigger] lines(s)[i]).contains('\n'),
    decreases s.len(),
{
    if s.len() > 0 {
        let k = find_char(s, '\n');
        lemma_find_char_bounds(s, '\n');
        lemma_find_char_first(s, '\n');
        if k >= s.len() {
            assert(lines(s) == seq![s]);
            assert(!s.contains('\n'));
        } else {
            let first = strip_cr(s.take(k));
            lemma_lines_hold_no_line_break(s.skip(k + 1));
            assert(lines(s) == seq![first] + lines(s.skip(k + 1)));
            assert(!first.contains('\n'));
            assert forall|i: int| 0 <= i < lines(s).len() implies !(#[trigger] lines(s)[i]).contains('\n') by {
                if i > 0 {
                    assert(lines(s)[i] == lines(s.skip(k + 1))[i - 1]);
                }
            }
        }
    }
}

} // verus!
