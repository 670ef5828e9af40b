//! Character-level text utilities with mathematical models.
//!
//! Strings are modelled by their view, a `Seq<char>`. Byte offsets into a
//! string (as used by the editing cursor) are modelled through `utf8_len`,
//! the length of the UTF-8 encoding of a character sequence.
use vstd::prelude::*;

verus! {

/// `String::push`: appends `ch` to the string.
pub assume_specification[ String::push ](s: &mut String, ch: char)
    ensures
        final(s)@ == old(s)@.push(ch),
;

/// Unicode `White_Space` characters, as tested by `char::is_whitespace`.
pub open spec fn is_ws(c: char) -> bool {
    let u = c as u32;
    ||| 0x09 <= u <= 0x0D
    ||| u == 0x20
    ||| u == 0x85
    ||| u == 0xA0
    ||| u == 0x1680
    ||| 0x2000 <= u <= 0x200A
    ||| u == 0x2028
    ||| u == 0x2029
    ||| u == 0x202F
    ||| u == 0x205F
    ||| u == 0x3000
}

/// `char::is_whitespace`.
pub fn is_whitespace(c: char) -> (b: bool)
    ensures
        b == is_ws(c),
{
    let u = c as u32;
    (0x09 <= u && u <= 0x0D) || u == 0x20 || u == 0x85 || u == 0xA0 || u == 0x1680 || (0x2000
        <= u && u <= 0x200A) || u == 0x2028 || u == 0x2029 || u == 0x202F || u == 0x205F || u
        == 0x3000
}

/// Number of bytes in the UTF-8 encoding of `c`.
pub open spec fn char_width(c: char) -> nat {
    let u = c as u32;
    if u <= 0x7F {
        1
    } else if u <= 0x7FF {
        2
    } else if u <= 0xFFFF {
        3
    } else {
        4
    }
}

/// `char::len_utf8`.
pub fn len_utf8(c: char) -> (n: usize)
    ensures
        n == char_width(c),
        1 <= n <= 4,
{
    let u = c as u32;
    if u <= 0x7F {
        1
    } else if u <= 0x7FF {
        2
    } else if u <= 0xFFFF {
        3
    } else {
        4
    }
}

/// Number of bytes in the UTF-8 encoding of `s` (what `str::len` returns).
pub open spec fn utf8_len(s: Seq<char>) -> nat
    decreases s.len(),
{
    if s.len() == 0 {
        0
    } else {
        utf8_len(s.drop_last()) + char_width(s.last())
    }
}

pub proof fn lemma_utf8_len_concat(a: Seq<char>, b: Seq<char>)
    ensures
        utf8_len(a + b) == utf8_len(a) + utf8_len(b),
    decreases b.len(),
{
    if b.len() == 0 {
        assert(a + b =~= a);
    } else {
        assert((a + b).drop_last() =~= a + b.drop_last());
        lemma_utf8_len_concat(a, b.drop_last());
    }
}

pub proof fn lemma_utf8_len_take_mono(s: Seq<char>, i: int, j: int)
    requires
        0 <= i <= j <= s.len(),
    ensures
        utf8_len(s.take(i)) <= utf8_len(s.take(j)),
        i < j ==> utf8_len(s.take(i)) < utf8_len(s.take(j)),
    decreases j - i,
{
    if i < j {
        assert(s.take(j).drop_last() =~= s.take(j - 1));
        lemma_utf8_len_take_mono(s, i, j - 1);
    }
}

pub proof fn lemma_utf8_len_ge_len(s: Seq<char>)
    ensures
        utf8_len(s) >= s.len(),
    decreases s.len(),
{
    if s.len() > 0 {
        lemma_utf8_len_ge_len(s.drop_last());
    }
}

/// True when byte offset `b` of the encoding of `s` starts a character
/// (or is the end of `s`): `str::is_char_boundary`.
pub open spec fn is_boundary(s: Seq<char>, b: int) -> bool {
    exists|k: int| 0 <= k <= s.len() && #[trigger] utf8_len(s.take(k)) == b
}

/// The character index that byte offset `b` starts.
pub open spec fn char_index(s: Seq<char>, b: int) -> int {
    choose|k: int| 0 <= k <= s.len() && #[trigger] utf8_len(s.take(k)) == b
}

pub proof fn lemma_char_index_unique(s: Seq<char>, k: int, b: int)
    requires
        0 <= k <= s.len(),
        utf8_len(s.take(k)) == b,
    ensures
        is_boundary(s, b),
        char_index(s, b) == k,
{
    let j = char_index(s, b);
    if j < k {
        lemma_utf8_len_take_mono(s, j, k);
    } else if k < j {
        lemma_utf8_len_take_mono(s, k, j);
    }
}

/// Byte length of a character sequence held in a vector, with the index of
/// the character that starts at byte `target` when there is one.
pub fn byte_len_of(v: &Vec<char>) -> (n: usize)
    requires
        utf8_len(v@) <= usize::MAX,
    ensures
        n == utf8_len(v@),
{
    let mut n: usize = 0;
    let mut i: usize = 0;
    while i < v.len()
        invariant
            i <= v.len(),
            n == utf8_len(v@.take(i as int)),
            utf8_len(v@) <= usize::MAX,
        decreases v.len() - i,
    {
        assert(v@.take(i + 1).drop_last() =~= v@.take(i as int));
        proof {
            lemma_utf8_len_take_mono(v@, i + 1, v@.len() as int);
            assert(v@.take(v@.len() as int) =~= v@);
        }
        n = n + len_utf8(v[i]);
        i += 1;
    }
    assert(v@.take(v.len() as int) =~= v@);
    n
}

/// Finds the character index that starts at byte offset `b`, if any.
pub fn find_char_index(v: &Vec<char>, b: usize) -> (r: Option<usize>)
    ensures
        r is Some <==> is_boundary(v@, b as int),
        r matches Some(k) ==> k <= v.len() && utf8_len(v@.take(k as int)) == b && char_index(
            v@,
            b as int,
        ) == k,
{
    let mut n: usize = 0;
    let mut i: usize = 0;
    while i < v.len()
        invariant
            i <= v.len(),
            n == utf8_len(v@.take(i as int)),
            n <= b,
            forall|k: int| 0 <= k < i ==> utf8_len(#[trigger] v@.take(k)) < b || utf8_len(
                v@.take(k),
            ) != b,
            forall|k: int| 0 <= k < i ==> utf8_len(#[trigger] v@.take(k)) < n,
        decreases v.len() - i,
    {
        if n == b {
            proof {
                lemma_char_index_unique(v@, i as int, b as int);
            }
            return Some(i);
        }
        let w = len_utf8(v[i]);
        assert(v@.take(i + 1).drop_last() =~= v@.take(i as int));
        if w > b - n {
            // the next boundary is past b
            proof {
                assert forall|k: int| 0 <= k <= v@.len() implies #[trigger] utf8_len(v@.take(k))
                    != b by {
                    if k > i {
                        lemma_utf8_len_take_mono(v@, i + 1, k);
                    }
                }
            }
            return None;
        }
        n = n + w;
        i += 1;
    }
    if n == b {
        proof {
            lemma_char_index_unique(v@, i as int, b as int);
        }
        Some(i)
    } else {
        proof {
            assert forall|k: int| 0 <= k <= v@.len() implies #[trigger] utf8_len(v@.take(k))
                != b by {
                if k < i {
                } else {
                    assert(k == i);
                }
            }
        }
        None
    }
}

/// The characters of a string slice.
pub fn chars_of(s: &str) -> (v: Vec<char>)
    ensures
        v@ == s@,
{
    let mut v: Vec<char> = Vec::new();
    for c in it: s.chars()
        invariant
            v@ == it.seq().take(it.index() as int),
    {
        v.push(c);
    }
    v
}

/// A string holding the characters `v[lo..hi]`.
pub fn string_of_range(v: &Vec<char>, lo: usize, hi: usize) -> (s: String)
    requires
        lo <= hi <= v.len(),
    ensures
        s@ == v@.subrange(lo as int, hi as int),
{
    let mut s = String::new();
    let mut i: usize = lo;
    while i < hi
        invariant
            lo <= i <= hi <= v.len(),
            s@ == v@.subrange(lo as int, i as int),
        decreases hi - i,
    {
        s.push(v[i]);
        i += 1;
        assert(s@ =~= v@.subrange(lo as int, i as int));
    }
    s
}

/// A string holding the characters of `v`.
pub fn string_of(v: &Vec<char>) -> (s: String)
    ensures
        s@ == v@,
{
    let s = string_of_range(v, 0, v.len());
    assert(v@.subrange(0, v.len() as int) =~= v@);
    s
}

/// A string equal to the slice `s`.
pub fn to_string(s: &str) -> (r: String)
    ensures
        r@ == s@,
{
    let v = chars_of(s);
    string_of(&v)
}

/// Appends `t` to `s`.
pub fn push_str(s: &mut String, t: &str)
    ensures
        final(s)@ == old(s)@ + t@,
{
    let v = chars_of(t);
    let mut i: usize = 0;
    while i < v.len()
        invariant
            i <= v.len(),
            v@ == t@,
            s@ == old(s)@ + v@.take(i as int),
        decreases v.len() - i,
    {
        s.push(v[i]);
        i += 1;
        assert(s@ =~= old(s)@ + v@.take(i as int));
    }
    assert(v@.take(v.len() as int) =~= v@);
}

/// Appends the characters of `v` to `s`.
pub fn push_chars(s: &mut String, v: &Vec<char>)
    ensures
        final(s)@ == old(s)@ + v@,
{
    let mut i: usize = 0;
    while i < v.len()
        invariant
            i <= v.len(),
            s@ == old(s)@ + v@.take(i as int),
        decreases v.len() - i,
    {
        s.push(v[i]);
        i += 1;
        assert(s@ =~= old(s)@ + v@.take(i as int));
    }
    assert(v@.take(v.len() as int) =~= v@);
}

/// `a` and `b` hold the same characters.
pub fn seq_eq(a: &Vec<char>, b: &Vec<char>) -> (r: bool)
    ensures
        r == (a@ == b@),
{
    if a.len() != b.len() {
        return false;
    }
    let mut i: usize = 0;
    while i < a.len()
        invariant
            i <= a.len() == b.len(),
            forall|k: int| 0 <= k < i ==> a@[k] == b@[k],
        decreases a.len() - i,
    {
        if a[i] != b[i] {
            return false;
        }
        i += 1;
    }
    assert(a@ =~= b@);
    true
}

/// The characters of `v` equal those of the literal `lit`.
pub fn eq_lit(v: &Vec<char>, lit: &str) -> (r: bool)
    ensures
        r == (v@ == lit@),
{
    let w = chars_of(lit);
    seq_eq(v, &w)
}

/// `s` begins with `p`.
pub open spec fn starts_with(s: Seq<char>, p: Seq<char>) -> bool {
    p.len() <= s.len() && s.take(p.len() as int) == p
}

/// `s` ends with `p`.
pub open spec fn ends_with(s: Seq<char>, p: Seq<char>) -> bool {
    p.len() <= s.len() && s.skip(s.len() - p.len()) == p
}

/// `str::starts_with` on character vectors.
pub fn vec_starts_with(v: &Vec<char>, p: &Vec<char>) -> (r: bool)
    ensures
        r == starts_with(v@, p@),
{
    if p.len() > v.len() {
        return false;
    }
    let mut i: usize = 0;
    while i < p.len()
        invariant
            i <= p.len() <= v.len(),
            forall|k: int| 0 <= k < i ==> v@[k] == p@[k],
        decreases p.len() - i,
    {
        if v[i] != p[i] {
            assert(v@.take(p.len() as int)[i as int] != p@[i as int]);
            return false;
        }
        i += 1;
    }
    assert(v@.take(p.len() as int) =~= p@);
    true
}

/// `str::starts_with` with a string slice pattern.
pub fn starts_with_lit(v: &Vec<char>, lit: &str) -> (r: bool)
    ensures
        r == starts_with(v@, lit@),
{
    let p = chars_of(lit);
    vec_starts_with(v, &p)
}

/// `str::ends_with` on character vectors.
pub fn vec_ends_with(v: &Vec<char>, p: &Vec<char>) -> (r: bool)
    ensures
        r == ends_with(v@, p@),
{
    if p.len() > v.len() {
        return false;
    }
    let off = v.len() - p.len();
    let mut i: usize = 0;
    while i < p.len()
        invariant
            i <= p.len() <= v.len(),
            off == v.len() - p.len(),
            forall|k: int| 0 <= k < i ==> v@[off + k] == p@[k],
        decreases p.len() - i,
    {
        if v[off + i] != p[i] {
            assert(v@.skip(off as int)[i as int] != p@[i as int]);
            return false;
        }
        i += 1;
    }
    assert(v@.skip(off as int) =~= p@);
    true
}

/// `str::ends_with` with a string slice pattern.
pub fn ends_with_lit(v: &Vec<char>, lit: &str) -> (r: bool)
    ensures
        r == ends_with(v@, lit@),
{
    let p = chars_of(lit);
    vec_ends_with(v, &p)
}

/// `s` starts with the character `c`.
pub open spec fn starts_with_char(s: Seq<char>, c: char) -> bool {
    s.len() > 0 && s[0] == c
}

/// Number of leading whitespace characters of `s`.
pub open spec fn leading_ws(s: Seq<char>) -> nat
    decreases s.len(),
{
    if s.len() > 0 && is_ws(s[0]) {
        1 + leading_ws(s.drop_first())
    } else {
        0
    }
}

/// Number of trailing whitespace characters of `s`.
pub open spec fn trailing_ws(s: Seq<char>) -> nat
    decreases s.len(),
{
    if s.len() > 0 && is_ws(s.last()) {
        1 + trailing_ws(s.drop_last())
    } else {
        0
    }
}

pub proof fn lemma_leading_ws_bound(s: Seq<char>)
    ensures
        leading_ws(s) <= s.len(),
        forall|k: int| 0 <= k < leading_ws(s) ==> is_ws(#[trigger] s[k]),
        leading_ws(s) < s.len() ==> !is_ws(s[leading_ws(s) as int]),
    decreases s.len(),
{
    if s.len() > 0 && is_ws(s[0]) {
        lemma_leading_ws_bound(s.drop_first());
        assert forall|k: int| 0 <= k < leading_ws(s) implies is_ws(#[trigger] s[k]) by {
            if k > 0 {
                assert(s[k] == s.drop_first()[k - 1]);
            }
        }
    }
}

pub proof fn lemma_trailing_ws_bound(s: Seq<char>)
    ensures
        trailing_ws(s) <= s.len(),
        forall|k: int| s.len() - trailing_ws(s) <= k < s.len() ==> is_ws(#[trigger] s[k]),
        trailing_ws(s) < s.len() ==> !is_ws(s[s.len() - trailing_ws(s) - 1]),
    decreases s.len(),
{
    if s.len() > 0 && is_ws(s.last()) {
        lemma_trailing_ws_bound(s.drop_last());
        assert forall|k: int| s.len() - trailing_ws(s) <= k < s.len() implies is_ws(
            #[trigger] s[k],
        ) by {
            if k < s.len() - 1 {
                assert(s[k] == s.drop_last()[k]);
            }
        }
    }
}

/// `str::trim_start`.
pub open spec fn trim_start(s: Seq<char>) -> Seq<char> {
    s.skip(leading_ws(s) as int)
}

/// `str::trim_end`.
pub open spec fn trim_end(s: Seq<char>) -> Seq<char> {
    s.take(s.len() - trailing_ws(s))
}

/// `str::trim`.
pub open spec fn trim(s: Seq<char>) -> Seq<char> {
    trim_end(trim_start(s))
}

/// Trimming twice is trimming once.
pub proof fn lemma_trim_idempotent(s: Seq<char>)
    ensures
        trim(trim(s)) == trim(s),
{
    let u = trim_start(s);
    let t = trim(s);
    lemma_leading_ws_bound(s);
    lemma_trailing_ws_bound(u);
    if t.len() > 0 {
        assert(t[0] == u[0]);
        assert(u[0] == s[leading_ws(s) as int]);
        assert(leading_ws(t) == 0);
        assert(t.last() == u[u.len() - trailing_ws(u) - 1]);
        assert(trailing_ws(t.skip(0)) == 0) by {
            assert(t.skip(0) =~= t);
        }
        assert(t.skip(0) =~= t);
        assert(t.take(t.len() as int) =~= t);
    } else {
        assert(leading_ws(t) == 0);
        assert(t.skip(0) =~= t);
        assert(trailing_ws(t) == 0);
        assert(t.take(0) =~= t);
    }
}

/// Count of leading whitespace characters in `v[lo..]`.
pub fn count_leading_ws(v: &Vec<char>, lo: usize) -> (n: usize)
    requires
        lo <= v.len(),
    ensures
        n == leading_ws(v@.skip(lo as int)),
        lo + n <= v.len(),
{
    let mut i: usize = lo;
    while i < v.len() && is_whitespace(v[i])
        invariant
            lo <= i <= v.len(),
            leading_ws(v@.skip(lo as int)) == (i - lo) + leading_ws(v@.skip(i as int)),
        decreases v.len() - i,
    {
        assert(v@.skip(i as int).drop_first() =~= v@.skip(i + 1));
        i += 1;
    }
    i - lo
}

/// Count of trailing whitespace characters in `v[..hi]`.
pub fn count_trailing_ws(v: &Vec<char>, hi: usize) -> (n: usize)
    requires
        hi <= v.len(),
    ensures
        n == trailing_ws(v@.take(hi as int)),
        n <= hi,
{
    let mut i: usize = hi;
    while i > 0 && is_whitespace(v[i - 1])
        invariant
            i <= hi <= v.len(),
            trailing_ws(v@.take(hi as int)) == (hi - i) + trailing_ws(v@.take(i as int)),
        decreases i,
    {
        assert(v@.take(i as int).drop_last() =~= v@.take(i - 1));
        i -= 1;
    }
    hi - i
}

/// Bounds `(lo, hi)` with `v[lo..hi]` equal to `trim(v)`.
pub fn trim_bounds(v: &Vec<char>) -> (r: (usize, usize))
    ensures
        r.0 <= r.1 <= v.len(),
        v@.subrange(r.0 as int, r.1 as int) == trim(v@),
        r.0 == leading_ws(v@),
{
    let lo = count_leading_ws(v, 0);
    assert(v@.skip(0) =~= v@);
    let t = count_trailing_ws(v, v.len());
    assert(v@.take(v.len() as int) =~= v@);
    proof {
        lemma_leading_ws_bound(v@);
        lemma_trailing_ws_bound(v@);
        let ts = trim_start(v@);
        lemma_trailing_ws_bound(ts);
        // the trailing whitespace of the trimmed-start sequence
        assert(trailing_ws(ts) == if lo == v.len() { 0 } else { t as nat }) by {
            lemma_trailing_ws_skip(v@, lo as int);
        }
    }
    if lo == v.len() {
        assert(v@.subrange(lo as int, lo as int) =~= trim(v@));
        (lo, lo)
    } else {
        assert(v@.subrange(lo as int, v.len() - t) =~= trim(v@));
        (lo, v.len() - t)
    }
}

proof fn lemma_trailing_ws_skip(s: Seq<char>, lo: int)
    requires
        lo == leading_ws(s),
    ensures
        trailing_ws(s.skip(lo)) == if lo == s.len() {
            0
        } else {
            trailing_ws(s)
        },
    decreases s.len(),
{
    lemma_leading_ws_bound(s);
    if lo == s.len() {
        assert(s.skip(lo).len() == 0);
    } else if s.len() > 0 && is_ws(s.last()) {
        let d = s.drop_last();
        // s.last() is whitespace and lo < s.len(), so lo < s.len() - 1
        assert(lo < s.len() - 1) by {
            if lo == s.len() - 1 {
                assert(!is_ws(s[lo]));
            }
        }
        assert(leading_ws(d) == lo) by {
            lemma_leading_ws_prefix(s, s.len() - 1);
        }
        lemma_trailing_ws_skip(d, lo);
        assert(s.skip(lo).drop_last() =~= d.skip(lo));
    } else {
    }
}

proof fn lemma_leading_ws_prefix(s: Seq<char>, n: int)
    requires
        leading_ws(s) < n <= s.len(),
    ensures
        leading_ws(s.take(n)) == leading_ws(s),
    decreases s.len(),
{
    if s.len() > 0 && is_ws(s[0]) {
        assert(s.take(n).drop_first() =~= s.drop_first().take(n - 1));
        lemma_leading_ws_prefix(s.drop_first(), n - 1);
    }
}

/// Characters of `trim(s)` for a string slice.
pub fn trimmed_chars(s: &str) -> (v: Vec<char>)
    ensures
        v@ == trim(s@),
{
    let all = chars_of(s);
    let (lo, hi) = trim_bounds(&all);
    let mut v: Vec<char> = Vec::new();
    let mut i = lo;
    while i < hi
        invariant
            lo <= i <= hi <= all.len(),
            v@ == all@.subrange(lo as int, i as int),
        decreases hi - i,
    {
        v.push(all[i]);
        i += 1;
        assert(v@ =~= all@.subrange(lo as int, i as int));
    }
    v
}

// ---------------------------------------------------------------------------
// split_whitespace
/// `str::split_whitespace`: the maximal runs of non-whitespace characters.
pub open spec fn words(s: Seq<char>) -> Seq<Seq<char>>
    decreases s.len(),
{
    if s.len() == 0 {
        seq![]
    } else {
        let w = words(s.drop_last());
        let c = s.last();
        if is_ws(c) {
            w
        } else if s.len() >= 2 && !is_ws(s[s.len() - 2]) {
            w.update(w.len() - 1, w.last().push(c))
        } else {
            w.push(seq![c])
        }
    }
}

pub proof fn lemma_words_nonempty_last(s: Seq<char>)
    ensures
        s.len() > 0 && !is_ws(s.last()) ==> words(s).len() > 0,
    decreases s.len(),
{
    if s.len() > 0 {
        lemma_words_nonempty_last(s.drop_last());
    }
}

/// The words of `v[lo..]`, as vectors of characters.
pub fn split_whitespace_from(v: &Vec<char>, lo: usize) -> (r: Vec<Vec<char>>)
    requires
        lo <= v.len(),
    ensures
        r@.len() == words(v@.skip(lo as int)).len(),
        forall|k: int| 0 <= k < r@.len() ==> (#[trigger] r@[k])@ == words(v@.skip(lo as int))[k],
{
    let ghost s = v@.skip(lo as int);
    let mut r: Vec<Vec<char>> = Vec::new();
    let mut i: usize = lo;
    assert(s.take(0) =~= Seq::<char>::empty());
    while i < v.len()
        invariant
            lo <= i <= v.len(),
            s == v@.skip(lo as int),
            r@.len() == words(s.take(i - lo)).len(),
            forall|k: int| 0 <= k < r@.len() ==> (#[trigger] r@[k])@ == words(s.take(i - lo))[k],
        decreases v.len() - i,
    {
        let c = v[i];
        let ghost j = i - lo;
        let ghost prev = s.take(j);
        assert(s.take(j + 1).drop_last() =~= prev);
        assert(s.take(j + 1).last() == c);
        if is_whitespace(c) {
        } else if i > lo && !is_whitespace(v[i - 1]) {
            proof {
                assert(prev.last() == v@[i - 1]);
                lemma_words_nonempty_last(prev);
            }
            let last = r.len() - 1;
            let mut w = r.pop().unwrap();
            w.push(c);
            r.push(w);
            proof {
                assert(s.take(j + 1)[j - 1] == v@[i - 1]);
                let nw = words(s.take(j + 1));
                assert(nw == words(prev).update(last as int, words(prev).last().push(c)));
                assert forall|k: int| 0 <= k < r@.len() implies (#[trigger] r@[k])@ == nw[k] by {
                    if k < last {
                    }
                }
            }
        } else {
            proof {
                if j >= 1 {
                    assert(s.take(j + 1)[j - 1] == v@[i - 1]);
                }
            }
            let mut w: Vec<char> = Vec::new();
            w.push(c);
            r.push(w);
            proof {
                let nw = words(s.take(j + 1));
                assert(w@ =~= seq![c]);
                assert forall|k: int| 0 <= k < r@.len() implies (#[trigger] r@[k])@ == nw[k] by {
                }
            }
        }
        i += 1;
    }
    assert(s.take(v.len() - lo) =~= s);
    r
}

/// The words of `s`, as vectors of characters.
pub fn split_whitespace(s: &str) -> (r: Vec<Vec<char>>)
    ensures
        r@.len() == words(s@).len(),
        forall|k: int| 0 <= k < r@.len() ==> (#[trigger] r@[k])@ == words(s@)[k],
{
    let v = chars_of(s);
    assert(v@.skip(0) =~= v@);
    split_whitespace_from(&v, 0)
}

// ---------------------------------------------------------------------------
// lines
/// The pieces of `s` cut at every `'\n'` (the newline is not kept); there is
/// always at least one piece.
pub open spec fn split_nl(s: Seq<char>) -> Seq<Seq<char>>
    decreases s.len(),
{
    if s.len() == 0 {
        seq![seq![]]
    } else {
        let w = split_nl(s.drop_last());
        if s.last() == '\n' {
            w.push(seq![])
        } else {
            w.update(w.len() - 1, w.last().push(s.last()))
        }
    }
}

pub proof fn lemma_split_nl_len(s: Seq<char>)
    ensures
        split_nl(s).len() >= 1,
    decreases s.len(),
{
    if s.len() > 0 {
        lemma_split_nl_len(s.drop_last());
    }
}

/// A line as `str::lines` yields it: a line that was ended by `'\n'` loses one
/// trailing `'\r'`.
pub open spec fn strip_cr(l: Seq<char>) -> Seq<char> {
    if l.len() > 0 && l.last() == '\r' {
        l.drop_last()
    } else {
        l
    }
}

/// `str::lines`: the text cut at `'\n'`, where a line terminated by `"\r\n"`
/// loses the `'\r'`, and a final empty piece (after a trailing newline, or of
/// an empty text) is not a line.
pub open spec fn lines(s: Seq<char>) -> Seq<Seq<char>> {
    let p = split_nl(s);
    let n = p.len();
    let terminated = Seq::new((n - 1) as nat, |k: int| strip_cr(p[k]));
    if p.last().len() == 0 {
        terminated
    } else {
        terminated.push(p.last())
    }
}

/// The lines of `s`, as vectors of characters.
pub fn split_lines(s: &str) -> (r: Vec<Vec<char>>)
    ensures
        r@.len() == lines(s@).len(),
        forall|k: int| 0 <= k < r@.len() ==> (#[trigger] r@[k])@ == lines(s@)[k],
{
    let v = chars_of(s);
    let mut done: Vec<Vec<char>> = Vec::new();
    let mut cur: Vec<char> = Vec::new();
    let mut i: usize = 0;
    proof {
        assert(v@.take(0) =~= Seq::<char>::empty());
    }
    while i < v.len()
        invariant
            i <= v.len(),
            v@ == s@,
            split_nl(v@.take(i as int)).len() == done@.len() + 1,
            forall|k: int|
                0 <= k < done@.len() ==> (#[trigger] done@[k])@ == strip_cr(
                    split_nl(v@.take(i as int))[k],
                ),
            cur@ == split_nl(v@.take(i as int)).last(),
        decreases v.len() - i,
    {
        let c = v[i];
        let ghost prev = v@.take(i as int);
        assert(v@.take(i + 1).drop_last() =~= prev);
        if c == '\n' {
            let mut line = cur;
            if line.len() > 0 && line[line.len() - 1] == '\r' {
                line.pop();
            }
            assert(line@ == strip_cr(cur@));
            done.push(line);
            cur = Vec::new();
            proof {
                let np = split_nl(v@.take(i + 1));
                assert(np == split_nl(prev).push(seq![]));
                assert(cur@ =~= np.last());
                assert forall|k: int| 0 <= k < done@.len() implies (#[trigger] done@[k])@
                    == strip_cr(np[k]) by {
                }
            }
        } else {
            cur.push(c);
            proof {
                let np = split_nl(v@.take(i + 1));
                assert forall|k: int| 0 <= k < done@.len() implies (#[trigger] done@[k])@
                    == strip_cr(np[k]) by {
                }
            }
        }
        i += 1;
    }
    assert(v@.take(v.len() as int) =~= v@);
    let ghost p = split_nl(s@);
    let ghost term = Seq::new((p.len() - 1) as nat, |k: int| strip_cr(p[k]));
    if cur.len() > 0 {
        done.push(cur);
        assert(lines(s@) == term.push(p.last()));
        assert forall|k: int| 0 <= k < done@.len() implies (#[trigger] done@[k])@ == lines(
            s@,
        )[k] by {
        }
    } else {
        assert forall|k: int| 0 <= k < done@.len() implies (#[trigger] done@[k])@ == lines(
            s@,
        )[k] by {
        }
    }
    done
}

// ---------------------------------------------------------------------------
// decimal formatting
/// The decimal digits of `n`, as `u64`'s `Display` writes them.
pub open spec fn decimal(n: nat) -> Seq<char>
    decreases n,
{
    if n < 10 {
        seq![digit(n)]
    } else {
        decimal(n / 10).push(digit(n % 10))
    }
}

pub open spec fn digit(d: nat) -> char {
    (('0' as u32) + d) as char
}

/// Appends the decimal digits of `n` to `s`.
pub fn push_decimal(s: &mut String, n: u64)
    ensures
        final(s)@ == old(s)@ + decimal(n as nat),
    decreases n,
{
    if n >= 10 {
        push_decimal(s, n / 10);
    }
    let d = (n % 10) as u32;
    let c = char_from_digit(d);
    s.push(c);
    assert(s@ =~= old(s)@ + decimal(n as nat));
}

fn char_from_digit(d: u32) -> (c: char)
    requires
        d < 10,
    ensures
        c == digit(d as nat),
{
    if d == 0 {
        '0'
    } else if d == 1 {
        '1'
    } else if d == 2 {
        '2'
    } else if d == 3 {
        '3'
    } else if d == 4 {
        '4'
    } else if d == 5 {
        '5'
    } else if d == 6 {
        '6'
    } else if d == 7 {
        '7'
    } else if d == 8 {
        '8'
    } else {
        '9'
    }
}

} // verus!

verus! {

/// The characters `v[..lo]`, then `ins`, then `v[hi..]`.
pub fn splice(v: &Vec<char>, lo: usize, hi: usize, ins: &Vec<char>) -> (r: Vec<char>)
    requires
        lo <= hi <= v.len(),
    ensures
        r@ == v@.take(lo as int) + ins@ + v@.skip(hi as int),
{
    let mut r: Vec<char> = Vec::new();
    let mut i: usize = 0;
    while i < lo
        invariant
            i <= lo <= hi <= v.len(),
            r@ == v@.take(i as int),
        decreases lo - i,
    {
        r.push(v[i]);
        i += 1;
        assert(r@ =~= v@.take(i as int));
    }
    let mut j: usize = 0;
    while j < ins.len()
        invariant
            j <= ins.len(),
            r@ == v@.take(lo as int) + ins@.take(j as int),
        decreases ins.len() - j,
    {
        r.push(ins[j]);
        j += 1;
        assert(r@ =~= v@.take(lo as int) + ins@.take(j as int));
    }
    assert(ins@.take(ins.len() as int) =~= ins@);
    let mut k: usize = hi;
    while k < v.len()
        invariant
            hi <= k <= v.len(),
            r@ == v@.take(lo as int) + ins@ + v@.subrange(hi as int, k as int),
        decreases v.len() - k,
    {
        r.push(v[k]);
        k += 1;
        assert(r@ =~= v@.take(lo as int) + ins@ + v@.subrange(hi as int, k as int));
    }
    assert(v@.subrange(hi as int, v.len() as int) =~= v@.skip(hi as int));
    r
}

/// A vector holding the characters `v[lo..hi]`.
pub fn sub_vec(v: &Vec<char>, lo: usize, hi: usize) -> (r: Vec<char>)
    requires
        lo <= hi <= v.len(),
    ensures
        r@ == v@.subrange(lo as int, hi as int),
{
    let mut r: Vec<char> = Vec::new();
    let mut i: usize = lo;
    while i < hi
        invariant
            lo <= i <= hi <= v.len(),
            r@ == v@.subrange(lo as int, i as int),
        decreases hi - i,
    {
        r.push(v[i]);
        i += 1;
        assert(r@ =~= v@.subrange(lo as int, i as int));
    }
    r
}

/// The characters of a string.
pub fn chars_of_string(s: &String) -> (v: Vec<char>)
    ensures
        v@ == s@,
{
    chars_of(s.as_str())
}

} // verus!

verus! {

pub proof fn lemma_lines_nonempty(s: Seq<char>)
    requires
        s.len() > 0,
    ensures
        lines(s).len() >= 1,
{
    lemma_split_nl_len(s);
    lemma_split_nl_last(s);
}

proof fn lemma_split_nl_last(s: Seq<char>)
    requires
        s.len() > 0,
    ensures
        split_nl(s).last().len() == 0 ==> split_nl(s).len() >= 2,
{
    lemma_split_nl_len(s.drop_last());
}

/// The lines `ls` joined with `'\n'` between them.
pub open spec fn join_lines(ls: Seq<Seq<char>>) -> Seq<char>
    decreases ls.len(),
{
    if ls.len() == 0 {
        seq![]
    } else if ls.len() == 1 {
        ls[0]
    } else {
        join_lines(ls.drop_last()).push('\n') + ls.last()
    }
}

/// `lines[lo..hi].join("\n")` for lines held as character vectors.
pub fn join_lines_range(ls: &Vec<Vec<char>>, lo: usize, hi: usize) -> (s: String)
    requires
        lo <= hi <= ls@.len(),
    ensures
        s@ == join_lines(ls@.subrange(lo as int, hi as int).map_values(|l: Vec<char>| l@)),
{
    let mut s = String::new();
    let mut i = lo;
    let ghost f = |l: Vec<char>| l@;
    assert(ls@.subrange(lo as int, lo as int).map_values(f) =~= Seq::<Seq<char>>::empty());
    while i < hi
        invariant
            lo <= i <= hi <= ls@.len(),
            f == (|l: Vec<char>| l@),
            s@ == join_lines(ls@.subrange(lo as int, i as int).map_values(f)),
        decreases hi - i,
    {
        let ghost prev = ls@.subrange(lo as int, i as int).map_values(f);
        let ghost next = ls@.subrange(lo as int, i + 1).map_values(f);
        assert(next.drop_last() =~= prev);
        assert(next.last() == ls@[i as int]@);
        if i > lo {
            s.push('\n');
        }
        push_chars(&mut s, &ls[i]);
        proof {
            if i == lo {
                assert(next.len() == 1);
                assert(s@ =~= next[0]);
            }
        }
        i += 1;
    }
    s
}

} // verus!

verus! {

/// The characters of `trim_end(v)`.
pub fn trim_end_vec(v: &Vec<char>) -> (r: Vec<char>)
    ensures
        r@ == trim_end(v@),
{
    let t = count_trailing_ws(v, v.len());
    assert(v@.take(v.len() as int) =~= v@);
    let r = sub_vec(v, 0, v.len() - t);
    assert(r@ =~= trim_end(v@));
    r
}

/// The characters of `trim(v)`.
pub fn trim_vec(v: &Vec<char>) -> (r: Vec<char>)
    ensures
        r@ == trim(v@),
{
    let (lo, hi) = trim_bounds(v);
    sub_vec(v, lo, hi)
}

} // verus!
