//! What the terminal views show: wrapped chat lines, inline markdown
//! styling, the input line with its cursor and the log lines. Drawing them
//! with a terminal toolkit is left to the caller.
use crate::scrapper::strings_view;
use crate::text::{chars_of, string_of_range};
use vstd::prelude::*;

verus! {

/// Number of pieces `wrap_line` cuts a line of `n` characters into.
pub open spec fn wrap_count(n: nat, w: nat) -> nat {
    if w == 0 || n == 0 {
        1
    } else {
        ((n + w - 1) / (w as int)) as nat
    }
}

/// The pieces `wrap_line` cuts `line` into.
pub open spec fn wrapped(line: Seq<char>, w: nat) -> Seq<Seq<char>> {
    if w == 0 {
        seq![line]
    } else {
        Seq::new(
            wrap_count(line.len(), w),
            |k: int|
                line.subrange(
                    k * w,
                    if k * w + w < line.len() {
                        k * w + w
                    } else {
                        line.len() as int
                    },
                ),
        )
    }
}

/// Cuts `line` into pieces of `max_width` characters (the last may be
/// shorter); an empty line gives one empty piece, and a width of zero gives
/// the line whole.
pub fn wrap_line(line: &str, max_width: usize) -> (r: Vec<String>)
    ensures
        strings_view(r@) == wrapped(line@, max_width as nat),
        r@.len() == wrap_count(line@.len(), max_width as nat),
        max_width == 0 ==> r@[0]@ == line@,
        max_width > 0 ==> forall|k: int|
            0 <= k < r@.len() ==> (#[trigger] r@[k])@ == line@.subrange(
                k * max_width,
                if k * max_width + max_width < line@.len() {
                    k * max_width + max_width
                } else {
                    line@.len() as int
                },
            ),
{
    let chars = chars_of(line);
    let mut result: Vec<String> = Vec::new();
    if max_width == 0 {
        result.push(string_of_range(&chars, 0, chars.len()));
        assert(chars@.subrange(0, chars@.len() as int) =~= line@);
        assert(strings_view(result@) =~= wrapped(line@, max_width as nat));
        return result;
    }
    let w = max_width;
    let n = chars.len();
    let mut start: usize = 0;
    let mut k: usize = 0;
    while start < n
        invariant
            n == chars@.len(),
            chars@ == line@,
            w == max_width,
            w > 0,
            start == k * w,
            start <= n,
            k <= start,
            result@.len() == k,
            forall|j: int|
                0 <= j < k ==> (#[trigger] result@[j])@ == line@.subrange(
                    j * w,
                    if j * w + w < line@.len() {
                        j * w + w
                    } else {
                        line@.len() as int
                    },
                ),
            k > 0 ==> (k - 1) * w < n,
            k > 0 ==> start < n,
            k == 0 ==> start == 0,
        decreases n - start,
    {
        let end = if w < n - start {
            start + w
        } else {
            n
        };
        result.push(string_of_range(&chars, start, end));
        proof {
            assert((k + 1) * w == k * w + w) by (nonlinear_arith);
        }
        start = end;
        if end == n {
            proof {
                // the next multiple of w is past the end
                assert(k * w < n);
                if end < k * w + w {
                    assert(start == n);
                }
            }
            k = k + 1;
            proof {
                lemma_wrap_count(n as nat, w as nat, k as nat);
            }
            assert(result@.len() == wrap_count(line@.len(), max_width as nat));
            assert(strings_view(result@) =~= wrapped(line@, max_width as nat));
            return result;
        }
        k = k + 1;
    }
    // the line is empty
    assert(n == 0);
    result.push(String::new());
    assert(result@[0]@ =~= line@.subrange(0, 0));
    assert(result@.len() == 1);
    proof {
        assert forall|j: int| 0 <= j < result@.len() implies (#[trigger] result@[j])@
            == line@.subrange(
            j * w,
            if j * w + w < line@.len() {
                j * w + w
            } else {
                line@.len() as int
            },
        ) by {
            assert(j == 0);
            assert(j * w == 0) by (nonlinear_arith)
                requires
                    j == 0,
            ;
        }
    }
    assert(strings_view(result@) =~= wrapped(line@, max_width as nat));
    result
}

proof fn lemma_wrap_count(n: nat, w: nat, k: nat)
    requires
        w > 0,
        n > 0,
        k >= 1,
        (k - 1) * w < n,
        n <= k * w,
    ensures
        k == wrap_count(n, w),
{
    assert((k - 1) * w == k * w - w) by (nonlinear_arith);
    assert((n + w - 1) / (w as int) == k) by (nonlinear_arith)
        requires
            w > 0,
            k * w - w < n,
            n <= k * w,
    {
        assert(k * w <= n + w - 1);
        assert(n + w - 1 < (k + 1) * w);
    }
}

/// Whether `marker` occurs in `chars` at position `i`.
pub open spec fn marker_at(chars: Seq<char>, marker: Seq<char>, i: int) -> bool {
    0 <= i && i + marker.len() <= chars.len() && chars.subrange(i, i + marker.len()) == marker
}

/// The first position at or after `start` where `marker` occurs.
pub open spec fn first_marker(chars: Seq<char>, start: int, marker: Seq<char>) -> Option<int>
    decreases chars.len() + 1 - start,
{
    if start < 0 || start + marker.len() > chars.len() {
        None
    } else if marker_at(chars, marker, start) {
        Some(start)
    } else {
        first_marker(chars, start + 1, marker)
    }
}

pub proof fn lemma_first_marker(chars: Seq<char>, start: int, marker: Seq<char>)
    requires
        start >= 0,
    ensures
        match first_marker(chars, start, marker) {
            Some(i) => start <= i && marker_at(chars, marker, i) && forall|j: int|
                start <= j < i ==> !marker_at(chars, marker, j),
            None => forall|j: int| start <= j ==> !marker_at(chars, marker, j),
        },
    decreases chars.len() + 1 - start,
{
    if start + marker.len() > chars.len() {
    } else if marker_at(chars, marker, start) {
    } else {
        lemma_first_marker(chars, start + 1, marker);
    }
}

proof fn lemma_first_marker_is(chars: Seq<char>, start: int, marker: Seq<char>, i: int)
    requires
        0 <= start <= i,
        marker_at(chars, marker, i),
        forall|j: int| start <= j < i ==> !marker_at(chars, marker, j),
    ensures
        first_marker(chars, start, marker) == Some(i),
{
    lemma_first_marker(chars, start, marker);
}

/// The first position at or after `start` where `marker` occurs.
pub fn find_closing_marker(chars: &[char], start: usize, marker: &str) -> (r: Option<usize>)
    ensures
        match r {
            Some(i) => start <= i && marker_at(chars@, marker@, i as int) && forall|j: int|
                start <= j < i ==> !marker_at(chars@, marker@, j),
            None => forall|j: int| start <= j ==> !marker_at(chars@, marker@, j),
        },
        r == match first_marker(chars@, start as int, marker@) {
            Some(i) => Some(i as usize),
            None => None::<usize>,
        },
{
    proof {
        lemma_first_marker(chars@, start as int, marker@);
    }
    let m = chars_of(marker);
    let ml = m.len();
    let mut i = start;
    while i <= chars.len() && ml <= chars.len() - i
        invariant
            start <= i,
            m@ == marker@,
            ml == m@.len(),
            forall|j: int| start <= j < i ==> !marker_at(chars@, marker@, j),
        decreases chars.len() + 1 - i,
    {
        let mut matches = true;
        let mut j: usize = 0;
        while j < ml
            invariant
                j <= ml,
                ml == m@.len(),
                i + ml <= chars@.len(),
                i + ml <= chars.len(),
                matches == (forall|q: int| 0 <= q < j ==> chars@[i + q] == m@[q]),
            decreases ml - j,
        {
            if chars[i + j] != m[j] {
                matches = false;
            }
            j += 1;
        }
        if matches {
            assert(chars@.subrange(i as int, i + ml) =~= m@);
            proof {
                lemma_first_marker_is(chars@, start as int, marker@, i as int);
            }
            return Some(i);
        }
        proof {
            let q = choose|q: int| 0 <= q < ml && chars@[i + q] != m@[q];
            assert(chars@.subrange(i as int, i + ml)[q] != m@[q]);
        }
        i += 1;
    }
    assert forall|j: int| start <= j implies !marker_at(chars@, marker@, j) by {
        if j >= i {
        }
    }
    None
}

} // verus!
