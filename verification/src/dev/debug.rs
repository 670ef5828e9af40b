//! The buffer of recent log lines shown in the log panel.
use crate::text::{chars_of, string_of, trim, trim_vec};
use vstd::prelude::*;
use vstd::utf8::{decode_utf8, valid_utf8};

verus! {

/// Most log lines the buffer keeps.
pub const MAX_LOG_LINES: usize = 100;

/// `std::str::from_utf8`, the text as an owned string: `Some` exactly for
/// valid UTF-8, holding the decoded characters.
#[verifier::external_body]
pub(crate) fn utf8_text(bytes: &[u8]) -> (r: Option<String>)
    ensures
        r is Some <==> valid_utf8(bytes@),
        r matches Some(s) ==> s@ == decode_utf8(bytes@),
{
    match std::str::from_utf8(bytes) {
        Ok(s) => Some(s.to_string()),
        Err(_) => None,
    }
}

/// The most recent log lines, oldest first.
#[derive(Debug, Clone)]
pub struct LogBuffer {
    lines: Vec<String>,
}

/// The lines after one more is written: a line that is empty once trimmed
/// is dropped, and the oldest line goes when there are more than the limit.
pub open spec fn after_write(lines: Seq<Seq<char>>, text: Seq<char>) -> Seq<Seq<char>> {
    let t = trim(text);
    if t.len() == 0 {
        lines
    } else if lines.len() + 1 > MAX_LOG_LINES {
        lines.push(t).drop_first()
    } else {
        lines.push(t)
    }
}

impl LogBuffer {
    /// The lines, by value.
    pub closed spec fn view_lines(&self) -> Seq<Seq<char>> {
        self.lines@.map_values(|s: String| s@)
    }

    pub fn new() -> (b: LogBuffer)
        ensures
            b.view_lines() == Seq::<Seq<char>>::empty(),
    {
        let b = LogBuffer { lines: Vec::new() };
        assert(b.view_lines() =~= Seq::<Seq<char>>::empty());
        b
    }

    /// Takes the bytes a logger wrote: when they are UTF-8 their trimmed
    /// text becomes a line. Returns how many bytes were taken (all of them).
    pub fn write(&mut self, buf: &[u8]) -> (n: usize)
        ensures
            n == buf@.len(),
            valid_utf8(buf@) ==> final(self).view_lines() == after_write(
                old(self).view_lines(),
                decode_utf8(buf@),
            ),
            !valid_utf8(buf@) ==> final(self).view_lines() == old(self).view_lines(),
    {
        match utf8_text(buf) {
            Some(s) => {
                let t = trim_vec(&chars_of(s.as_str()));
                if t.len() > 0 {
                    let ghost before = self.lines@;
                    self.lines.push(string_of(&t));
                    assert(self.lines@.map_values(|s: String| s@) =~= before.map_values(
                        |s: String| s@,
                    ).push(t@));
                    if self.lines.len() > MAX_LOG_LINES {
                        let ghost full = self.lines@;
                        self.lines.remove(0);
                        assert(self.lines@.map_values(|s: String| s@) =~= full.map_values(
                            |s: String| s@,
                        ).drop_first());
                    }
                }
            },
            None => {},
        }
        buf.len()
    }

    /// A copy of the lines, oldest first.
    pub fn lines(&self) -> (r: Vec<String>)
        ensures
            r@.map_values(|s: String| s@) == self.view_lines(),
    {
        let mut r: Vec<String> = Vec::new();
        let mut i: usize = 0;
        while i < self.lines.len()
            invariant
                i <= self.lines@.len(),
                r@.map_values(|s: String| s@) == self.lines@.take(i as int).map_values(
                    |s: String| s@,
                ),
            decreases self.lines@.len() - i,
        {
            let ghost before = r@;
            let c = self.lines[i].clone();
            r.push(c);
            assert(r@ =~= before.push(c));
            assert(c == self.lines@[i as int]);
            assert(self.lines@.take(i + 1) =~= self.lines@.take(i as int).push(self.lines@[i as int]));
            assert(r@.map_values(|s: String| s@) =~= before.map_values(|s: String| s@).push(c@));
            assert(r@.map_values(|s: String| s@) =~= self.lines@.take(i + 1).map_values(
                |s: String| s@,
            ));
            i += 1;
        }
        assert(self.lines@.take(self.lines@.len() as int) =~= self.lines@);
        r
    }
}

} // verus!
