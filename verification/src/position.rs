//! Where a byte of a source text lies: its line, its place in the line, and
//! the ends of the line around it.

use vstd::prelude::*;

verus! {

/// The carriage return.
pub const CHAR_CR: u8 = 0x0d;

/// The line feed.
pub const CHAR_LF: u8 = 0x0a;

/// The number of line feeds in `text`.
pub open spec fn count_lf(text: Seq<u8>) -> nat
    decreases text.len(),
{
    if text.len() == 0 {
        0
    } else {
        count_lf(text.drop_last()) + if text.last() == CHAR_LF {
            1nat
        } else {
            0nat
        }
    }
}

/// The place of the last line feed at or before `pos`, if there is one.
pub open spec fn last_lf(text: Seq<u8>, pos: int) -> Option<int>
    decreases pos + 1,
{
    if pos < 0 || pos >= text.len() {
        None
    } else if text[pos] == CHAR_LF {
        Some(pos)
    } else {
        last_lf(text, pos - 1)
    }
}

/// The place of the first carriage return or line feed at or after `pos`; the
/// length of `text` where none follows.
pub open spec fn line_end(text: Seq<u8>, pos: int) -> int
    decreases text.len() - pos,
{
    if pos < 0 || pos >= text.len() {
        text.len() as int
    } else if text[pos] == CHAR_CR || text[pos] == CHAR_LF {
        pos
    } else {
        line_end(text, pos + 1)
    }
}

/// The place of one byte in a source text.
#[derive(Debug)]
pub struct Position {
    /// The offset of the byte.
    pub pos: usize,
    /// The number of the line: one more than the number of line feeds up to
    /// and including the byte.
    pub line: usize,
    /// The distance of the byte from the last line feed at or before it, or
    /// one more than its offset where there is none.
    pub column: usize,
    /// The offset of the first carriage return or line feed at or after the
    /// byte, or the length of the text.
    pub next_crlf: usize,
    /// The offset of the last line feed at or before the byte.
    pub last_lf: Option<usize>,
}

impl Position {
    /// Whether the offsets lie as they do around a byte of a text: the last
    /// line feed at or before the byte, the end of the line at or after it.
    pub open spec fn wf(self) -> bool {
        &&& self.pos < usize::MAX
        &&& self.pos <= self.next_crlf
        &&& self.last_lf matches Some(i) ==> i <= self.pos
    }

    /// The place of the byte at offset `pos` of `text`.
    pub open spec fn at(text: Seq<u8>, pos: int) -> Position {
        Position {
            pos: pos as usize,
            line: (1 + count_lf(text.take(pos + 1))) as usize,
            column: match last_lf(text, pos) {
                Some(i) => (pos - i) as usize,
                None => (pos + 1) as usize,
            },
            next_crlf: line_end(text, pos) as usize,
            last_lf: match last_lf(text, pos) {
                Some(i) => Some(i as usize),
                None => None,
            },
        }
    }

    /// Finds the byte at offset `pos` of `text`; there is none at or beyond
    /// the end of the text.
    pub fn locate(text: &[u8], pos: usize) -> (found: Option<Position>)
        requires
            text@.len() < usize::MAX,
        ensures
            found == if pos < text@.len() {
                Some(Position::at(text@, pos as int))
            } else {
                None
            },
            found matches Some(p) ==> p.wf(),
    {
        let len = text.len();
        if pos >= len {
            return None;
        }
        let mut line: usize = 1;
        let mut last: Option<usize> = None;
        let mut i: usize = 0;
        assert(text@.take(0) =~= Seq::<u8>::empty());
        while i <= pos
            invariant
                i <= pos + 1,
                pos < len,
                len == text@.len(),
                len < usize::MAX,
                line == 1 + count_lf(text@.take(i as int)),
                line <= 1 + i,
                match last_lf(text@, i - 1) {
                    Some(j) => last == Some(j as usize),
                    None => last.is_none(),
                },
            decreases pos + 1 - i,
        {
            proof {
                assert(text@.take(i + 1).drop_last() =~= text@.take(i as int));
                assert(text@.take(i + 1).last() == text@[i as int]);
            }
            if text[i] == CHAR_LF {
                line += 1;
                last = Some(i);
            }
            i += 1;
        }
        let column = match last {
            Some(j) => {
                proof {
                    lemma_last_lf_bound(text@, pos as int);
                }
                pos - j
            },
            None => pos + 1,
        };
        let mut next_crlf: usize = pos;
        while next_crlf < len
            invariant
                pos <= next_crlf <= len,
                len == text@.len(),
                line_end(text@, next_crlf as int) == line_end(text@, pos as int),
            ensures
                pos <= next_crlf <= len,
                line_end(text@, pos as int) == next_crlf,
            decreases len - next_crlf,
        {
            if text[next_crlf] == CHAR_CR || text[next_crlf] == CHAR_LF {
                break;
            }
            next_crlf += 1;
        }
        Some(Position { pos, line, column, next_crlf, last_lf: last })
    }

    /// The offset at which the line of the byte starts: behind the last line
    /// feed at or before the byte.
    pub fn line_start(&self) -> (start: usize)
        requires
            self.wf(),
        ensures
            start == match self.last_lf {
                Some(i) => i + 1,
                None => 0,
            },
    {
        match self.last_lf {
            Some(i) => i + 1,
            None => 0,
        }
    }

    /// The number of bytes that a mark of `len` bytes at the byte covers in
    /// its line: the mark stops where the line ends.
    pub fn mark_len(&self, len: usize) -> (covered: usize)
        requires
            self.wf(),
        ensures
            covered == if self.pos + len <= self.next_crlf {
                len as int
            } else {
                self.next_crlf - self.pos
            },
    {
        if len <= self.next_crlf - self.pos {
            len
        } else {
            self.next_crlf - self.pos
        }
    }
}

/// The last line feed at or before a byte lies at or before it.
pub proof fn lemma_last_lf_bound(text: Seq<u8>, pos: int)
    ensures
        last_lf(text, pos) matches Some(i) ==> 0 <= i <= pos && i < text.len() && text[i]
            == CHAR_LF,
    decreases pos + 1,
{
    if 0 <= pos < text.len() && text[pos] != CHAR_LF {
        lemma_last_lf_bound(text, pos - 1);
    }
}

} // verus!
