//! Error messages that point into a source text, as colored pieces of text.

use vstd::prelude::*;
use crate::position::{lemma_last_lf_bound, Position, CHAR_LF};

verus! {

/// The color that a piece of a message is written in.
#[derive(Debug, Clone, Copy, PartialEq, Eq)]
pub enum Color {
    Yellow,
    White,
    BrightRed,
    BrightYellow,
    BrightBlue,
    BrightWhite,
    /// The terminal's own color.
    Reset,
}

/// A piece of a message.
#[derive(Debug)]
pub struct Segment {
    pub text: String,
    pub color: Color,
}

/// What a [`Segment`] says.
pub struct SegmentView {
    pub text: Seq<char>,
    pub color: Color,
}

impl View for Segment {
    type V = SegmentView;

    open spec fn view(&self) -> SegmentView {
        SegmentView { text: self.text@, color: self.color }
    }
}

/// What each of the segments says, in the same order.
pub open spec fn segments_view(segments: Seq<Segment>) -> Seq<SegmentView> {
    segments.map_values(|s: Segment| s@)
}

/// The text that `String::from_utf8_lossy` makes of `bytes`.
pub uninterp spec fn utf8_lossy(bytes: Seq<u8>) -> Seq<char>;

/// Calls `String::from_utf8_lossy`, which decodes the bytes as UTF-8 and
/// puts a replacement character for what is no UTF-8. Nothing is claimed
/// about the text, only that it is determined by the bytes, which the name
/// [`utf8_lossy`] stands for.
#[verifier::external_body]
fn lossy_text(bytes: &[u8]) -> (text: String)
    ensures
        text@ == utf8_lossy(bytes@),
{
    String::from_utf8_lossy(bytes).into_owned()
}

/// The decimal digit for `d`.
pub open spec fn digit(d: nat) -> char {
    if d == 0 {
        '0'
    } else if d == 1 {
        '1'
    } else if d == 2 {
        '2'
    } else if d == 3 {
        '3'
    } else if d == 4 {
        '4'
    } else if d == 5 {
        '5'
    } else if d == 6 {
        '6'
    } else if d == 7 {
        '7'
    } else if d == 8 {
        '8'
    } else {
        '9'
    }
}

/// The number in decimal digits.
pub open spec fn decimal(n: nat) -> Seq<char>
    decreases n,
{
    if n < 10 {
        seq![digit(n)]
    } else {
        decimal(n / 10) + seq![digit(n % 10)]
    }
}

/// `piece` written `n` times.
pub open spec fn repeated(piece: Seq<char>, n: nat) -> Seq<char>
    decreases n,
{
    if n == 0 {
        Seq::empty()
    } else {
        repeated(piece, (n - 1) as nat) + piece
    }
}

/// The empty margin beside a line of source text: as wide as the number of
/// the line, and one space more.
pub open spec fn margin(at: Position) -> Seq<char> {
    repeated(" "@, decimal(at.line as nat).len()) + " "@
}

/// The offset at which the line of a byte starts.
pub open spec fn line_start_of(at: Position) -> int {
    match at.last_lf {
        Some(i) => i + 1,
        None => 0,
    }
}

/// The number of bytes that a mark of `len` bytes covers in its line.
pub open spec fn mark_of(at: Position, len: nat) -> nat {
    if at.pos + len <= at.next_crlf {
        len
    } else {
        (at.next_crlf - at.pos) as nat
    }
}

/// A piece that is there only where its text is.
pub open spec fn optional(lead: Seq<char>, text: Option<Seq<char>>, color: Color) -> Seq<
    SegmentView,
> {
    match text {
        Some(t) => seq![SegmentView { text: lead + t + "\n"@, color }],
        None => Seq::empty(),
    }
}

/// The message on a single line: the header, where the byte lies, the rest of
/// its line, and a hint.
pub open spec fn single_segments(
    src: Seq<u8>,
    at: Position,
    header: Seq<char>,
    path: Seq<char>,
    hint: Option<Seq<char>>,
) -> Seq<SegmentView> {
    seq![
        SegmentView { text: header, color: Color::BrightRed },
        SegmentView {
            text: "\t"@ + path + ":"@ + decimal(at.line as nat) + ":"@ + decimal(at.column as nat),
            color: Color::BrightBlue,
        },
        SegmentView {
            text: "\t"@ + utf8_lossy(src.subrange(at.pos as int, at.next_crlf as int)),
            color: Color::White,
        },
    ] + (match hint {
        Some(h) => seq![SegmentView { text: "\thint: "@ + h, color: Color::BrightYellow }],
        None => Seq::empty(),
    }) + seq![SegmentView { text: "\n"@, color: Color::Reset }]
}

/// The message over several lines: the header and the description, where
/// the byte lies, its line of source text, and a mark beneath the byte, with
/// a hint and a reason beside it.
pub open spec fn pretty_segments(
    src: Seq<u8>,
    at: Position,
    len: nat,
    header: Seq<char>,
    description: Seq<char>,
    path: Seq<char>,
    hint: Option<Seq<char>>,
    reason: Option<Seq<char>>,
) -> Seq<SegmentView> {
    let indent = repeated(" "@, (at.pos - line_start_of(at)) as nat);
    let mark = mark_of(at, len);
    seq![
        SegmentView { text: header, color: Color::BrightRed },
        SegmentView { text: ": "@ + description + "\n"@, color: Color::BrightWhite },
        SegmentView { text: "   -->"@, color: Color::BrightBlue },
        SegmentView {
            text: " "@ + path + ":"@ + decimal(at.line as nat) + ":"@ + decimal(
                at.column as nat,
            ) + "\n"@,
            color: Color::White,
        },
        SegmentView { text: margin(at) + "|\n"@, color: Color::BrightBlue },
        SegmentView { text: decimal(at.line as nat) + " |"@, color: Color::BrightBlue },
        SegmentView {
            text: " "@ + utf8_lossy(src.subrange(line_start_of(at), at.next_crlf as int)) + "\n"@,
            color: Color::White,
        },
        SegmentView { text: margin(at) + "|"@, color: Color::BrightBlue },
        SegmentView { text: " "@ + indent + repeated("^"@, mark), color: Color::BrightYellow },
    ] + optional(" hint  : "@, hint, Color::BrightYellow) + (match reason {
        Some(r) => seq![
            SegmentView { text: margin(at) + "|"@, color: Color::BrightBlue },
            SegmentView { text: " "@ + indent + repeated(" "@, mark), color: Color::Yellow },
            SegmentView { text: " reason: "@ + r + "\n"@, color: Color::Yellow },
        ],
        None => Seq::empty(),
    }) + seq![SegmentView { text: "\n"@, color: Color::Reset }]
}

/// The text of an optional argument.
pub open spec fn text_of(text: Option<&str>) -> Option<Seq<char>> {
    match text {
        Some(t) => Some(t@),
        None => None,
    }
}

fn digit_text(d: usize) -> (text: &'static str)
    requires
        d < 10,
    ensures
        text@ == seq![digit(d as nat)],
{
    proof {
        reveal_strlit("0");
        reveal_strlit("1");
        reveal_strlit("2");
        reveal_strlit("3");
        reveal_strlit("4");
        reveal_strlit("5");
        reveal_strlit("6");
        reveal_strlit("7");
        reveal_strlit("8");
        reveal_strlit("9");
    }
    let text = if d == 0 {
        "0"
    } else if d == 1 {
        "1"
    } else if d == 2 {
        "2"
    } else if d == 3 {
        "3"
    } else if d == 4 {
        "4"
    } else if d == 5 {
        "5"
    } else if d == 6 {
        "6"
    } else if d == 7 {
        "7"
    } else if d == 8 {
        "8"
    } else {
        "9"
    };
    assert(text@ =~= seq![digit(d as nat)]);
    text
}

/// The number in decimal digits.
pub fn decimal_text(n: usize) -> (text: String)
    ensures
        text@ == decimal(n as nat),
    decreases n,
{
    if n < 10 {
        String::from_str(digit_text(n))
    } else {
        let mut text = decimal_text(n / 10);
        text.append(digit_text(n % 10));
        text
    }
}

/// `piece` written `n` times.
pub fn repeat(piece: &str, n: usize) -> (text: String)
    ensures
        text@ == repeated(piece@, n as nat),
{
    let mut text = String::new();
    let mut i: usize = 0;
    while i < n
        invariant
            i <= n,
            text@ == repeated(piece@, i as nat),
        decreases n - i,
    {
        text.append(piece);
        i += 1;
    }
    text
}

fn margin_text(at: &Position) -> (text: String)
    ensures
        text@ == margin(*at),
{
    let digits = decimal_text(at.line);
    let mut text = repeat(" ", digits.as_str().unicode_len());
    text.append(" ");
    text
}

fn push_segment(out: &mut Vec<Segment>, text: String, color: Color)
    ensures
        segments_view(final(out)@) == segments_view(old(out)@).push(
            SegmentView { text: text@, color },
        ),
{
    let segment = Segment { text, color };
    out.push(segment);
    assert(segments_view(out@) =~= segments_view(old(out)@).push(segment@));
}

fn place_text(lead: &str, path: &str, at: &Position) -> (text: String)
    ensures
        text@ == lead@ + path@ + ":"@ + decimal(at.line as nat) + ":"@ + decimal(at.column as nat),
{
    let mut text = String::from_str(lead);
    text.append(path);
    text.append(":");
    text.append(decimal_text(at.line).as_str());
    text.append(":");
    text.append(decimal_text(at.column).as_str());
    text
}

/// The message on a single line about the byte at offset `print_pos` of
/// `src`; no message where the offset lies at or beyond the end of `src`.
pub fn report_single(src: &[u8], print_pos: usize, header: &str, path: &str, hint: Option<&str>) -> (out:
    Vec<Segment>)
    requires
        src@.len() < usize::MAX,
    ensures
        segments_view(out@) == if print_pos < src@.len() {
            single_segments(
                src@,
                Position::at(src@, print_pos as int),
                header@,
                path@,
                text_of(hint),
            )
        } else {
            Seq::empty()
        },
{
    let mut out: Vec<Segment> = Vec::new();
    assert(segments_view(out@) =~= Seq::empty());
    match Position::locate(src, print_pos) {
        None => {},
        Some(at) => {
            proof {
                lemma_line_end_bound(src@, print_pos as int);
            }
            push_segment(&mut out, String::from_str(header), Color::BrightRed);
            push_segment(&mut out, place_text("\t", path, &at), Color::BrightBlue);
            let mut rest = String::from_str("\t");
            rest.append(lossy_text(&src[at.pos..at.next_crlf]).as_str());
            push_segment(&mut out, rest, Color::White);
            match hint {
                Some(h) => {
                    let mut text = String::from_str("\thint: ");
                    text.append(h);
                    push_segment(&mut out, text, Color::BrightYellow);
                },
                None => {},
            }
            push_segment(&mut out, String::from_str("\n"), Color::Reset);
            assert(segments_view(out@) =~= single_segments(
                src@,
                at,
                header@,
                path@,
                text_of(hint),
            ));
        },
    }
    out
}

/// The message over several lines about the `print_len` bytes at offset
/// `print_pos` of `src`; no message where the offset lies at or beyond the
/// end of `src`. The byte at the offset must not be a line feed: there is no
/// place in a line to mark it at.
pub fn report_pretty(
    src: &[u8],
    print_pos: usize,
    print_len: usize,
    header: &str,
    description: &str,
    path: &str,
    hint: Option<&str>,
    reason: Option<&str>,
) -> (out: Vec<Segment>)
    requires
        src@.len() < usize::MAX,
        print_pos < src@.len() ==> src@[print_pos as int] != CHAR_LF,
    ensures
        segments_view(out@) == if print_pos < src@.len() {
            pretty_segments(
                src@,
                Position::at(src@, print_pos as int),
                print_len as nat,
                header@,
                description@,
                path@,
                text_of(hint),
                text_of(reason),
            )
        } else {
            Seq::empty()
        },
{
    let mut out: Vec<Segment> = Vec::new();
    assert(segments_view(out@) =~= Seq::empty());
    match Position::locate(src, print_pos) {
        None => {},
        Some(at) => {
            proof {
                lemma_line_end_bound(src@, print_pos as int);
                lemma_last_lf_bound(src@, print_pos as int);
            }
            let beg = at.line_start();
            let mark = at.mark_len(print_len);
            assert(beg <= at.pos);
            push_segment(&mut out, String::from_str(header), Color::BrightRed);
            let mut text = String::from_str(": ");
            text.append(description);
            text.append("\n");
            push_segment(&mut out, text, Color::BrightWhite);
            push_segment(&mut out, String::from_str("   -->"), Color::BrightBlue);
            let mut text = place_text(" ", path, &at);
            text.append("\n");
            push_segment(&mut out, text, Color::White);
            let mut text = margin_text(&at);
            text.append("|\n");
            push_segment(&mut out, text, Color::BrightBlue);
            let mut text = decimal_text(at.line);
            text.append(" |");
            push_segment(&mut out, text, Color::BrightBlue);
            let mut text = String::from_str(" ");
            text.append(lossy_text(&src[beg..at.next_crlf]).as_str());
            text.append("\n");
            push_segment(&mut out, text, Color::White);
            let mut text = margin_text(&at);
            text.append("|");
            push_segment(&mut out, text, Color::BrightBlue);
            let mut text = String::from_str(" ");
            text.append(repeat(" ", at.pos - beg).as_str());
            text.append(repeat("^", mark).as_str());
            push_segment(&mut out, text, Color::BrightYellow);
            match hint {
                Some(h) => {
                    let mut text = String::from_str(" hint  : ");
                    text.append(h);
                    text.append("\n");
                    push_segment(&mut out, text, Color::BrightYellow);
                },
                None => {},
            }
            match reason {
                Some(r) => {
                    let mut text = margin_text(&at);
                    text.append("|");
                    push_segment(&mut out, text, Color::BrightBlue);
                    let mut text = String::from_str(" ");
                    text.append(repeat(" ", at.pos - beg).as_str());
                    text.append(repeat(" ", mark).as_str());
                    push_segment(&mut out, text, Color::Yellow);
                    let mut text = String::from_str(" reason: ");
                    text.append(r);
                    text.append("\n");
                    push_segment(&mut out, text, Color::Yellow);
                },
                None => {},
            }
            push_segment(&mut out, String::from_str("\n"), Color::Reset);
            assert(segments_view(out@) =~= pretty_segments(
                src@,
                at,
                print_len as nat,
                header@,
                description@,
                path@,
                text_of(hint),
                text_of(reason),
            ));
        },
    }
    out
}

/// The plain message about an error that points nowhere.
pub fn report_error(error: &str) -> (out: Vec<Segment>)
    ensures
        segments_view(out@) == seq![
            SegmentView { text: "Error"@, color: Color::BrightRed },
            SegmentView { text: ": "@ + error@, color: Color::BrightWhite },
            SegmentView { text: "\n"@, color: Color::Reset },
        ],
{
    let mut out: Vec<Segment> = Vec::new();
    assert(segments_view(out@) =~= Seq::empty());
    push_segment(&mut out, String::from_str("Error"), Color::BrightRed);
    let mut text = String::from_str(": ");
    text.append(error);
    push_segment(&mut out, text, Color::BrightWhite);
    push_segment(&mut out, String::from_str("\n"), Color::Reset);
    out
}

/// The end of the line of a byte lies at or after the byte and within the
/// text.
pub proof fn lemma_line_end_bound(text: Seq<u8>, pos: int)
    requires
        0 <= pos <= text.len(),
    ensures
        pos <= crate::position::line_end(text, pos) <= text.len(),
    decreases text.len() - pos,
{
    if pos < text.len() && text[pos] != crate::position::CHAR_CR && text[pos] != CHAR_LF {
        lemma_line_end_bound(text, pos + 1);
    }
}

} // verus!
