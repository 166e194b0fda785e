use morty::Position;

fn at(text: &str, pos: usize) -> (usize, usize, usize, usize, Option<usize>) {
    let p = Position::locate(text.as_bytes(), pos).expect("inside the text");
    (p.pos, p.line, p.column, p.next_crlf, p.last_lf)
}

#[test]
fn nothing_is_found_at_or_beyond_the_end() {
    assert!(Position::locate(b"", 0).is_none());
    assert!(Position::locate(b"abc", 3).is_none());
    assert!(Position::locate(b"abc", 100).is_none());
}

#[test]
fn positions_in_the_first_line() {
    assert_eq!(at("abc", 0), (0, 1, 1, 3, None));
    assert_eq!(at("abc", 2), (2, 1, 3, 3, None));
    assert_eq!(at("abc\ndef", 1), (1, 1, 2, 3, None));
}

#[test]
fn positions_in_later_lines() {
    let text = "module m;\n  wire x\nendmodule\n";
    assert_eq!(at(text, 12), (12, 2, 3, 18, Some(9)));
    assert_eq!(at(text, 19), (19, 3, 1, 28, Some(18)));
}

#[test]
fn a_line_feed_counts_for_its_own_position() {
    assert_eq!(at("ab\ncd", 2), (2, 2, 0, 2, Some(2)));
    assert_eq!(at("\n", 0), (0, 2, 0, 0, Some(0)));
}

#[test]
fn a_carriage_return_ends_the_line_but_counts_no_line() {
    assert_eq!(at("ab\r\ncd", 0), (0, 1, 1, 2, None));
    assert_eq!(at("ab\r\ncd", 2), (2, 1, 3, 2, None));
    assert_eq!(at("ab\r\ncd", 4), (4, 2, 1, 6, Some(3)));
}

#[test]
fn line_start_lies_behind_the_last_line_feed() {
    let text = b"ab\ncd\nef";
    assert_eq!(Position::locate(text, 1).unwrap().line_start(), 0);
    assert_eq!(Position::locate(text, 4).unwrap().line_start(), 3);
    assert_eq!(Position::locate(text, 5).unwrap().line_start(), 6);
}

#[test]
fn a_mark_stops_at_the_end_of_the_line() {
    let p = Position::locate(b"ab\ncdef\ngh", 4).unwrap();
    assert_eq!(p.mark_len(0), 0);
    assert_eq!(p.mark_len(1), 1);
    assert_eq!(p.mark_len(3), 3);
    assert_eq!(p.mark_len(4), 3);
    assert_eq!(p.mark_len(usize::MAX), 3);
}
