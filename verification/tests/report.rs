use morty::report::{decimal_text, repeat, report_error, report_pretty, report_single, Color, Segment};

const SRC: &str = "module m;\n  wire x\nendmodule\n";

fn pieces(segments: &[Segment]) -> Vec<(&str, Color)> {
    segments.iter().map(|s| (s.text.as_str(), s.color)).collect()
}

#[test]
fn decimal_text_writes_numbers() {
    assert_eq!(decimal_text(0), "0");
    assert_eq!(decimal_text(7), "7");
    assert_eq!(decimal_text(10), "10");
    assert_eq!(decimal_text(12345), "12345");
    assert_eq!(decimal_text(9876543210), "9876543210");
    assert_eq!(decimal_text(usize::MAX), format!("{}", usize::MAX));
}

#[test]
fn repeat_writes_a_piece_several_times() {
    assert_eq!(repeat("^", 0), "");
    assert_eq!(repeat("^", 3), "^^^");
    assert_eq!(repeat("ab", 2), "abab");
}

#[test]
fn single_line_message() {
    let out = report_single(SRC.as_bytes(), 12, "Error", "a.sv", Some("parse error"));
    assert_eq!(
        pieces(&out),
        vec![
            ("Error", Color::BrightRed),
            ("\ta.sv:2:3", Color::BrightBlue),
            ("\twire x", Color::White),
            ("\thint: parse error", Color::BrightYellow),
            ("\n", Color::Reset),
        ]
    );
}

#[test]
fn single_line_message_without_hint() {
    let out = report_single(SRC.as_bytes(), 0, "Warning", "dir/a.sv", None);
    assert_eq!(
        pieces(&out),
        vec![
            ("Warning", Color::BrightRed),
            ("\tdir/a.sv:1:1", Color::BrightBlue),
            ("\tmodule m;", Color::White),
            ("\n", Color::Reset),
        ]
    );
}

#[test]
fn no_message_beyond_the_end_of_the_text() {
    assert!(report_single(SRC.as_bytes(), SRC.len(), "Error", "a.sv", None).is_empty());
    assert!(report_pretty(SRC.as_bytes(), SRC.len() + 5, 1, "Error", "d", "a.sv", None, None).is_empty());
    assert!(report_pretty(b"", 0, 1, "Error", "d", "a.sv", None, None).is_empty());
}

#[test]
fn pretty_message() {
    let out = report_pretty(SRC.as_bytes(), 12, 1, "Error", "parse error", "a.sv", None, None);
    assert_eq!(
        pieces(&out),
        vec![
            ("Error", Color::BrightRed),
            (": parse error\n", Color::BrightWhite),
            ("   -->", Color::BrightBlue),
            (" a.sv:2:3\n", Color::White),
            ("  |\n", Color::BrightBlue),
            ("2 |", Color::BrightBlue),
            ("   wire x\n", Color::White),
            ("  |", Color::BrightBlue),
            ("   ^", Color::BrightYellow),
            ("\n", Color::Reset),
        ]
    );
}

#[test]
fn pretty_message_with_hint_and_reason() {
    let out = report_pretty(SRC.as_bytes(), 12, 4, "Error", "d", "a.sv", Some("h"), Some("r"));
    assert_eq!(
        pieces(&out),
        vec![
            ("Error", Color::BrightRed),
            (": d\n", Color::BrightWhite),
            ("   -->", Color::BrightBlue),
            (" a.sv:2:3\n", Color::White),
            ("  |\n", Color::BrightBlue),
            ("2 |", Color::BrightBlue),
            ("   wire x\n", Color::White),
            ("  |", Color::BrightBlue),
            ("   ^^^^", Color::BrightYellow),
            (" hint  : h\n", Color::BrightYellow),
            ("  |", Color::BrightBlue),
            ("       ", Color::Yellow),
            (" reason: r\n", Color::Yellow),
            ("\n", Color::Reset),
        ]
    );
}

#[test]
fn the_mark_stops_at_the_end_of_the_line() {
    let out = report_pretty(SRC.as_bytes(), 16, 100, "Error", "d", "a.sv", None, None);
    assert_eq!(out[3].text, " a.sv:2:7\n");
    assert_eq!(out[8].text, "       ^^");
}

#[test]
fn the_margin_grows_with_the_line_number() {
    let src = format!("{}x\n", "\n".repeat(11));
    let out = report_pretty(src.as_bytes(), 11, 1, "Error", "d", "a.sv", None, None);
    assert_eq!(out[3].text, " a.sv:12:1\n");
    assert_eq!(out[4].text, "   |\n");
    assert_eq!(out[5].text, "12 |");
    assert_eq!(out[6].text, " x\n");
    assert_eq!(out[7].text, "   |");
    assert_eq!(out[8].text, " ^");
}

#[test]
fn bytes_that_are_no_text_are_replaced() {
    let out = report_single(b"a\xffb\nc", 0, "Error", "a.sv", None);
    assert_eq!(out[2].text, "\ta\u{fffd}b");
}

#[test]
fn plain_error_message() {
    let out = report_error("no source file given");
    assert_eq!(
        pieces(&out),
        vec![
            ("Error", Color::BrightRed),
            (": no source file given", Color::BrightWhite),
            ("\n", Color::Reset),
        ]
    );
}
