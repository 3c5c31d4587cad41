use weld::io::{shorten_dir_with_home, Content, LineEnding};

fn load(raw: &str) -> Content {
    Content::from_text("test.txt".to_string(), raw)
}

#[test]
fn load_lf_file() {
    let content = load("line1\nline2\nline3\n");
    assert_eq!(content.lines, vec!["line1", "line2", "line3"]);
    assert_eq!(content.line_ending, LineEnding::Lf);
    assert!(content.has_trailing_newline);
}

#[test]
fn load_crlf_file() {
    let content = load("line1\r\nline2\r\nline3\r\n");
    assert_eq!(content.lines, vec!["line1", "line2", "line3"]);
    assert_eq!(content.line_ending, LineEnding::CrLf);
    assert!(content.has_trailing_newline);
}

#[test]
fn load_no_trailing_newline() {
    let content = load("line1\nline2");
    assert_eq!(content.lines, vec!["line1", "line2"]);
    assert!(!content.has_trailing_newline);
}

#[test]
fn save_preserves_lf() {
    let content = load("line1\nline2\n");
    assert_eq!(content.saved_text(), "line1\nline2\n");
}

#[test]
fn save_preserves_crlf() {
    let content = load("line1\r\nline2\r\n");
    assert_eq!(content.saved_text(), "line1\r\nline2\r\n");
}

#[test]
fn save_preserves_no_trailing_newline() {
    let content = load("line1\nline2");
    assert_eq!(content.saved_text(), "line1\nline2");
}

#[test]
fn text_returns_lf_normalized() {
    let content = load("a\r\nb\r\n");
    assert_eq!(content.text(), "a\nb\n");
}

#[test]
fn text_no_trailing_newline() {
    let content = load("a\nb");
    assert_eq!(content.text(), "a\nb");
}

#[test]
fn load_empty_file() {
    let content = Content::from_text("empty.txt".to_string(), "");
    assert!(content.lines.is_empty());
    assert!(!content.has_trailing_newline);
    assert_eq!(content.line_ending, LineEnding::Lf);
}

#[test]
fn round_trip_empty_file() {
    let content = Content::from_text("empty.txt".to_string(), "");
    assert_eq!(content.saved_text(), "");
}

#[test]
fn round_trip_no_trailing_newline() {
    let original = "hello\nworld";
    let content = load(original);
    assert_eq!(original, content.saved_text());
}

#[test]
fn round_trip_identical_bytes() {
    let original = "func main() {\n\tfmt.Println(\"hello\")\n}\n";
    let content = Content::from_text("round.txt".to_string(), original);
    assert_eq!(original, content.saved_text());
}

#[test]
fn mixed_line_endings_normalizes_to_detected() {
    let content = Content::from_text("mixed.txt".to_string(), "line1\r\nline2\nline3\n");
    assert_eq!(content.line_ending, LineEnding::CrLf);
    assert_eq!(content.lines, vec!["line1", "line2", "line3"]);
    assert_eq!(content.saved_text(), "line1\r\nline2\r\nline3\r\n");
}

#[test]
fn shorten_dir_replaces_home() {
    let home = "/home/someone";
    let input = format!("{home}/projects/weld");
    assert_eq!(shorten_dir_with_home(&input, Some(home)), "~/projects/weld");
}

#[test]
fn shorten_dir_home_alone() {
    let home = "/home/someone";
    assert_eq!(shorten_dir_with_home(home, Some(home)), "~");
}

#[test]
fn shorten_dir_no_match() {
    assert_eq!(shorten_dir_with_home("/tmp/other/path", Some("/home/someone")), "/tmp/other/path");
}

#[test]
fn shorten_dir_no_false_prefix() {
    // /Users/al should NOT match /Users/alice
    let home = "/home/someone";
    let fake = format!("{home}extra/something");
    assert_eq!(shorten_dir_with_home(&fake, Some(home)), fake);
}

#[test]
fn shorten_dir_without_home_keeps_path() {
    assert_eq!(shorten_dir_with_home("/home/someone/x", None), "/home/someone/x");
}

#[test]
fn line_ending_strings() {
    assert_eq!(LineEnding::Lf.as_str(), "\n");
    assert_eq!(LineEnding::CrLf.as_str(), "\r\n");
}

#[test]
fn from_lines_builds_in_memory_content() {
    let c = Content::from_lines(&["a", "b"]);
    assert_eq!(c.lines(), &["a".to_string(), "b".to_string()]);
    assert_eq!(c.path(), "");
    assert_eq!(c.line_ending, LineEnding::Lf);
    assert!(c.has_trailing_newline);
    assert_eq!(c.text(), "a\nb\n");
    let empty = Content::from_lines(&[]);
    assert!(!empty.has_trailing_newline);
    assert_eq!(empty.text(), "");
}

#[test]
fn splice_replaces_range() {
    let mut c = Content::from_lines(&["a", "b", "c", "d"]);
    c.splice_lines(1..3, vec!["x".to_string()]);
    assert_eq!(c.lines, vec!["a", "x", "d"]);
    c.splice_lines(3..3, vec!["y".to_string(), "z".to_string()]);
    assert_eq!(c.lines, vec!["a", "x", "d", "y", "z"]);
    c.splice_lines(0..5, vec![]);
    assert!(c.lines.is_empty());
}

#[test]
fn display_string_puts_newline_after_each_line() {
    let c = load("a\r\nb");
    assert_eq!(c.display_string(), "a\nb\n");
}

#[test]
fn crlf_with_stray_cr_round_trips() {
    let raw = "a\rb\r\n\r\r\n";
    let c = load(raw);
    assert_eq!(c.lines, vec!["a\rb", "\r"]);
    assert_eq!(c.saved_text(), raw);
}

#[test]
fn blank_lines_survive() {
    let raw = "a\n\n\nb\n\n";
    let c = load(raw);
    assert_eq!(c.lines, vec!["a", "", "", "b", ""]);
    assert_eq!(c.saved_text(), raw);
    let only_newline = load("\n");
    assert_eq!(only_newline.lines, vec![""]);
    assert_eq!(only_newline.saved_text(), "\n");
}

#[test]
fn reload_after_save_gives_same_content() {
    for raw in ["line1\r\nline2\nline3", "a\r\r\n", "x\ny\n", "", "\r\n\r\n", "solo"] {
        let first = load(raw);
        let again = load(&first.saved_text());
        assert_eq!(again.lines, first.lines);
        assert_eq!(again.line_ending, first.line_ending);
        assert_eq!(again.has_trailing_newline, first.has_trailing_newline);
    }
}

#[test]
fn save_then_load_gives_back_edited_content() {
    let mut c = Content::from_text("f.txt".to_string(), "a\r\nb\r\nc\r\n");
    c.splice_lines(1..2, vec!["x".to_string(), "y\r".to_string()]);
    let back = Content::from_text("f.txt".to_string(), &c.saved_text());
    assert_eq!(back.lines, vec!["a", "x", "y\r", "c"]);
    assert_eq!(back.line_ending, LineEnding::CrLf);
    assert!(back.has_trailing_newline);
}
