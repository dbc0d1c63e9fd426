use refmt::whitespace::{split_lines, trim_end};
use refmt::{WhitespaceCleaner, WhitespaceOptions};

fn parts(path: &[&str]) -> Vec<String> {
    path.iter().map(|s| s.to_string()).collect()
}

#[test]
fn test_remove_trailing_whitespace() {
    let c = WhitespaceCleaner::with_defaults();
    let (text, n) = c.clean_text("line1   \nline2\t\nline3\n");
    assert_eq!(text, "line1\nline2\nline3\n");
    assert_eq!(n, 2);
}

#[test]
fn test_preserve_line_endings() {
    let c = WhitespaceCleaner::with_defaults();
    let (text, n) = c.clean_text("line1  \nline2\n");
    assert_eq!(text, "line1\nline2\n");
    assert_eq!(n, 1);
    let (text, _) = c.clean_text("line1  \nline2");
    assert_eq!(text, "line1\nline2");
}

#[test]
fn whitespace_test_skip_hidden_files() {
    let c = WhitespaceCleaner::with_defaults();
    assert!(!c.should_process(&parts(&["tmp", ".hidden.txt"]), Some("txt")));
    assert!(!c.should_process(&parts(&["tmp", ".git", "a.txt"]), Some("txt")));
    assert!(!c.should_process(&parts(&["tmp", "target", "a.txt"]), Some("txt")));
    assert!(c.should_process(&parts(&["tmp", "a.txt"]), Some("txt")));
}

#[test]
fn test_file_extension_filtering() {
    let mut o = WhitespaceOptions::default();
    o.file_extensions = vec![".txt".to_string()];
    let c = WhitespaceCleaner::new(o);
    assert!(c.should_process(&parts(&["d", "test.txt"]), Some("txt")));
    assert!(!c.should_process(&parts(&["d", "test.xyz"]), Some("xyz")));
    assert!(!c.should_process(&parts(&["d", "test"]), None));
}

#[test]
fn clean_counts_nothing_on_clean_text() {
    let c = WhitespaceCleaner::with_defaults();
    assert_eq!(c.clean_text("line1\nline2\nline3\n"), ("line1\nline2\nline3\n".to_string(), 0));
    assert_eq!(c.clean_text(""), (String::new(), 0));
}

#[test]
fn clean_turns_crlf_into_lf() {
    let c = WhitespaceCleaner::with_defaults();
    assert_eq!(c.clean_text("a \r\nb\r\n"), ("a\nb\n".to_string(), 1));
}

#[test]
fn clean_can_keep_trailing_whitespace() {
    let mut o = WhitespaceOptions::default();
    o.remove_trailing = false;
    let c = WhitespaceCleaner::new(o);
    assert_eq!(c.clean_text("a  \nb\n"), ("a  \nb\n".to_string(), 0));
}

#[test]
fn lines_follow_std() {
    for s in ["", "\n", "a", "a\n", "a\n\nb", "a\r\nb\r", "x\r\n\r\n"] {
        let expected: Vec<String> = s.lines().map(|l| l.to_string()).collect();
        assert_eq!(split_lines(s), expected, "input {:?}", s);
    }
}

#[test]
fn trim_end_follows_std() {
    for s in ["", "  ", "a b \t", "x\u{3000}", "keep"] {
        assert_eq!(trim_end(s), s.trim_end());
    }
}
