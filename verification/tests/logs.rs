use dockeye::worker::logs::{append_logs, log_page, PAGE_SIZE};

#[test]
fn logs_are_appended_without_escapes() {
    let mut cur = None;
    append_logs(&mut cur, &vec![b"\x1b[32mfoo\x1b[m ".to_vec(), b"bar\n".to_vec()]);
    assert_eq!(cur.as_deref(), Some("foo bar\n"));
    append_logs(&mut cur, &vec![b"baz".to_vec()]);
    assert_eq!(cur.as_deref(), Some("foo bar\nbaz"));
    append_logs(&mut cur, &vec![]);
    assert_eq!(cur.as_deref(), Some("foo bar\nbaz"));
}

#[test]
fn plain_logs_are_kept_as_they_are() {
    let mut cur = Some("start\n".to_string());
    append_logs(&mut cur, &vec![b"line one\nline two\n".to_vec()]);
    assert_eq!(cur.as_deref(), Some("start\nline one\nline two\n"));
}

fn numbered(n: usize) -> String {
    (0..n).map(|i| format!("{}\n", i)).collect()
}

#[test]
fn follow_shows_last_page() {
    let logs = numbered(3000);
    let (page, text) = log_page(&logs, 0, true);
    assert_eq!(page, 3001 / PAGE_SIZE);
    // 3001 lines (the last one empty): the last 1024 start at line 1977
    assert!(text.starts_with("1977\n"));
    assert!(text.ends_with("2999\n"));
    let small = "a\nb\n";
    let (page, text) = log_page(small, 5, true);
    assert_eq!(page, 0);
    assert_eq!(text, small);
}

#[test]
fn pages_of_logs() {
    let logs = numbered(3000);
    let (page, text) = log_page(&logs, 1, false);
    assert_eq!(page, 1);
    assert!(text.starts_with("1024\n"));
    assert!(text.ends_with("2047\n"));
    assert_eq!(text.lines().count(), PAGE_SIZE);
    // the third page runs past the end: the last 1024 lines are shown
    let (page, text) = log_page(&logs, 2, false);
    assert_eq!(page, 2);
    assert!(text.starts_with("1977\n"));
}

#[test]
fn line_breaks_of_ropey() {
    // CRLF counts once, a lone CR and the unicode separators count too
    let mut logs = String::new();
    for i in 0..1100 {
        logs.push_str(&i.to_string());
        logs.push_str(match i % 4 { 0 => "\r\n", 1 => "\r", 2 => "\u{2028}", _ => "\n" });
    }
    let (_, text) = log_page(&logs, 0, false);
    assert!(text.starts_with("0\r\n1\r2\u{2028}3\n"));
    assert!(text.ends_with("1023\n"));
}

#[test]
fn following_accepts_any_page_whose_first_line_fits() {
    let small = "a\nb\n";
    let page = usize::MAX / PAGE_SIZE;
    let (shown, text) = log_page(small, page, true);
    assert_eq!(shown, 0);
    assert_eq!(text, small);
}
