use leeklaunch::lines::{line_spans, reread_line_spans, Span};

fn lines_of(text: &str) -> Vec<String> {
    let chars: Vec<char> = text.chars().collect();
    line_spans(&chars)
        .iter()
        .map(|span| chars[span.start..span.end].iter().collect::<String>())
        .collect()
}

fn settled_of(text: &str) -> Vec<String> {
    let chars: Vec<char> = text.chars().collect();
    reread_line_spans(&chars)
        .iter()
        .map(|span| chars[span.start..span.end].iter().collect::<String>())
        .collect()
}

#[test]
fn lines_end_at_line_feeds() {
    assert_eq!(lines_of("a\nbc\n"), vec!["a", "bc"]);
    assert_eq!(lines_of("a\nbc"), vec!["a", "bc"]);
    assert_eq!(lines_of("\n\n"), vec!["", ""]);
    assert_eq!(lines_of(""), Vec::<String>::new());
    assert_eq!(lines_of("\n"), vec![""]);
}

#[test]
fn carriage_return_before_line_feed_is_no_part_of_the_line() {
    assert_eq!(lines_of("a\r\nb\r\n"), vec!["a", "b"]);
    assert_eq!(lines_of("a\r\r\nb"), vec!["a\r", "b"]);
    assert_eq!(lines_of("a\rb\n"), vec!["a\rb"]);
    assert_eq!(lines_of("a\r"), vec!["a\r"]);
    assert_eq!(lines_of("\r\n"), vec![""]);
}

#[test]
fn spans_say_where_the_lines_stand() {
    let chars: Vec<char> = "ab\r\n\u{e9}\n".chars().collect();
    assert_eq!(line_spans(&chars), vec![Span { start: 0, end: 2 }, Span { start: 4, end: 5 }]);
}

#[test]
fn lines_agree_with_std() {
    let texts = [
        "", "\n", "\r", "\r\n", "a", "a\n", "a\r\n", "a\r", "a\n\n", "\na", "a\r\r\n", "a\n\rb",
        "a\r\nb\r\nc", "\n\n\n", "\r\n\r\n", "one\ntwo\r\nthree\rfour\n\r", "\u{e9}\n\u{1F600}\r\n",
    ];
    for text in texts {
        let expected: Vec<String> = text.lines().map(|line| line.to_string()).collect();
        assert_eq!(lines_of(text), expected, "{:?}", text);
    }
}

#[test]
fn reading_once_more_agrees_with_std() {
    let texts = [
        "", "\n", "\r", "\r\n", "a", "a\n", "a\r\n", "a\r", "a\n\n", "\na", "a\r\r\n", "a\n\rb",
        "a\r\r\nb\r\r\nc\r\r\n", "\n\n\n", "\r\n\r\n", "a\n\r\n", "a\n\r", "a\r\r\n\n",
    ];
    for text in texts {
        let joined = text.lines().collect::<Vec<_>>().join("\n");
        let expected: Vec<String> = joined.lines().map(|line| line.to_string()).collect();
        assert_eq!(settled_of(text), expected, "{:?}", text);
    }
}

#[test]
fn an_empty_last_line_is_gone_when_read_once_more() {
    assert_eq!(settled_of("a\n\n"), vec!["a"]);
    assert_eq!(settled_of("a\n\n\n"), vec!["a", ""]);
    assert_eq!(settled_of("\n"), Vec::<String>::new());
}
