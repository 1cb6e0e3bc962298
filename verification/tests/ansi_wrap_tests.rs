use kubetui::ansi::wrap;
use kubetui::ansi::wrap_line;

#[test]
fn wrap_only_newline() {
    let text = vec!["hoge".to_string(), "".to_string(), "hoge".to_string()];

    assert_eq!(
        wrap(&text, 100),
        vec!["hoge".to_string(), "".to_string(), "hoge".to_string()]
    );
}

#[test]
fn wrap_unwrap() {
    let text = vec!["aaaaaaaaaaaaaaaaaaaaaaaaaaaaaaa".to_string()];

    assert_eq!(
        wrap(&text, 100),
        vec!["aaaaaaaaaaaaaaaaaaaaaaaaaaaaaaa".to_string()]
    );
}

#[test]
fn wrap_short() {
    let text = vec!["aaaaaaaaaaaaaaa".to_string()];

    assert_eq!(
        wrap(&text, 10),
        vec!["aaaaaaaaaa".to_string(), "aaaaa".to_string()]
    );
}

#[test]
fn wrap_too_long_0() {
    let text = vec!["aaaaaaaaaaaaaa".to_string()];

    assert_eq!(
        wrap(&text, 5),
        vec!["aaaaa".to_string(), "aaaaa".to_string(), "aaaa".to_string(),]
    );
}

#[test]
fn wrap_too_long_1() {
    let text = vec!["123456789\n123456789\n123456789\n123456789\n123456789\n123456789\n123456789\n123456789\n".to_string()];

    assert_eq!(
        wrap(&text, 12),
        vec![
            "123456789".to_string(),
            "123456789".to_string(),
            "123456789".to_string(),
            "123456789".to_string(),
            "123456789".to_string(),
            "123456789".to_string(),
            "123456789".to_string(),
            "123456789".to_string(),
        ]
    );
}

#[test]
fn wrap_line_empty_input_gives_one_empty_line() {
    assert_eq!(wrap_line(&"".to_string(), 10), vec!["".to_string()]);
}

#[test]
fn wrap_keeps_escape_sequences_whole() {
    // the escape sequence is zero-width and stays with its segment
    let text = vec!["\u{1b}[31mabcd\u{1b}[0mef".to_string()];
    assert_eq!(
        wrap(&text, 3),
        vec![
            "\u{1b}[31mabc".to_string(),
            "d\u{1b}[0mef".to_string(),
        ]
    );
}
