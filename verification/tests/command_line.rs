use windows_sandbox::command_line::{argv_to_command_line, quote_windows_arg};

fn strings(list: &[&str]) -> Vec<String> {
    list.iter().map(|s| s.to_string()).collect()
}

/// Splits a command line the way the C runtime does.
fn split(line: &str) -> Vec<String> {
    let chars: Vec<char> = line.chars().collect();
    let mut args = Vec::new();
    let mut at = 0;
    let mut name = String::new();
    let mut inside = false;
    while at < chars.len() && (inside || (chars[at] != ' ' && chars[at] != '\t')) {
        if chars[at] == '"' {
            inside = !inside;
        } else {
            name.push(chars[at]);
        }
        at += 1;
    }
    args.push(name);
    loop {
        while at < chars.len() && (chars[at] == ' ' || chars[at] == '\t') {
            at += 1;
        }
        if at == chars.len() {
            return args;
        }
        let mut arg = String::new();
        let mut inside = false;
        while at < chars.len() && (inside || (chars[at] != ' ' && chars[at] != '\t')) {
            let mut run = 0;
            while at < chars.len() && chars[at] == '\\' {
                run += 1;
                at += 1;
            }
            if at < chars.len() && chars[at] == '"' {
                for _ in 0..run / 2 {
                    arg.push('\\');
                }
                if run % 2 == 1 {
                    arg.push('"');
                } else if inside && at + 1 < chars.len() && chars[at + 1] == '"' {
                    arg.push('"');
                    at += 1;
                } else {
                    inside = !inside;
                }
                at += 1;
            } else {
                for _ in 0..run {
                    arg.push('\\');
                }
                if run == 0 {
                    arg.push(chars[at]);
                    at += 1;
                }
            }
        }
        args.push(arg);
    }
}

#[test]
fn argv_to_command_line_quotes_each_argument_independently() {
    let argv = vec!["cmd.exe".to_string(), "/c".to_string(), "echo hello world".to_string()];
    assert_eq!(argv_to_command_line(&argv), "cmd.exe /c \"echo hello world\"");
}

#[test]
fn plain_arguments_stay_as_they_are() {
    assert_eq!(quote_windows_arg("cmd.exe"), "cmd.exe");
    assert_eq!(quote_windows_arg("a\\b"), "a\\b");
    assert_eq!(quote_windows_arg("a\\b\\"), "a\\b\\");
    assert_eq!(quote_windows_arg("\u{e9}\u{1f980}"), "\u{e9}\u{1f980}");
}

#[test]
fn empty_argument_is_quoted() {
    assert_eq!(quote_windows_arg(""), "\"\"");
}

#[test]
fn only_spaces_and_tabs_force_quotes() {
    assert_eq!(quote_windows_arg("a b"), "\"a b\"");
    assert_eq!(quote_windows_arg("a\tb"), "\"a\tb\"");
    assert_eq!(quote_windows_arg("a\nb"), "a\nb");
    assert_eq!(quote_windows_arg("a\rb"), "a\rb");
    assert_eq!(quote_windows_arg("\u{3000}"), "\u{3000}");
}

#[test]
fn quotation_marks_are_escaped_with_and_without_quotes() {
    assert_eq!(quote_windows_arg(r#"aa"bb"#), r#"aa\"bb"#);
    assert_eq!(quote_windows_arg(r#"""#), r#"\""#);
    assert_eq!(quote_windows_arg(r#"a" b"#), r#""a\" b""#);
}

#[test]
fn backslashes_are_doubled_only_before_quotes() {
    assert_eq!(quote_windows_arg("a\\b c"), "\"a\\b c\"");
    assert_eq!(quote_windows_arg(r#"a\"b"#), r#"a\\\"b"#);
    assert_eq!(quote_windows_arg(r#"a\\"b"#), r#"a\\\\\"b"#);
    assert_eq!(quote_windows_arg(r#"a\" b"#), r#""a\\\" b""#);
    assert_eq!(quote_windows_arg(r#"a"\"#), r#"a\"\"#);
    assert_eq!(quote_windows_arg("a b\\"), "\"a b\\\\\"");
    assert_eq!(quote_windows_arg("a b\\\\"), "\"a b\\\\\\\\\"");
}

#[test]
fn empty_argv_gives_empty_line() {
    assert_eq!(argv_to_command_line(&Vec::new()), "");
    assert_eq!(argv_to_command_line(&strings(&[""])), "\"\"");
}

#[test]
fn command_line_is_read_back() {
    let pieces = ["", "a", " ", "\\", "\"", "\\\\", "a b", "\\\"", "\t", "b\\", "\"\"", "c\\\\\""];
    for x in pieces {
        for y in pieces {
            for z in pieces {
                let argument = format!("{x}{y}{z}");
                let argv = strings(&["C:\\Program Files\\x.exe", argument.as_str(), "end"]);
                assert_eq!(split(&argv_to_command_line(&argv)), argv);
            }
        }
    }
}
