use minishell::error::ShellError;
use minishell::mode::{resolve, ExecutingMode, Stage};
use minishell::parser::{parse_line, split_stages};
use minishell::text::{same_text, split_whitespace, to_chars, trim};

fn strings(items: &[&str]) -> Vec<String> {
    items.iter().map(|s| s.to_string()).collect()
}

#[test]
fn trim_drops_white_space_at_both_ends() {
    assert_eq!(trim("  echo hi \n"), "echo hi");
    assert_eq!(trim("echo"), "echo");
    assert_eq!(trim(""), "");
    assert_eq!(trim(" \t\r\n"), "");
    assert_eq!(trim("\u{3000}a b\u{85}"), "a b");
    assert_eq!(trim("\u{200b}a"), "\u{200b}a");
    assert_eq!(trim(" \u{e9}t\u{e9} "), "\u{e9}t\u{e9}");
}

#[test]
fn words_are_cut_at_runs_of_white_space() {
    assert_eq!(split_whitespace("a b c"), vec!["a", "b", "c"]);
    assert_eq!(split_whitespace("  ls   -l\t/tmp \n"), vec!["ls", "-l", "/tmp"]);
    assert!(split_whitespace("").is_empty());
    assert!(split_whitespace(" \t ").is_empty());
    assert_eq!(split_whitespace("\u{e9}t\u{e9}\u{a0}na\u{ef}f"), vec!["\u{e9}t\u{e9}", "na\u{ef}f"]);
    assert_eq!(split_whitespace("a|b"), vec!["a|b"]);
}

#[test]
fn characters_are_listed_one_by_one() {
    assert_eq!(to_chars("a\u{e9}\u{1f600}"), vec!['a', '\u{e9}', '\u{1f600}']);
    assert!(to_chars("").is_empty());
}

#[test]
fn texts_are_the_same_when_all_characters_are() {
    assert!(same_text("exec", "exec"));
    assert!(!same_text("exec", "Exec"));
    assert!(!same_text("exec", "exe"));
    assert!(same_text("", ""));
    assert!(same_text("\u{e9}", "\u{e9}"));
}

#[test]
fn stages_are_cut_at_the_separator() {
    assert_eq!(split_stages("echo hi | wc -c"), vec!["echo hi", "wc -c"]);
    assert_eq!(split_stages("echo hi"), vec!["echo hi"]);
    assert_eq!(split_stages(""), vec![""]);
    assert_eq!(split_stages("a|b"), vec!["a|b"]);
    assert_eq!(split_stages("a |b"), vec!["a |b"]);
    assert_eq!(split_stages("a  |  b"), vec!["a ", " b"]);
    assert_eq!(split_stages("a\t|\tb"), vec!["a\t|\tb"]);
    assert_eq!(split_stages("a |  | b"), vec!["a", "", "b"]);
    assert_eq!(split_stages("a | | b"), vec!["a", "| b"]);
    assert_eq!(split_stages(" | "), vec!["", ""]);
    assert_eq!(split_stages("a | b | c"), vec!["a", "b", "c"]);
    assert_eq!(split_stages("\u{e9} | \u{e8}"), vec!["\u{e9}", "\u{e8}"]);
}

#[test]
fn stages_are_cut_as_the_standard_library_does() {
    for text in ["a | b", "a |  | b", "a | | b", " | ", " |  | ", "x |", "| y", " | | | ", ""] {
        let expected: Vec<&str> = text.split(" | ").collect();
        assert_eq!(split_stages(text), expected);
        let words: Vec<&str> = text.split_whitespace().collect();
        assert_eq!(split_whitespace(text), words);
        assert_eq!(trim(text), text.trim());
    }
}

#[test]
fn a_line_is_parsed_into_the_tokens_of_its_stages() {
    assert_eq!(
        parse_line("echo hi | wc -c\n"),
        Ok(vec![strings(&["echo", "hi"]), strings(&["wc", "-c"])])
    );
    assert_eq!(parse_line("  ls  "), Ok(vec![strings(&["ls"])]));
    assert_eq!(
        parse_line("a |  | b"),
        Ok(vec![strings(&["a"]), strings(&[]), strings(&["b"])])
    );
    assert_eq!(parse_line("ls |"), Ok(vec![strings(&["ls", "|"])]));
    assert_eq!(parse_line("echo \"a | b\""), Ok(vec![strings(&["echo", "\"a"]), strings(&["b\""])]));
}

#[test]
fn a_blank_line_is_empty_input() {
    assert_eq!(parse_line(""), Err(ShellError::EmptyInput));
    assert_eq!(parse_line("\n"), Err(ShellError::EmptyInput));
    assert_eq!(parse_line(" \t  \r\n"), Err(ShellError::EmptyInput));
}

#[test]
fn mode_names_are_read() {
    assert_eq!(ExecutingMode::from_str("default"), Ok(ExecutingMode::Default));
    assert_eq!(ExecutingMode::from_str("exec"), Ok(ExecutingMode::Exec));
    assert_eq!(ExecutingMode::from_str("fork"), Ok(ExecutingMode::Fork));
    assert_eq!(
        ExecutingMode::from_str("ls"),
        Err("Unknown ExecutingMode: ls".to_string())
    );
    assert_eq!(ExecutingMode::from_str(""), Err("Unknown ExecutingMode: ".to_string()));
    assert_eq!(
        ExecutingMode::from_str("EXEC"),
        Err("Unknown ExecutingMode: EXEC".to_string())
    );
}

#[test]
fn the_first_token_selects_the_mode() {
    assert_eq!(
        resolve(&strings(&["ls", "-l"])),
        Ok(Stage { mode: ExecutingMode::Default, command: "ls".to_string(), args: strings(&["-l"]) })
    );
    assert_eq!(
        resolve(&strings(&["exec", "ls", "-l", "/"])),
        Ok(Stage {
            mode: ExecutingMode::Exec,
            command: "ls".to_string(),
            args: strings(&["-l", "/"]),
        })
    );
    assert_eq!(
        resolve(&strings(&["fork", "sleep"])),
        Ok(Stage { mode: ExecutingMode::Fork, command: "sleep".to_string(), args: strings(&[]) })
    );
    assert_eq!(
        resolve(&strings(&["default", "ls"])),
        Ok(Stage {
            mode: ExecutingMode::Default,
            command: "default".to_string(),
            args: strings(&["ls"]),
        })
    );
    assert_eq!(
        resolve(&strings(&["exec", "exec"])),
        Ok(Stage { mode: ExecutingMode::Exec, command: "exec".to_string(), args: strings(&[]) })
    );
}

#[test]
fn a_stage_without_a_command_is_refused() {
    assert_eq!(resolve(&strings(&[])), Err(ShellError::EmptyInput));
    assert_eq!(resolve(&strings(&["exec"])), Err(ShellError::MissingModeArgument));
    assert_eq!(resolve(&strings(&["fork"])), Err(ShellError::MissingModeArgument));
}
