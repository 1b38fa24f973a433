use gia_gui::arguments::{build_arguments, conversation_arguments, help_arguments};
use gia_gui::text::{chars_of, is_white_space_char, option_lines, string_of};

#[test]
fn resume_with_model_and_prompt() {
    let args = build_arguments(false, false, false, true, "gemini-2.5-flash", "", "hi");
    assert_eq!(args, vec!["-R", "--model", "gemini-2.5-flash", "hi"]);
}

#[test]
fn blank_lines_give_no_arguments() {
    assert_eq!(option_lines("  \n-f/a\n\n-i/b  \n"), vec!["-f/a", "-i/b"]);
    let args = build_arguments(false, false, false, false, "m", "  \n-f/a\n\n-i/b  \n", "");
    assert_eq!(args, vec!["--model", "m", "-f/a", "-i/b"]);
}

#[test]
fn all_flags_in_fixed_order() {
    let args = build_arguments(true, true, true, true, "gemini-2.5-pro", "--x\n--y 1", "tell me");
    assert_eq!(
        args,
        vec![
            "--record-audio",
            "-c",
            "--browser-output",
            "-R",
            "--model",
            "gemini-2.5-pro",
            "--x",
            "--y 1",
            "tell me"
        ]
    );
}

#[test]
fn prompt_is_not_trimmed() {
    let args = build_arguments(false, false, false, false, "m", "", "  spaced  ");
    assert_eq!(args, vec!["--model", "m", "  spaced  "]);
}

#[test]
fn whitespace_prompt_is_kept_and_empty_prompt_dropped() {
    assert_eq!(build_arguments(false, false, false, false, "m", "", " "), vec!["--model", "m", " "]);
    assert_eq!(build_arguments(false, false, false, false, "m", "", ""), vec!["--model", "m"]);
}

#[test]
fn option_lines_edge_cases() {
    assert!(option_lines("").is_empty());
    assert!(option_lines("\n\n \t \r\n").is_empty());
    assert_eq!(option_lines("a\r\nb"), vec!["a", "b"]);
    assert_eq!(option_lines("\u{3000}x y\u{a0}"), vec!["x y"]);
    assert_eq!(option_lines("one"), vec!["one"]);
}

#[test]
fn option_lines_match_std_lines_and_trim() {
    let block = " a \n\t\n b\u{2003}c \r\n\u{85}\n-d";
    let expected: Vec<String> = block
        .lines()
        .map(|l| l.trim())
        .filter(|l| !l.is_empty())
        .map(String::from)
        .collect();
    assert_eq!(option_lines(block), expected);
}

#[test]
fn white_space_matches_std() {
    for n in 0u32..=0x10ffff {
        if let Some(c) = char::from_u32(n) {
            assert_eq!(is_white_space_char(c), c.is_whitespace(), "{:x}", n);
        }
    }
}

#[test]
fn chars_and_substrings() {
    let v = chars_of("héllo");
    assert_eq!(v, vec!['h', 'é', 'l', 'l', 'o']);
    assert_eq!(string_of(&v, 1, 4), "éll");
    assert_eq!(string_of(&v, 2, 2), "");
}

#[test]
fn fixed_argument_sets() {
    assert_eq!(conversation_arguments(), vec!["--browser-output", "--show-conversation"]);
    assert_eq!(help_arguments(), vec!["--help"]);
}
