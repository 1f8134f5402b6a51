use linear_regression::command::{command_from_line, is_whitespace, parse_command, trim, Command, LineError};

#[test]
fn whitespace_matches_the_standard_predicate_on_every_char() {
    for u in 0u32..=0x10FFFF {
        if let Some(c) = char::from_u32(u) {
            assert_eq!(is_whitespace(c), c.is_whitespace(), "U+{:04X}", u);
        }
    }
}

#[test]
fn a_read_of_nothing_is_the_end_of_input() {
    assert_eq!(command_from_line(0, ""), Err(LineError::EndOfFile));
    assert_eq!(command_from_line(0, "train\n"), Err(LineError::EndOfFile));
}

#[test]
fn an_empty_line_has_no_character() {
    assert_eq!(command_from_line(3, ""), Err(LineError::NoCharacter));
}

#[test]
fn one_final_newline_is_dropped() {
    assert_eq!(command_from_line(6, "train\n"), Ok("train".to_string()));
    assert_eq!(command_from_line(2, "\n\n"), Ok("\n".to_string()));
    assert_eq!(command_from_line(1, "\n"), Ok("".to_string()));
    assert_eq!(command_from_line(7, "train\r\n"), Ok("train\r".to_string()));
}

#[test]
fn a_line_without_newline_is_kept() {
    assert_eq!(command_from_line(4, "show"), Ok("show".to_string()));
    assert_eq!(command_from_line(6, "prix é"), Ok("prix é".to_string()));
}

#[test]
fn every_command_word_is_recognised() {
    let cases = vec![
        ("quit", Command::Quit),
        ("exit", Command::Quit),
        ("q", Command::Quit),
        ("help", Command::Help),
        ("h", Command::Help),
        ("train", Command::Train),
        ("show", Command::Show),
        ("regression", Command::Regression),
        ("error", Command::Regression),
        ("save", Command::Save),
        ("gradient", Command::Gradient),
        ("clear", Command::Clear),
        ("price", Command::Price),
    ];
    for (word, command) in cases {
        assert_eq!(parse_command(word), Some(command), "{}", word);
    }
}

#[test]
fn only_the_first_word_counts() {
    assert_eq!(parse_command("  train now please"), Some(Command::Train));
    assert_eq!(parse_command("\tprice\u{3000}100"), Some(Command::Price));
    assert_eq!(parse_command("save\u{a0}x"), Some(Command::Save));
}

#[test]
fn unknown_words_are_kept() {
    assert_eq!(parse_command("fly away"), Some(Command::Unknown("fly".to_string())));
    assert_eq!(parse_command("Train"), Some(Command::Unknown("Train".to_string())));
    assert_eq!(parse_command("quitter"), Some(Command::Unknown("quitter".to_string())));
    assert_eq!(parse_command("  éclair "), Some(Command::Unknown("éclair".to_string())));
}

#[test]
fn blank_lines_name_no_command() {
    assert_eq!(parse_command(""), None);
    assert_eq!(parse_command("   \t \u{2003}"), None);
}

#[test]
fn trim_matches_the_standard_trim() {
    let lines = vec!["", "  ", " 42 ", "42", "\t1.5e3\n", "\u{3000}x y\u{85}", "a", " a", "a "];
    for l in lines {
        assert_eq!(trim(l), l.trim().to_string(), "{:?}", l);
    }
}
