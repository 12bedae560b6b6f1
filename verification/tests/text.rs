use reckless::text::{is_whitespace, join, same, split_whitespace, trim_end};

#[test]
fn whitespace_is_that_of_the_standard_library() {
    for n in 0..=0x10ffffu32 {
        if let Some(c) = char::from_u32(n) {
            assert_eq!(is_whitespace(c), c.is_whitespace(), "{:?}", c);
        }
    }
}

#[test]
fn words_are_those_of_the_standard_library() {
    let lines = [
        "",
        " ",
        "\r\n",
        "go",
        "go infinite",
        "  go \t depth\u{a0}5\r\n",
        "position fen 8/8/8/8/8/8/8/8 w - - 0 1 moves e2e4",
        "\u{3000}\u{e9}t\u{e9}\u{2003}\u{1f600} x",
        "a b c",
    ];
    for line in lines {
        let expected: Vec<&str> = line.split_whitespace().collect();
        assert_eq!(split_whitespace(line), expected, "{:?}", line);
        assert_eq!(trim_end(line), line.trim_end(), "{:?}", line);
    }
}

#[test]
fn words_of_a_line_with_wide_gaps() {
    assert_eq!(split_whitespace("  go   wtime 100\n"), vec!["go", "wtime", "100"]);
    assert_eq!(split_whitespace(" \t\n"), Vec::<&str>::new());
}

#[test]
fn trimming_keeps_the_start() {
    assert_eq!(trim_end("  quit \r\n"), "  quit");
    assert_eq!(trim_end("\n"), "");
    assert_eq!(split_whitespace(trim_end(" go depth 3 \n")), split_whitespace(" go depth 3 \n"));
}

#[test]
fn joined_words_split_again() {
    let words = ["8/8/8/8/8/8/8/8", "w", "-", "-", "0", "1"];
    assert_eq!(join(&words, " "), "8/8/8/8/8/8/8/8 w - - 0 1");
    assert_eq!(split_whitespace(&join(&words, " ")), words.to_vec());
    assert_eq!(join(&[], " "), "");
    assert_eq!(join(&["one"], " "), "one");
}

#[test]
fn sameness_is_by_characters() {
    assert!(same("isready", "isready"));
    assert!(same("", ""));
    assert!(!same("isready", "isready "));
    assert!(!same("stop", "stoq"));
    assert!(!same("\u{e9}", "e"));
}
