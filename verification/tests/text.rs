use clippy_reviewdog_filter::noise::is_summary_line;
use clippy_reviewdog_filter::text::{chars_of, decimal_string, find_from, str_eq};

#[test]
fn summaries_are_recognised() {
    for s in [
        "aborting due to 1 previous error",
        "aborting due to previous error".replace("to ", "to 2 ").as_str(),
        "aborting due to 12 previous errors",
        "aborting due to 12 previous errors; 1 warning emitted",
        "aborting due to 1 previous error; 10 warnings emitted",
        "aborting due to 0 previous error; 0 warning emitted",
        "34 warnings emitted",
        "1 warning emitted",
        "007 warnings emitted",
    ] {
        assert!(is_summary_line(s), "{}", s);
    }
}

#[test]
fn near_summaries_are_not_recognised() {
    for s in [
        "",
        "aborting due to previous error",
        "aborting due to  previous error",
        "aborting due to 1 previous error ",
        " aborting due to 1 previous error",
        "aborting due to 1 previous errorss",
        "aborting due to 1 previous error;",
        "aborting due to 1 previous error; ",
        "aborting due to 1 previous error;1 warning emitted",
        "aborting due to 1 previous error; 1 warning emitted; 1 warning emitted",
        "aborting due to 1 previous error; warning emitted",
        "aborting due to -1 previous error",
        "aborting due to 1a previous error",
        "Aborting due to 1 previous error",
        "error: aborting due to 1 previous error",
        "aborting due to 1 previous error\n",
        "warnings emitted",
        " 1 warning emitted",
        "1 warning emitted.",
        "1 warningss emitted",
        "1  warning emitted",
        "1 warning  emitted",
        "1 warnings emitte",
        "x1 warning emitted",
        "\u{0661} warning emitted",
        "1 warning emitted; aborting due to 1 previous error",
        "unused variable: `x`",
    ] {
        assert!(!is_summary_line(s), "{:?}", s);
    }
}

#[test]
fn decimal_string_writes_numbers() {
    assert_eq!(decimal_string(0), "0");
    assert_eq!(decimal_string(7), "7");
    assert_eq!(decimal_string(10), "10");
    assert_eq!(decimal_string(1234567890), "1234567890");
    assert_eq!(decimal_string(4294967295), "4294967295");
    for n in [9u32, 11, 99, 100, 101, 65535, 1000000] {
        assert_eq!(decimal_string(n), n.to_string());
    }
}

#[test]
fn chars_of_reads_characters_not_bytes() {
    let v = chars_of("a\u{e4}\u{1F980}b");
    assert_eq!(v, vec!['a', '\u{e4}', '\u{1F980}', 'b']);
    assert!(chars_of("").is_empty());
}

#[test]
fn str_eq_compares_whole_texts() {
    assert!(str_eq("error", "error"));
    assert!(!str_eq("error", "erro"));
    assert!(!str_eq("error", "errors"));
    assert!(!str_eq("error", "errOr"));
    assert!(!str_eq("error", ""));
    assert!(str_eq("", ""));
    assert!(str_eq("\u{e4}\u{1F980}", "\u{e4}\u{1F980}"));
    assert!(!str_eq("\u{e4}", "\u{e5}"));
    assert!(!str_eq("\u{e4}", "a"));
}

#[test]
fn find_from_finds_the_first() {
    let v = chars_of("a b c");
    assert_eq!(find_from(&v, 0, ' '), 1);
    assert_eq!(find_from(&v, 1, ' '), 1);
    assert_eq!(find_from(&v, 2, ' '), 3);
    assert_eq!(find_from(&v, 4, ' '), 5);
    assert_eq!(find_from(&v, 5, ' '), 5);
    assert_eq!(find_from(&v, 0, 'x'), 5);
}
