use advent_of_utils::decimal::{char_to_digit, i32_to_string, i64_to_string, parse_i32, u64_to_string};
use advent_of_utils::parser::{by_char, by_line, by_line_and_char_as_int, by_line_and_word_as_int, by_line_and_empty_line, split_lines, split_words};
use advent_of_utils::PuzzleInput;

#[test]
fn test_by_line() {
    let input = PuzzleInput("line1\nline2\nline3".to_string());
    let expected = vec![
        "line1".to_string(),
        "line2".to_string(),
        "line3".to_string(),
    ];
    assert_eq!(by_line(&input), expected);
}

#[test]
fn test_by_line_and_empty_line() {
    let input = PuzzleInput("line1\nline2\n\nline3\nline4".to_string());
    let expected = vec![
        vec!["line1".to_string(), "line2".to_string()],
        vec!["line3".to_string(), "line4".to_string()],
    ];
    assert_eq!(by_line_and_empty_line(&input), expected);
}

#[test]
fn by_line_trailing_newline_and_carriage_returns() {
    let input = PuzzleInput("a\r\nb\n".to_string());
    assert_eq!(by_line(&input), vec!["a".to_string(), "b".to_string()]);
    let empty = PuzzleInput(String::new());
    assert_eq!(by_line(&empty), Vec::<String>::new());
    let blank_middle = PuzzleInput("a\n\nb".to_string());
    assert_eq!(
        by_line(&blank_middle),
        vec!["a".to_string(), String::new(), "b".to_string()]
    );
}

#[test]
fn split_lines_keeps_lone_carriage_return() {
    assert_eq!(split_lines("b\r"), vec!["b\r".to_string()]);
}

#[test]
fn by_char_lists_characters() {
    assert_eq!(by_char("ab\nc".to_string()), vec!['a', 'b', '\n', 'c']);
    assert_eq!(by_char(String::new()), Vec::<char>::new());
}

#[test]
fn by_line_and_char_as_int_keeps_digits() {
    let got = by_line_and_char_as_int("1a2\n34\nxy".to_string());
    assert_eq!(got, vec![vec![1, 2], vec![3, 4], vec![]]);
}

#[test]
fn by_line_and_word_as_int_parses_words() {
    let got = by_line_and_word_as_int("1 2 x -3\n  7 ".to_string());
    assert_eq!(got, vec![vec![1, 2, -3], vec![7]]);
}

#[test]
fn split_words_separates_on_whitespace_runs() {
    let got = split_words("  one\t two\n");
    assert_eq!(got, vec!["one".to_string(), "two".to_string()]);
}

#[test]
fn decimal_rendering() {
    assert_eq!(u64_to_string(0), "0");
    assert_eq!(u64_to_string(907), "907");
    assert_eq!(u64_to_string(u64::MAX), "18446744073709551615");
    assert_eq!(i64_to_string(-45), "-45");
    assert_eq!(i64_to_string(i64::MIN), "-9223372036854775808");
    assert_eq!(i32_to_string(2023), "2023");
}

#[test]
fn decimal_parsing() {
    assert_eq!(parse_i32("42"), Some(42));
    assert_eq!(parse_i32("-42"), Some(-42));
    assert_eq!(parse_i32("+7"), Some(7));
    assert_eq!(parse_i32("0042"), Some(42));
    assert_eq!(parse_i32("2147483647"), Some(i32::MAX));
    assert_eq!(parse_i32("-2147483648"), Some(i32::MIN));
    assert_eq!(parse_i32("2147483648"), None);
    assert_eq!(parse_i32("-2147483649"), None);
    assert_eq!(parse_i32(""), None);
    assert_eq!(parse_i32("-"), None);
    assert_eq!(parse_i32("1a"), None);
    assert_eq!(parse_i32("00000000000000000000001"), Some(1));
}

#[test]
fn digits_have_values() {
    assert_eq!(char_to_digit('7'), Some(7));
    assert_eq!(char_to_digit('0'), Some(0));
    assert_eq!(char_to_digit('a'), None);
}
