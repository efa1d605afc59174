use rush::scanner::parse;
use rush::token::Token::{Literal, Pipe, Var, Word};
use rush::token::{ScanError, Token};

#[test]
fn should_parse_empty_string() {
    let actual = parse("");
    let expected: Vec<Token> = vec![];
    assert_eq!(expected, actual.0)
}

#[test]
fn should_parse_multiple_strings() {
    let actual = parse(r#""hello" "world""#);
    let expected: Vec<Token> = vec![
        Literal("hello".to_string()),
        Literal("world".to_string()),
    ];
    assert_eq!(actual.0, expected)
}

#[test]
fn should_parse_pipe() {
    let actual = parse("\"hello\" | ");
    let expected: Vec<Token> = vec![Literal("hello".to_string()), Pipe];
    assert_eq!(actual.0, expected)
}

#[test]
fn should_parse_word_with_string() {
    let actual = parse(r#"echo "hello world""#);
    let expected: Vec<Token> = vec![
        Word("echo".to_string()),
        Literal("hello world".to_string()),
    ];
    assert_eq!(expected, actual.0)
}

#[test]
fn should_parse_word_with_pipe() {
    let actual = parse("echo hello | cat");
    let expected: Vec<Token> = vec![
        Word("echo".to_string()),
        Word("hello".to_string()),
        Pipe,
        Word("cat".to_string()),
    ];
    assert_eq!(expected, actual.0)
}

#[test]
fn should_parse_word_with_string_and_pipe() {
    let actual = parse(r#"ls | grep "catch me if you can""#);
    let expected: Vec<Token> = vec![
        Word("ls".to_string()),
        Pipe,
        Word("grep".to_string()),
        Literal("catch me if you can".to_string()),
    ];
    assert_eq!(expected, actual.0)
}

#[test]
fn should_parse_word_with_escaped_space_string() {
    let actual = parse("echo hello\\ world ");
    let expected: Vec<Token> = vec![
        Word("echo".to_string()),
        Word("hello world".to_string()),
    ];
    assert_eq!(expected, actual.0)
}

#[test]
fn should_parse_word_with_escaped_tab_string() {
    let actual = parse("echo hello\\tworld ");
    let expected: Vec<Token> = vec![
        Word("echo".to_string()),
        Word("hello  world".to_string()),
    ];
    assert_eq!(expected, actual.0)
}

#[test]
fn should_parse_word_with_escaped_slash_string() {
    let actual = parse("echo hello\\\\world");
    let expected: Vec<Token> = vec![
        Word("echo".to_string()),
        Word("hello\\world".to_string()),
    ];
    assert_eq!(expected, actual.0)
}

#[test]
fn should_parse_word_joined_strings() {
    let actual = parse("echo \"hello\"\"world\"");
    let expected: Vec<Token> = vec![
        Word("echo".to_string()),
        Literal("hello".to_string()),
        Literal("world".to_string()),
    ];
    assert_eq!(expected, actual.0)
}

#[test]
fn should_parse_variable() {
    let actual = parse(r#"$HOME"#);
    let expected: Vec<Token> = vec![Var("HOME".to_string())];
    assert_eq!(actual.0, expected)
}

#[test]
fn should_parse_multiple_variables() {
    let actual = parse(r#"$HOME$SHELL"#);
    let expected: Vec<Token> = vec![Var("HOME".to_string()), Var("SHELL".to_string())];
    assert_eq!(actual.0, expected)
}

#[test]
fn should_parse_multiple_separated_variables() {
    let actual = parse(r#""$HOME-6435745%^&^%^$SHELL""#);
    let expected: Vec<Token> = vec![Literal("$HOME-6435745%^&^%^$SHELL".to_string())];
    assert_eq!(actual.0, expected)
}

#[test]
fn clean_scans_report_no_error() {
    assert_eq!(parse("").1, None);
    assert_eq!(parse("echo hello | cat").1, None);
    assert_eq!(parse(r#""a" "b""#).1, None);
}

#[test]
fn adjacent_literals_stay_separate() {
    let actual = parse(r#""a" "b""#);
    let expected: Vec<Token> = vec![Literal("a".to_string()), Literal("b".to_string())];
    assert_eq!(actual.0, expected);
    assert_eq!(actual.1, None);
}

#[test]
fn pipe_between_word_and_literal() {
    let actual = parse(r#"ls | grep "x""#);
    let expected: Vec<Token> = vec![
        Word("ls".to_string()),
        Pipe,
        Word("grep".to_string()),
        Literal("x".to_string()),
    ];
    assert_eq!(actual.0, expected);
    assert_eq!(actual.1, None);
}

#[test]
fn unterminated_literal_keeps_prefix_and_reports() {
    let (tokens, err) = parse("echo \"abc");
    assert_eq!(tokens, vec![Word("echo".to_string())]);
    assert_eq!(err, Some(ScanError::UnterminatedLiteral));
}

#[test]
fn malformed_escape_keeps_prefix_and_reports() {
    let (tokens, err) = parse("echo ab\\x");
    assert_eq!(tokens, vec![Word("echo".to_string())]);
    assert_eq!(err, Some(ScanError::MalformedEscape));
}

#[test]
fn trailing_backslash_is_malformed_escape() {
    let (tokens, err) = parse("ab\\");
    assert_eq!(tokens, vec![]);
    assert_eq!(err, Some(ScanError::MalformedEscape));
}

#[test]
fn bare_dollar_is_invalid_variable() {
    let (tokens, err) = parse("$");
    assert_eq!(tokens, vec![]);
    assert_eq!(err, Some(ScanError::InvalidVariable));
}

#[test]
fn dollar_before_invalid_character_is_invalid_variable() {
    let (tokens, err) = parse("echo $%");
    assert_eq!(tokens, vec![Word("echo".to_string())]);
    assert_eq!(err, Some(ScanError::InvalidVariable));
}

#[test]
fn stray_character_is_unexpected() {
    let (tokens, err) = parse("ls %");
    assert_eq!(tokens, vec![Word("ls".to_string())]);
    assert_eq!(err, Some(ScanError::UnexpectedCharacter));
}

#[test]
fn empty_literal_is_kept() {
    let (tokens, err) = parse("\"\"");
    assert_eq!(tokens, vec![Literal(String::new())]);
    assert_eq!(err, None);
}

#[test]
fn underscore_allowed_in_variable_names() {
    let (tokens, err) = parse("$MY_VAR1");
    assert_eq!(tokens, vec![Var("MY_VAR1".to_string())]);
    assert_eq!(err, None);
}
