use rush::rescan::reconstruct;
use rush::scanner::parse;
use rush::token::Token::{Literal, Word};

#[test]
fn retokenizing_a_reconstruction_is_identity() {
    let (tokens, err) = parse("echo \"hello world\" a\\ b\\\\c");
    assert_eq!(err, None);
    let line = reconstruct(&tokens);
    let (again, err2) = parse(line.as_str());
    assert_eq!(err2, None);
    assert_eq!(tokens, again);
}

#[test]
fn reconstruction_requotes_and_reescapes() {
    let tokens = vec![Word("a b".to_string()), Literal("x y".to_string())];
    let line = reconstruct(&tokens);
    assert_eq!(line, "a\\ b \"x y\" ");
    let (again, err) = parse(line.as_str());
    assert_eq!(err, None);
    assert_eq!(again, tokens);
}

#[test]
fn escaped_tab_word_survives_the_round_trip() {
    let (tokens, err) = parse("echo hello\\tworld");
    assert_eq!(err, None);
    let line = reconstruct(&tokens);
    let (again, err2) = parse(line.as_str());
    assert_eq!(err2, None);
    assert_eq!(tokens, again);
}
