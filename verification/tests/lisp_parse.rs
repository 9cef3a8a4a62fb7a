use risp::lisp_parse::{has_matching_parens, parse, unclosed_parens, Token};

fn word(s: &str) -> Token {
    Token::Word(String::from(s))
}

#[test]
fn test_parse() {
    let tokens = parse(String::from("(+ (+ 2 yes) 1)"));
    println!("{:?}", tokens);
    assert_eq!(
        tokens,
        vec![Token::Group(vec![
            word("+"),
            Token::Group(vec![word("+"), word("2"), word("yes")]),
            word("1"),
        ])]
    );
}

#[test]
fn parse_bare_word() {
    assert_eq!(parse(String::from("yes")), vec![word("yes")]);
}

#[test]
fn parse_skips_surrounding_space() {
    assert_eq!(parse(String::from("  a \t(b)\n")), vec![word("a"), Token::Group(vec![word("b")])]);
}

#[test]
fn parse_word_runs_on_across_opening_paren() {
    assert_eq!(parse(String::from("ab(c)")), vec![Token::Group(vec![word("abc")])]);
}

#[test]
fn parse_empty_text() {
    assert_eq!(parse(String::new()), Vec::<Token>::new());
    assert_eq!(parse(String::from("()")), vec![Token::Group(vec![])]);
}

#[test]
fn matching_parens() {
    assert!(has_matching_parens(&String::from("(+ (+ 2 yes) 1)")));
    assert!(has_matching_parens(&String::from("no parens")));
    assert!(!has_matching_parens(&String::from("(()")));
    assert!(!has_matching_parens(&String::from(")(")));
    assert_eq!(unclosed_parens("(()"), Some(1));
    assert_eq!(unclosed_parens("())"), None);
}

#[test]
fn token_from_str() {
    assert_eq!(Token::from("abc"), word("abc"));
}
