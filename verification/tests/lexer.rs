use tilescript::Token;

#[test]
fn lexes_arithmetic() {
    let ts = tilescript::lex("1 + 23").unwrap();
    assert_eq!(
        ts,
        vec![
            Token::NumberLiteral(1),
            Token::Symbol("+".to_string()),
            Token::NumberLiteral(23),
        ]
    );
}

#[test]
fn lexes_punctuation_and_keywords() {
    let ts = tilescript::lex("var x = (true); // note").unwrap();
    assert_eq!(
        ts,
        vec![
            Token::KwVar,
            Token::Identifier("x".to_string()),
            Token::Equal,
            Token::LParan,
            Token::BooleanLiteral(true),
            Token::RParan,
            Token::SemiColon,
            Token::Comment("// note".to_string()),
        ]
    );
}

#[test]
fn lexes_two_character_tokens() {
    let ts = tilescript::lex("a::b => null").unwrap();
    assert_eq!(
        ts,
        vec![
            Token::Identifier("a".to_string()),
            Token::DoubleColon,
            Token::Identifier("b".to_string()),
            Token::Arrow,
            Token::Null,
        ]
    );
}

#[test]
fn class_identifiers_are_capitalized() {
    let ts = tilescript::lex("User user").unwrap();
    assert_eq!(
        ts,
        vec![
            Token::ClassIdentifier("User".to_string()),
            Token::Identifier("user".to_string()),
        ]
    );
}

#[test]
fn string_literals_run_to_the_quote() {
    let ts = tilescript::lex("\"hello world\"").unwrap();
    assert_eq!(ts, vec![Token::StringLiteral("hello world".to_string())]);
}

#[test]
fn unterminated_string_is_an_error() {
    let r = tilescript::lex("\"oops");
    assert_eq!(r.unwrap_err().pos, 0);
}

#[test]
fn unrecognized_character_is_an_error() {
    let r = tilescript::lex("a ` b");
    assert_eq!(r.unwrap_err().pos, 2);
}

#[test]
fn numbers_hold_at_most_eighteen_digits() {
    assert!(tilescript::lex("999999999999999999").is_ok());
    assert!(tilescript::lex("9999999999999999999").is_err());
}

#[test]
fn newlines_are_tokens() {
    let ts = tilescript::lex("a\nb").unwrap();
    assert_eq!(
        ts,
        vec![
            Token::Identifier("a".to_string()),
            Token::NewLine,
            Token::Identifier("b".to_string()),
        ]
    );
}
