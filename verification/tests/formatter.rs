use tilescript::expression_to_source;
use tilescript::Expression;
use tilescript::ExprParser;

fn parse(input: &str) -> Expression {
    let tokens = tilescript::lex(input).unwrap();
    ExprParser.parse(&tokens).unwrap()
}

#[test]
fn array_literal_round_trip() {
    let e = parse("[1, [2, 3]]");
    let text = expression_to_source(&e);
    assert_eq!(text, "[1, [2, 3]]");
    let e2 = parse(&text);
    assert_eq!(e, e2);
    match &e2 {
        Expression::ArrayLiteral(items) => {
            assert_eq!(items.len(), 2);
            match &items[1] {
                Expression::ArrayLiteral(inner) => assert_eq!(inner.len(), 2),
                other => panic!("expected a nested array, got {:?}", other),
            }
        }
        other => panic!("expected an array, got {:?}", other),
    }
}

#[test]
fn literals_render_in_surface_syntax() {
    assert_eq!(expression_to_source(&Expression::NumberLiteral(42)), "42");
    assert_eq!(expression_to_source(&Expression::NumberLiteral(-7)), "-7");
    assert_eq!(expression_to_source(&Expression::Null), "null");
    assert_eq!(
        expression_to_source(&Expression::StringLiteral("hi".into())),
        "\"hi\""
    );
    assert_eq!(expression_to_source(&Expression::BooleanLiteral(true)), "true");
}

#[test]
fn binary_nodes_parenthesize_and_round_trip() {
    let e = parse("1 + 2 * 3");
    let text = expression_to_source(&e);
    assert_eq!(text, "(1 + (2 * 3))");
    assert_eq!(parse(&text), e);
}

#[test]
fn object_literals_round_trip() {
    let e = parse("#{ username: \"test\" }");
    let text = expression_to_source(&e);
    assert_eq!(text, "#{ username: \"test\" }");
    assert_eq!(parse(&text), e);
}

#[test]
fn empty_object_renders_compactly() {
    assert_eq!(expression_to_source(&parse("#{}")), "#{}");
    assert_eq!(expression_to_source(&parse("User{}")), "User{}");
}

#[test]
fn calls_round_trip() {
    let e = parse("f(1)(2, g())");
    let text = expression_to_source(&e);
    assert_eq!(text, "f(1)(2, g())");
    assert_eq!(parse(&text), e);
}
