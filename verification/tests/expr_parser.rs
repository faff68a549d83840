use tilescript::Ast;
use tilescript::Expression;
use tilescript::Expression::ArrayLiteral;
use tilescript::Expression::BooleanLiteral;
use tilescript::Expression::ClassIdentifier;
use tilescript::Expression::ClassInstantiation;
use tilescript::Expression::FunctionCall;
use tilescript::Expression::Identifier;
use tilescript::Expression::NumberLiteral;
use tilescript::Expression::ObjectLiteral;
use tilescript::Expression::StringLiteral;
use tilescript::ExprParser;

fn parse(input: &str) -> Expression {
    let tokens = tilescript::lex(input).unwrap();
    ExprParser.parse(&tokens).unwrap()
}

fn binary(lhs: Expression, op: &str, rhs: Expression) -> Expression {
    Expression::BinaryOp(Box::new(lhs), op.into(), Box::new(rhs))
}

#[test]
fn test1() {
    assert_eq!(
        parse("1 + 2"),
        binary(NumberLiteral(1), "+", NumberLiteral(2),)
    );
}

#[test]
fn test2() {
    assert_eq!(
        parse("1 + 2 - 3"),
        binary(
            binary(NumberLiteral(1), "+", NumberLiteral(2),),
            "-",
            NumberLiteral(3)
        )
    );
}

#[test]
fn test3() {
    assert_eq!(
        parse("1 + 2 * 3"),
        binary(
            NumberLiteral(1),
            "+",
            binary(NumberLiteral(2), "*", NumberLiteral(3),),
        )
    );
}

#[test]
fn test4() {
    assert_eq!(
        parse("(1 + 2) * 3"),
        binary(
            binary(NumberLiteral(1), "+", NumberLiteral(2)),
            "*",
            NumberLiteral(3),
        )
    );
}

#[test]
fn test5() {
    assert_eq!(
        parse(r#"a + " world""#),
        binary(Identifier("a".into()), "+", StringLiteral(" world".into()),)
    );
}

#[test]
fn test6() {
    assert_eq!(
        parse(r#"test()"#),
        FunctionCall(Box::new(Identifier("test".into())), vec![]),
    );
}

#[test]
fn test7() {
    assert_eq!(
        parse(r#"print(hello, world)"#),
        FunctionCall(
            Box::new(Identifier("print".into())),
            vec![Identifier("hello".into()), Identifier("world".into())]
        ),
    );
}

#[test]
fn test8() {
    assert_eq!(
        parse(r#"print(get_message(), "string", 2, (1 + 3), true)"#),
        FunctionCall(
            Box::new(Identifier("print".into())),
            vec![
                FunctionCall(Box::new(Identifier("get_message".into())), vec![]),
                StringLiteral("string".into()),
                NumberLiteral(2),
                binary(NumberLiteral(1), "+", NumberLiteral(3)),
                BooleanLiteral(true)
            ]
        ),
    );
}

#[test]
fn test9() {
    assert_eq!(
        parse(r#""Hello " + test()"#),
        binary(
            StringLiteral("Hello ".into()),
            "+",
            FunctionCall(Box::new(Identifier("test".into())), vec![]),
        )
    );
}

#[test]
fn test10() {
    assert_eq!(
        parse(r"account.username"),
        binary(
            Identifier("account".into()),
            ".",
            Identifier("username".into()),
        )
    );
}

#[test]
fn test11() {
    assert_eq!(
        parse(r"[1, 2]"),
        ArrayLiteral(vec![NumberLiteral(1), NumberLiteral(2),])
    );
}

#[test]
fn test12() {
    assert_eq!(
        parse(r"[1, [2, 3]]"),
        ArrayLiteral(vec![
            NumberLiteral(1),
            ArrayLiteral(vec![NumberLiteral(2), NumberLiteral(3),])
        ])
    );
}

#[test]
fn test13() {
    assert_eq!(
        parse(r"print([this, other])"),
        FunctionCall(
            Box::new(Identifier("print".into())),
            vec![ArrayLiteral(vec![
                Identifier("this".into()),
                Identifier("other".into()),
            ])]
        )
    );
}

#[test]
fn test14() {
    assert_eq!(
        parse(r"User{} + User{}"),
        binary(
            ClassInstantiation("User".into(), vec![]),
            "+",
            ClassInstantiation("User".into(), vec![]),
        )
    );
}

#[test]
fn test15() {
    assert_eq!(
        parse(r"User{}.hello()"),
        binary(
            ClassInstantiation("User".into(), vec![]),
            ".",
            FunctionCall(Box::new(Identifier("hello".into())), vec![]),
        )
    );
}

#[test]
fn test16() {
    assert_eq!(parse(r"#{}"), ObjectLiteral(vec![]),);
}

#[test]
fn test17() {
    assert_eq!(
        parse(r#"#{ username: "test" }"#),
        ObjectLiteral(vec![("username".to_string(), StringLiteral("test".into()))]),
    );
}

#[test]
fn test18() {
    assert_eq!(
        parse(r#"user.names.push(1)"#),
        binary(
            binary(Identifier("user".into()), ".", Identifier("names".into())),
            ".",
            FunctionCall(Box::new(Identifier("push".into())), vec![NumberLiteral(1)])
        ),
    );
}

#[test]
fn test19() {
    assert_eq!(
        parse(r#"User.new()"#),
        binary(
            ClassIdentifier("User".into()),
            ".",
            FunctionCall(Box::new(Identifier("new".into())), vec![])
        ),
    );
}

#[test]
fn test20() {
    assert_eq!(
        parse(r#"user::call()"#),
        binary(
            Identifier("user".into()),
            "::",
            FunctionCall(Box::new(Identifier("call".into())), vec![])
        ),
    );
}

#[test]
fn test21() {
    assert_eq!(
        parse(r#"user::functions::call()"#),
        binary(
            binary(
                Identifier("user".into()),
                "::",
                Identifier("functions".into()),
            ),
            "::",
            FunctionCall(Box::new(Identifier("call".into())), vec![])
        ),
    );
}

#[test]
fn test22() {
    assert_eq!(parse(r#"() => {}"#), Expression::ArrowFunction(vec![], vec![]));
}

#[test]
fn test23() {
    assert_eq!(
        parse(
            r#"() => {
                    print(1);
                }"#
        ),
        Expression::ArrowFunction(
            vec![],
            vec![Ast::FunctionCall(
                "print".into(),
                vec![Expression::NumberLiteral(1)]
            )]
        )
    );
}

#[test]
fn test24() {
    assert_eq!(
        parse(
            r#"#{
                    f: () => {
                        print("hello world");
                    }
                }"#
        ),
        ObjectLiteral(vec![(
            "f".to_string(),
            Expression::ArrowFunction(
                vec![],
                vec![Ast::FunctionCall(
                    "print".into(),
                    vec![Expression::StringLiteral("hello world".into())]
                )]
            )
        )])
    );
}

#[test]
fn duplicate_field_names_keep_one_entry() {
    assert_eq!(
        parse(r#"#{ a: 1, a: 2 }"#),
        ObjectLiteral(vec![("a".to_string(), NumberLiteral(2))]),
    );
}

#[test]
fn test25() {
    assert_eq!(
        parse(r#"f()()"#),
        FunctionCall(
            Box::new(FunctionCall(Box::new(Identifier("f".into())), vec![])),
            vec![]
        )
    );
}
