use tilescript::Dynamic;
use tilescript::EvalError;
use tilescript::ExprParser;
use tilescript::Interpreter;
use tilescript::Module;
use tilescript::NativeHost;
use tilescript::Parser;

/// A host that records every argument handed to any native call.
struct Recorder {
    seen: Vec<Dynamic>,
}

impl NativeHost for Recorder {
    fn call_native(&mut self, _name: &String, mut args: Vec<Dynamic>) -> Result<Dynamic, EvalError> {
        self.seen.append(&mut args);
        Ok(Dynamic::Null)
    }
}

fn eval(src: &str) -> Result<Dynamic, EvalError> {
    let tokens = tilescript::lex(src).unwrap();
    let e = ExprParser.parse(&tokens).unwrap();
    let mut it = Interpreter::new();
    let mut host = Recorder { seen: Vec::new() };
    it.eval_in_root(&mut host, &e, 100000)
}

fn run(src: &str) -> (Result<(), EvalError>, Vec<Dynamic>) {
    let mut parser = Parser::new();
    parser.set_source("main".to_string(), src).unwrap();
    let prog = parser.parse().unwrap();
    let mut it = Interpreter::new();
    it.define_native("print".to_string());
    let mut host = Recorder { seen: Vec::new() };
    let r = it.run_program(&mut host, &prog, 1000000);
    (r, host.seen)
}

#[test]
fn precedence_multiplication_binds_tighter() {
    assert_eq!(eval("1 + 2 * 3"), Ok(Dynamic::Number(7)));
    assert_eq!(eval("(1 + 2) * 3"), Ok(Dynamic::Number(9)));
}

#[test]
fn additive_operators_associate_left() {
    assert_eq!(eval("1 + 2 - 3"), Ok(Dynamic::Number(0)));
}

#[test]
fn string_concatenation() {
    assert_eq!(eval("\"ab\" + \"cd\""), Ok(Dynamic::Str("abcd".to_string())));
}

#[test]
fn division_by_zero_fails() {
    assert_eq!(eval("1 / 0"), Err(EvalError::DivisionByZero));
}

#[test]
fn division_of_numbers() {
    assert_eq!(eval("7 / 2"), Ok(Dynamic::Number(3)));
}

#[test]
fn concatenation_takes_either_string_operand() {
    assert_eq!(eval("1 + \"x\""), Ok(Dynamic::Str("1x".to_string())));
    assert_eq!(eval("\"n = \" + 5"), Ok(Dynamic::Str("n = 5".to_string())));
    assert_eq!(eval("\"is \" + true"), Ok(Dynamic::Str("is true".to_string())));
    assert_eq!(eval("\"v: \" + null"), Ok(Dynamic::Str("v: null".to_string())));
}

#[test]
fn type_mismatch_without_overload() {
    assert_eq!(eval("[1] + \"x\""), Err(EvalError::TypeMismatch));
    assert_eq!(eval("1 + true"), Err(EvalError::TypeMismatch));
}

#[test]
fn division_truncates_with_negatives() {
    assert_eq!(eval("(0 - 7) / 2"), Ok(Dynamic::Number(-3)));
    assert_eq!(eval("7 / (0 - 2)"), Ok(Dynamic::Number(-3)));
    assert_eq!(eval("(0 - 7) / (0 - 2)"), Ok(Dynamic::Number(3)));
}

#[test]
fn duplicate_object_field_keeps_the_later_value() {
    let (r, seen) = run("var o = #{ a: 1, a: 2 };\nprint(o.a);");
    assert_eq!(r, Ok(()));
    assert_eq!(seen, vec![Dynamic::Number(2)]);
}

#[test]
fn chained_call_statement_runs() {
    let (r, seen) = run(
        "fn mk() {\nreturn () => 9;\n}\nmk()();\nprint(mk()());",
    );
    assert_eq!(r, Ok(()));
    assert_eq!(seen, vec![Dynamic::Number(9)]);
}

#[test]
fn call_statement_with_arithmetic_parses() {
    let mut parser = Parser::new();
    parser
        .set_source("main".to_string(), "f(1) + 2;")
        .unwrap();
    let prog = parser.parse().unwrap();
    assert_eq!(prog.stmts.len(), 1);
    match &prog.stmts[0] {
        tilescript::Ast::Expression(tilescript::Expression::BinaryOp(_, op, _)) => {
            assert_eq!(op, "+");
        }
        other => panic!("expected an expression statement, got {:?}", other),
    }
}

#[test]
fn unbound_identifier_is_an_error() {
    assert_eq!(
        eval("missing"),
        Err(EvalError::UnboundName("missing".to_string()))
    );
}

#[test]
fn unbound_name_in_statement() {
    let (r, _) = run("print(nope);");
    assert_eq!(r, Err(EvalError::UnboundName("nope".to_string())));
}

#[test]
fn variables_define_and_read() {
    let (r, seen) = run("var x = 41;\nprint(x + 1);");
    assert_eq!(r, Ok(()));
    assert_eq!(seen, vec![Dynamic::Number(42)]);
}

#[test]
fn assignment_updates_nearest_binding() {
    let (r, seen) = run("var x = 1;\nif 1 {\nx = 5;\n}\nprint(x);");
    assert_eq!(r, Ok(()));
    assert_eq!(seen, vec![Dynamic::Number(5)]);
}

#[test]
fn assignment_to_undefined_name_fails() {
    let (r, _) = run("x = 1;");
    assert_eq!(r, Err(EvalError::UnboundName("x".to_string())));
}

#[test]
fn if_block_scope_is_not_visible_after() {
    let (r, _) = run("if 1 {\nvar y = 5;\n}\nprint(y);");
    assert_eq!(r, Err(EvalError::UnboundName("y".to_string())));
}

#[test]
fn closure_capture_outlives_frame() {
    let (r, seen) = run("fn mk() {\nvar v = 7;\nreturn () => v;\n}\nvar f = mk();\nprint(f());");
    assert_eq!(r, Ok(()));
    assert_eq!(seen, vec![Dynamic::Number(7)]);
}

#[test]
fn falsy_condition_skips_block() {
    let (r, seen) = run("var x = 1;\nif 0 {\nx = 9;\n}\nprint(x);");
    assert_eq!(r, Ok(()));
    assert_eq!(seen, vec![Dynamic::Number(1)]);
}

#[test]
fn return_unwinds_to_call_frame() {
    let (r, seen) = run("fn f() {\nif 1 {\nreturn 3;\n}\nreturn 4;\n}\nprint(f());");
    assert_eq!(r, Ok(()));
    assert_eq!(seen, vec![Dynamic::Number(3)]);
}

#[test]
fn missing_arguments_bind_null() {
    let (r, seen) = run("fn f(a, b) {\nreturn b;\n}\nprint(f(1));");
    assert_eq!(r, Ok(()));
    assert_eq!(seen, vec![Dynamic::Null]);
}

#[test]
fn operator_overload_dispatches() {
    let (r, seen) = run(
        "class A {\nop add(other) {\nreturn 42;\n}\n}\nvar r = A{} + A{};\nprint(r);",
    );
    assert_eq!(r, Ok(()));
    assert_eq!(seen, vec![Dynamic::Number(42)]);
}

#[test]
fn instance_fields_take_defaults() {
    let (r, seen) = run("class P {\nvar hp = 3;\n}\nprint(P{}.hp);");
    assert_eq!(r, Ok(()));
    assert_eq!(seen, vec![Dynamic::Number(3)]);
}

#[test]
fn instantiation_fields_override_defaults() {
    let (r, seen) = run("class P {\nvar hp = 3;\n}\nprint(P{ hp: 9 }.hp);");
    assert_eq!(r, Ok(()));
    assert_eq!(seen, vec![Dynamic::Number(9)]);
}

#[test]
fn instance_method_binds_this() {
    let (r, seen) = run(
        "class P {\nvar hp = 5;\nfn health() {\nreturn this.hp;\n}\n}\nprint(P{}.health());",
    );
    assert_eq!(r, Ok(()));
    assert_eq!(seen, vec![Dynamic::Number(5)]);
}

#[test]
fn static_method_call() {
    let (r, seen) = run(
        "class U {\nstatic fn new() {\nreturn 9;\n}\n}\nprint(U.new());",
    );
    assert_eq!(r, Ok(()));
    assert_eq!(seen, vec![Dynamic::Number(9)]);
}

#[test]
fn unknown_class_fails() {
    let (r, _) = run("var x = Ghost{};");
    assert_eq!(r, Err(EvalError::UnknownClass("Ghost".to_string())));
}

#[test]
fn duplicate_class_fails() {
    let (r, _) = run("class A {\n}\nclass A {\n}");
    assert_eq!(r, Err(EvalError::DuplicateClass("A".to_string())));
}

#[test]
fn array_builtins_push_pop_len() {
    let (r, seen) = run("var a = [1];\na.push(2);\nprint(a.len());\nprint(a.pop());");
    assert_eq!(r, Ok(()));
    assert_eq!(seen, vec![Dynamic::Number(2), Dynamic::Number(2)]);
}

#[test]
fn calling_a_number_fails() {
    let (r, _) = run("var f = 3;\nprint(f());");
    assert_eq!(r, Err(EvalError::NotCallable));
}

#[test]
fn export_twice_is_idempotent() {
    let mut m = Module::new("m".to_string(), Vec::new());
    m.add_export("a".to_string());
    m.add_export("a".to_string());
    m.add_export("b".to_string());
    assert_eq!(m.exports, vec!["a".to_string(), "b".to_string()]);
}

#[test]
fn import_merges_exports() {
    let mut lib_parser = Parser::new();
    lib_parser
        .set_source("lib".to_string(), "var answer = 42;\nexport answer;")
        .unwrap();
    let lib = lib_parser.parse().unwrap();
    let mut main_parser = Parser::new();
    main_parser
        .set_source("main".to_string(), "import lib;\nprint(answer);")
        .unwrap();
    let main = main_parser.parse().unwrap();
    let mut it = Interpreter::new();
    it.define_native("print".to_string());
    let _lib_idx = it.register_module("lib".to_string(), lib.stmts);
    let main_idx = it.register_module("main".to_string(), main.stmts);
    let mut host = Recorder { seen: Vec::new() };
    let r = it.run_module(&mut host, main_idx, 1000000);
    assert_eq!(r, Ok(()));
    assert_eq!(host.seen, vec![Dynamic::Number(42)]);
}

#[test]
fn import_cycle_is_fatal() {
    let mut a_parser = Parser::new();
    a_parser.set_source("a".to_string(), "import b;").unwrap();
    let a = a_parser.parse().unwrap();
    let mut b_parser = Parser::new();
    b_parser.set_source("b".to_string(), "import a;").unwrap();
    let b = b_parser.parse().unwrap();
    let mut it = Interpreter::new();
    let a_idx = it.register_module("a".to_string(), a.stmts);
    let _b_idx = it.register_module("b".to_string(), b.stmts);
    let mut host = Recorder { seen: Vec::new() };
    let r = it.run_module(&mut host, a_idx, 1000000);
    assert_eq!(r, Err(EvalError::ImportCycle));
}

#[test]
fn unknown_import_fails() {
    let (r, _) = run("import nowhere;");
    assert_eq!(r, Err(EvalError::UnknownModule("nowhere".to_string())));
}

#[test]
fn object_literal_field_access() {
    let (r, seen) = run("var o = #{ hp: 11 };\nprint(o.hp);");
    assert_eq!(r, Ok(()));
    assert_eq!(seen, vec![Dynamic::Number(11)]);
}

#[test]
fn array_round_trip_structure() {
    let tokens = tilescript::lex("[1, [2, 3]]").unwrap();
    let e = ExprParser.parse(&tokens).unwrap();
    match &e {
        tilescript::Expression::ArrayLiteral(items) => {
            assert_eq!(items.len(), 2);
            match &items[1] {
                tilescript::Expression::ArrayLiteral(inner) => assert_eq!(inner.len(), 2),
                other => panic!("expected a nested array, got {:?}", other),
            }
        }
        other => panic!("expected an array, got {:?}", other),
    }
}
