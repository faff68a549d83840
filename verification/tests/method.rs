use tilescript::Builtin;
use tilescript::Dynamic;
use tilescript::EvalError;
use tilescript::Interpreter;
use tilescript::Method;
use tilescript::NativeHost;

struct NoHost;

impl NativeHost for NoHost {
    fn call_native(&mut self, _name: &String, _args: Vec<Dynamic>) -> Result<Dynamic, EvalError> {
        Ok(Dynamic::Null)
    }
}

#[test]
fn push_appends_and_returns_null() {
    let m = Method::new("push", Builtin::Push);
    let this = Dynamic::Array(vec![Dynamic::Number(1)]);
    let (after, out) = m.invoke(this, vec![Dynamic::Number(2)]).unwrap();
    assert_eq!(out, Dynamic::Null);
    assert_eq!(
        after,
        Dynamic::Array(vec![Dynamic::Number(1), Dynamic::Number(2)])
    );
}

#[test]
fn pop_removes_the_last_element() {
    let m = Method::new("pop", Builtin::Pop);
    let this = Dynamic::Array(vec![Dynamic::Number(1), Dynamic::Number(2)]);
    let (after, out) = m.invoke(this, vec![]).unwrap();
    assert_eq!(out, Dynamic::Number(2));
    assert_eq!(after, Dynamic::Array(vec![Dynamic::Number(1)]));
}

#[test]
fn pop_on_empty_yields_null() {
    let m = Method::new("pop", Builtin::Pop);
    let (after, out) = m.invoke(Dynamic::Array(vec![]), vec![]).unwrap();
    assert_eq!(out, Dynamic::Null);
    assert_eq!(after, Dynamic::Array(vec![]));
}

#[test]
fn len_counts_arrays_and_strings() {
    let m = Method::new("len", Builtin::Len);
    let (_, out) = m
        .invoke(Dynamic::Array(vec![Dynamic::Null, Dynamic::Null]), vec![])
        .unwrap();
    assert_eq!(out, Dynamic::Number(2));
    let (_, out2) = m.invoke(Dynamic::Str("abc".to_string()), vec![]).unwrap();
    assert_eq!(out2, Dynamic::Number(3));
}

#[test]
fn len_on_a_number_is_a_type_mismatch() {
    let m = Method::new("len", Builtin::Len);
    assert_eq!(
        m.invoke(Dynamic::Number(1), vec![]),
        Err(EvalError::TypeMismatch)
    );
}

#[test]
fn into_dynamic_binds_the_receiver() {
    let m = Method::new("len", Builtin::Len);
    let bound = m.into_dynamic(Dynamic::Array(vec![Dynamic::Null]));
    let mut it = Interpreter::new();
    let mut host = NoHost;
    let r = it.call_value(&mut host, bound, vec![], 100);
    assert_eq!(r, Ok(Dynamic::Number(1)));
}
