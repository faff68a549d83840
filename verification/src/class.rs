use vstd::prelude::*;

use crate::ast::Ast;
use crate::expression::Expression;
use crate::operator::Operator;

verus! {

/// A user-defined function: parameter names and body statements.
#[derive(Debug, PartialEq, Eq)]
pub struct Function {
    pub params: Vec<String>,
    pub body: Vec<Ast>,
}

/// A registered class: its field defaults in declaration order, its
/// instance methods, static methods and operator overloads. Classes are
/// immutable once registered; instances refer to them by name.
#[derive(Debug, PartialEq, Eq)]
pub struct Class {
    pub name: String,
    pub fields: Vec<(String, Expression)>,
    pub methods: Vec<(String, Function)>,
    pub static_methods: Vec<(String, Function)>,
    pub operators: Vec<(Operator, Function)>,
}

/// The position of the first entry bound under name `n`, at or after `i`.
pub open spec fn spec_fn_index(table: Seq<(String, Function)>, n: Seq<char>, i: int) -> Option<int>
    decreases table.len() - i,
{
    if i < 0 || i >= table.len() {
        None
    } else if table[i].0@ == n {
        Some(i)
    } else {
        spec_fn_index(table, n, i + 1)
    }
}

/// The position of the first overload bound to `o`, at or after `i`.
pub open spec fn spec_op_index(table: Seq<(Operator, Function)>, o: Operator, i: int) -> Option<
    int,
>
    decreases table.len() - i,
{
    if i < 0 || i >= table.len() {
        None
    } else if table[i].0 == o {
        Some(i)
    } else {
        spec_op_index(table, o, i + 1)
    }
}

/// The function bound under `name`: the first matching entry's, exactly.
pub fn find_function<'a>(table: &'a Vec<(String, Function)>, name: &String) -> (r: Option<
    &'a Function,
>)
    ensures
        match spec_fn_index(table@, name@, 0) {
            Some(k) => r matches Some(f) && *f == table@[k].1,
            None => r is None,
        },
{
    let mut i: usize = 0;
    while i < table.len()
        invariant
            i <= table.len(),
            spec_fn_index(table@, name@, 0) == spec_fn_index(table@, name@, i as int),
        decreases table.len() - i,
    {
        if table[i].0 == *name {
            return Some(&table[i].1);
        }
        i = i + 1;
    }
    None
}

/// The overload bound to `op`: the first matching entry's, exactly.
pub fn find_operator<'a>(table: &'a Vec<(Operator, Function)>, op: Operator) -> (r: Option<
    &'a Function,
>)
    ensures
        match spec_op_index(table@, op, 0) {
            Some(k) => r matches Some(f) && *f == table@[k].1,
            None => r is None,
        },
{
    let mut i: usize = 0;
    while i < table.len()
        invariant
            i <= table.len(),
            spec_op_index(table@, op, 0) == spec_op_index(table@, op, i as int),
        decreases table.len() - i,
    {
        let here = match (&table[i].0, &op) {
            (Operator::Add, Operator::Add) => true,
            (Operator::Dot, Operator::Dot) => true,
            _ => false,
        };
        if here {
            return Some(&table[i].1);
        }
        i = i + 1;
    }
    None
}

} // verus!
