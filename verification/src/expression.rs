use vstd::prelude::*;

use crate::ast::Ast;
use crate::ast::AstV;

verus! {

broadcast use vstd::std_specs::vec::axiom_vec_index_decreases, vstd::std_specs::vec::axiom_vec_decreases_to_view, vstd::seq::axiom_seq_index_decreases;

/// An expression tree node. Member access and scoped paths are `BinaryOp`
/// nodes whose operator text is `.` or `::`; every call's callee is itself an
/// expression, so call chains nest.
#[derive(Debug, PartialEq, Eq)]
pub enum Expression {
    NumberLiteral(i64),
    StringLiteral(String),
    BooleanLiteral(bool),
    Null,
    Identifier(String),
    ClassIdentifier(String),
    ArrayLiteral(Vec<Expression>),
    ObjectLiteral(Vec<(String, Expression)>),
    ClassInstantiation(String, Vec<(String, Expression)>),
    FunctionCall(Box<Expression>, Vec<Expression>),
    BinaryOp(Box<Expression>, String, Box<Expression>),
    ArrowFunction(Vec<String>, Vec<Ast>),
}

/// An expression as a mathematical value: texts as character sequences,
/// lists as sequences.
#[verifier::ext_equal]
pub enum ExpressionV {
    NumberLiteral(int),
    StringLiteral(Seq<char>),
    BooleanLiteral(bool),
    Null,
    Identifier(Seq<char>),
    ClassIdentifier(Seq<char>),
    ArrayLiteral(Seq<ExpressionV>),
    ObjectLiteral(Seq<(Seq<char>, ExpressionV)>),
    ClassInstantiation(Seq<char>, Seq<(Seq<char>, ExpressionV)>),
    FunctionCall(Box<ExpressionV>, Seq<ExpressionV>),
    BinaryOp(Box<ExpressionV>, Seq<char>, Box<ExpressionV>),
    ArrowFunction(Seq<Seq<char>>, Seq<AstV>),
}

/// The views of a list of strings.
pub open spec fn view_strs(v: Seq<String>) -> Seq<Seq<char>> {
    Seq::new(v.len(), |i: int| if 0 <= i < v.len() { v[i]@ } else { Seq::empty() })
}

/// The views of a parameter-name list.
pub open spec fn view_names(v: Vec<String>) -> Seq<Seq<char>> {
    view_strs(v@)
}

/// The views of a list of expressions.
pub open spec fn view_exprs(v: Seq<Expression>) -> Seq<ExpressionV>
    decreases v,
{
    Seq::new(
        v.len(),
        |i: int|
            if 0 <= i < v.len() {
                v[i]@
            } else {
                ExpressionV::Null
            },
    )
}

/// The views of a field list.
pub open spec fn view_fields(v: Seq<(String, Expression)>) -> Seq<(Seq<char>, ExpressionV)>
    decreases v,
{
    Seq::new(
        v.len(),
        |i: int|
            if 0 <= i < v.len() {
                (v[i].0@, v[i].1@)
            } else {
                (Seq::<char>::empty(), ExpressionV::Null)
            },
    )
}

impl View for Expression {
    type V = ExpressionV;

    open spec fn view(&self) -> ExpressionV
        decreases self,
    {
        match self {
            Expression::NumberLiteral(n) => ExpressionV::NumberLiteral(*n as int),
            Expression::StringLiteral(s) => ExpressionV::StringLiteral(s@),
            Expression::BooleanLiteral(b) => ExpressionV::BooleanLiteral(*b),
            Expression::Null => ExpressionV::Null,
            Expression::Identifier(s) => ExpressionV::Identifier(s@),
            Expression::ClassIdentifier(s) => ExpressionV::ClassIdentifier(s@),
            Expression::ArrayLiteral(items) => ExpressionV::ArrayLiteral(view_exprs(items@)),
            Expression::ObjectLiteral(fields) => ExpressionV::ObjectLiteral(view_fields(fields@)),
            Expression::ClassInstantiation(name, fields) => ExpressionV::ClassInstantiation(
                name@,
                view_fields(fields@),
            ),
            Expression::FunctionCall(callee, args) => ExpressionV::FunctionCall(
                Box::new((**callee)@),
                view_exprs(args@),
            ),
            Expression::BinaryOp(lhs, op, rhs) => ExpressionV::BinaryOp(
                Box::new((**lhs)@),
                op@,
                Box::new((**rhs)@),
            ),
            Expression::ArrowFunction(params, body) => ExpressionV::ArrowFunction(
                view_names(*params),
                crate::ast::view_asts(body@),
            ),
        }
    }
}

} // verus!
