use vstd::prelude::*;

use crate::expression::view_names;
use crate::expression::Expression;
use crate::expression::ExpressionV;
use crate::operator::Operator;

verus! {

broadcast use vstd::std_specs::vec::axiom_vec_index_decreases, vstd::std_specs::vec::axiom_vec_decreases_to_view, vstd::seq::axiom_seq_index_decreases;

/// One statement of a program.
#[derive(Debug, PartialEq, Eq)]
pub enum Ast {
    FunctionDefinition(String, Vec<String>, Vec<Ast>),
    StaticFunctionDefinition(String, Vec<String>, Vec<Ast>),
    VariableDefinition(String, Expression),
    VariableAssignment(String, Expression),
    ClassDefinition(String, Vec<ClassMember>),
    OperatorImplementation(Operator, Vec<String>, Vec<Ast>),
    IfStatement(Expression, Vec<Ast>),
    ReturnStatement(Expression),
    ImportStatement(String),
    ExportStatement(Box<Ast>),
    FunctionCall(String, Vec<Expression>),
    Expression(Expression),
}

/// One member of a class body: a field with its default, an instance method,
/// a static method, or an operator overload.
#[derive(Debug, PartialEq, Eq)]
pub enum ClassMember {
    Field(String, Expression),
    Function(String, Vec<String>, Vec<Ast>),
    StaticFunction(String, Vec<String>, Vec<Ast>),
    Operator(Operator, Vec<String>, Vec<Ast>),
}

/// A statement as a mathematical value.
#[verifier::ext_equal]
pub enum AstV {
    FunctionDefinition(Seq<char>, Seq<Seq<char>>, Seq<AstV>),
    StaticFunctionDefinition(Seq<char>, Seq<Seq<char>>, Seq<AstV>),
    VariableDefinition(Seq<char>, ExpressionV),
    VariableAssignment(Seq<char>, ExpressionV),
    ClassDefinition(Seq<char>, Seq<ClassMemberV>),
    OperatorImplementation(Operator, Seq<Seq<char>>, Seq<AstV>),
    IfStatement(ExpressionV, Seq<AstV>),
    ReturnStatement(ExpressionV),
    ImportStatement(Seq<char>),
    ExportStatement(Box<AstV>),
    FunctionCall(Seq<char>, Seq<ExpressionV>),
    Expression(ExpressionV),
}

/// A class member as a mathematical value.
#[verifier::ext_equal]
pub enum ClassMemberV {
    Field(Seq<char>, ExpressionV),
    Function(Seq<char>, Seq<Seq<char>>, Seq<AstV>),
    StaticFunction(Seq<char>, Seq<Seq<char>>, Seq<AstV>),
    Operator(Operator, Seq<Seq<char>>, Seq<AstV>),
}

impl View for Ast {
    type V = AstV;

    open spec fn view(&self) -> AstV
        decreases self,
    {
        match self {
            Ast::FunctionDefinition(name, params, body) => AstV::FunctionDefinition(
                name@,
                view_names(*params),
                view_asts(body@),
            ),
            Ast::StaticFunctionDefinition(name, params, body) => AstV::StaticFunctionDefinition(
                name@,
                view_names(*params),
                view_asts(body@),
            ),
            Ast::VariableDefinition(name, e) => AstV::VariableDefinition(name@, e@),
            Ast::VariableAssignment(name, e) => AstV::VariableAssignment(name@, e@),
            Ast::ClassDefinition(name, members) => AstV::ClassDefinition(
                name@,
                view_members(members@),
            ),
            Ast::OperatorImplementation(op, params, body) => AstV::OperatorImplementation(
                *op,
                view_names(*params),
                view_asts(body@),
            ),
            Ast::IfStatement(cond, body) => AstV::IfStatement(
                cond@,
                view_asts(body@),
            ),
            Ast::ReturnStatement(e) => AstV::ReturnStatement(e@),
            Ast::ImportStatement(path) => AstV::ImportStatement(path@),
            Ast::ExportStatement(inner) => AstV::ExportStatement(Box::new((**inner)@)),
            Ast::FunctionCall(name, args) => AstV::FunctionCall(
                name@,
                crate::expression::view_exprs(args@),
            ),
            Ast::Expression(e) => AstV::Expression(e@),
        }
    }
}

impl View for ClassMember {
    type V = ClassMemberV;

    open spec fn view(&self) -> ClassMemberV
        decreases self,
    {
        match self {
            ClassMember::Field(name, e) => ClassMemberV::Field(name@, e@),
            ClassMember::Function(name, params, body) => ClassMemberV::Function(
                name@,
                view_names(*params),
                view_asts(body@),
            ),
            ClassMember::StaticFunction(name, params, body) => ClassMemberV::StaticFunction(
                name@,
                view_names(*params),
                view_asts(body@),
            ),
            ClassMember::Operator(op, params, body) => ClassMemberV::Operator(
                *op,
                view_names(*params),
                view_asts(body@),
            ),
        }
    }
}

/// The views of a list of statements.
pub open spec fn view_asts(v: Seq<Ast>) -> Seq<AstV>
    decreases v,
{
    Seq::new(
        v.len(),
        |i: int|
            if 0 <= i < v.len() {
                v[i]@
            } else {
                AstV::Expression(ExpressionV::Null)
            },
    )
}

/// The views of a list of class members.
pub open spec fn view_members(v: Seq<ClassMember>) -> Seq<ClassMemberV>
    decreases v,
{
    Seq::new(
        v.len(),
        |i: int|
            if 0 <= i < v.len() {
                v[i]@
            } else {
                ClassMemberV::Field(Seq::<char>::empty(), ExpressionV::Null)
            },
    )
}

} // verus!
