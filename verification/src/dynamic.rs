use vstd::prelude::*;

use crate::ast::view_asts;
use crate::ast::Ast;
use crate::ast::AstV;
use crate::expression::view_names;
use crate::expression::view_strs;
use crate::method::Builtin;

verus! {

broadcast use vstd::std_specs::vec::axiom_vec_index_decreases, vstd::std_specs::vec::axiom_vec_decreases_to_view, vstd::seq::axiom_seq_index_decreases;

/// What a callable native value runs: a host-registered callback, reached
/// through the host trait, or one of the built-in methods.
#[derive(Debug, Clone, Copy, PartialEq, Eq)]
pub enum Callback {
    Host,
    Builtin(Builtin),
}

/// A runtime value: the dynamically typed tagged union the evaluator works
/// on. Closures capture their defining scope by arena handle.
#[derive(Debug, PartialEq, Eq)]
pub enum Dynamic {
    Number(i64),
    Str(String),
    Boolean(bool),
    Null,
    Array(Vec<Dynamic>),
    Object(Vec<(String, Dynamic)>),
    ClassInstance(String, Vec<(String, Dynamic)>),
    Closure { scope: usize, params: Vec<String>, body: Vec<Ast> },
    RustFunction { name: String, captured_scope: Option<usize>, callback: Callback },
    BoundMethod { name: String, builtin: Builtin, receiver: Box<Dynamic> },
}



/// A scope handle that may be absent, as a mathematical value.
#[verifier::ext_equal]
pub enum CapturedScope {
    Missing,
    At(int),
}

/// A runtime value as a mathematical value.
#[verifier::ext_equal]
pub enum DynamicV {
    Number(int),
    Str(Seq<char>),
    Boolean(bool),
    Null,
    Array(Seq<DynamicV>),
    Object(Seq<(Seq<char>, DynamicV)>),
    ClassInstance(Seq<char>, Seq<(Seq<char>, DynamicV)>),
    Closure { scope: int, params: Seq<Seq<char>>, body: Seq<AstV> },
    RustFunction { name: Seq<char>, captured_scope: CapturedScope, callback: Callback },
    BoundMethod { name: Seq<char>, builtin: Builtin, receiver: Box<DynamicV> },
}

/// The views of a list of values.
pub open spec fn view_dyns(v: Seq<Dynamic>) -> Seq<DynamicV>
    decreases v,
{
    Seq::new(
        v.len(),
        |i: int|
            if 0 <= i < v.len() {
                v[i]@
            } else {
                DynamicV::Null
            },
    )
}

/// The views of a name-to-value binding list.
pub open spec fn view_bindings(v: Seq<(String, Dynamic)>) -> Seq<(Seq<char>, DynamicV)>
    decreases v,
{
    Seq::new(
        v.len(),
        |i: int|
            if 0 <= i < v.len() {
                (v[i].0@, v[i].1@)
            } else {
                (Seq::<char>::empty(), DynamicV::Null)
            },
    )
}

impl View for Dynamic {
    type V = DynamicV;

    open spec fn view(&self) -> DynamicV
        decreases self,
    {
        match self {
            Dynamic::Number(n) => DynamicV::Number(*n as int),
            Dynamic::Str(s) => DynamicV::Str(s@),
            Dynamic::Boolean(b) => DynamicV::Boolean(*b),
            Dynamic::Null => DynamicV::Null,
            Dynamic::Array(items) => DynamicV::Array(view_dyns(items@)),
            Dynamic::Object(fields) => DynamicV::Object(view_bindings(fields@)),
            Dynamic::ClassInstance(name, fields) => DynamicV::ClassInstance(
                name@,
                view_bindings(fields@),
            ),
            Dynamic::Closure { scope, params, body } => DynamicV::Closure {
                scope: *scope as int,
                params: view_names(*params),
                body: view_asts(body@),
            },
            Dynamic::RustFunction { name, captured_scope, callback } => DynamicV::RustFunction {
                name: name@,
                captured_scope: match captured_scope {
                    Some(h) => CapturedScope::At(*h as int),
                    None => CapturedScope::Missing,
                },
                callback: *callback,
            },
            Dynamic::BoundMethod { name, builtin, receiver } => DynamicV::BoundMethod {
                name: name@,
                builtin: *builtin,
                receiver: Box::new((**receiver)@),
            },
        }
    }
}

/// An evaluation failure; fatal to the current script run.
#[derive(Debug, Clone, PartialEq, Eq)]
pub enum EvalError {
    /// An identifier that no scope in the chain binds.
    UnboundName(String),
    /// An operator met operands no rule or overload accepts.
    TypeMismatch,
    /// Division by zero.
    DivisionByZero,
    /// A call on a value that is not callable.
    NotCallable,
    /// An instantiation named a class that is not registered.
    UnknownClass(String),
    /// A member that neither the value nor its class provides.
    UnknownMember(String),
    /// An `op` implementation or `static fn` stood outside a class body.
    MisplacedDefinition,
    /// A class name was registered twice in one module.
    DuplicateClass(String),
    /// An import named a module that is not registered.
    UnknownModule(String),
    /// Imports form a cycle.
    ImportCycle,
    /// The step budget ran out.
    OutOfFuel,
    /// The host refused a native call.
    NativeFailure,
}

/// Truthiness: `false`, `null`, zero and the empty string are false;
/// everything else is true.
pub open spec fn spec_truthy(d: DynamicV) -> bool {
    match d {
        DynamicV::Boolean(b) => b,
        DynamicV::Null => false,
        DynamicV::Number(n) => n != 0,
        DynamicV::Str(s) => s.len() != 0,
        _ => true,
    }
}

/// Whether `d` counts as true in a condition; see `spec_truthy`.
pub fn truthy(d: &Dynamic) -> (r: bool)
    ensures
        r == spec_truthy(d@),
{
    match d {
        Dynamic::Boolean(b) => *b,
        Dynamic::Null => false,
        Dynamic::Number(n) => *n != 0,
        Dynamic::Str(s) => !s.as_str().is_empty(),
        _ => true,
    }
}

/// The magnitude of `v`.
pub open spec fn spec_abs(v: int) -> int {
    if v >= 0 {
        v
    } else {
        -v
    }
}

/// Truncated division, the usual machine semantics: the quotient of the
/// magnitudes, negated when the signs differ.
pub open spec fn spec_div_trunc(x: int, y: int) -> int {
    let q = spec_abs(x) / spec_abs(y);
    if (x < 0) != (y < 0) {
        -q
    } else {
        q
    }
}

/// The built-in meaning of a binary operator on two values, before any
/// overload is consulted: wrapping arithmetic on numbers; `+` concatenates
/// when either operand is a string and the other is a scalar, whose text
/// `spec_scalar_text` gives; `/` is truncated division, failing on a zero
/// divisor and on the one quotient that overflows; anything else is a type
/// mismatch.
pub open spec fn spec_binary_builtin(op: Seq<char>, a: DynamicV, b: DynamicV) -> Result<
    DynamicV,
    EvalError,
> {
    if op == "+"@ {
        match (a, b) {
            (DynamicV::Number(x), DynamicV::Number(y)) => Ok(
                DynamicV::Number(vstd::wrapping::i64_specs::wrapping_add(x as i64, y as i64) as int),
            ),
            _ => if a is Str || b is Str {
                match (crate::formatter::spec_scalar_text(a), crate::formatter::spec_scalar_text(
                    b,
                )) {
                    (Some(x), Some(y)) => Ok(DynamicV::Str(x + y)),
                    _ => Err(EvalError::TypeMismatch),
                }
            } else {
                Err(EvalError::TypeMismatch)
            },
        }
    } else if op == "-"@ {
        match (a, b) {
            (DynamicV::Number(x), DynamicV::Number(y)) => Ok(
                DynamicV::Number(vstd::wrapping::i64_specs::wrapping_sub(x as i64, y as i64) as int),
            ),
            _ => Err(EvalError::TypeMismatch),
        }
    } else if op == "*"@ {
        match (a, b) {
            (DynamicV::Number(x), DynamicV::Number(y)) => Ok(
                DynamicV::Number(vstd::wrapping::i64_specs::wrapping_mul(x as i64, y as i64) as int),
            ),
            _ => Err(EvalError::TypeMismatch),
        }
    } else if op == "/"@ {
        match (a, b) {
            (DynamicV::Number(x), DynamicV::Number(y)) => if y == 0 {
                Err(EvalError::DivisionByZero)
            } else if x == i64::MIN && y == -1 {
                Err(EvalError::TypeMismatch)
            } else {
                Ok(DynamicV::Number(spec_div_trunc(x, y)))
            },
            _ => Err(EvalError::TypeMismatch),
        }
    } else {
        Err(EvalError::TypeMismatch)
    }
}

/// Applies the built-in meaning of `op`; see `spec_binary_builtin`.
pub fn binary_builtin(op: &String, a: &Dynamic, b: &Dynamic) -> (r: Result<Dynamic, EvalError>)
    ensures
        match r {
            Ok(d) => spec_binary_builtin(op@, a@, b@) == Ok::<DynamicV, EvalError>(d@),
            Err(e) => spec_binary_builtin(op@, a@, b@) == Err::<DynamicV, EvalError>(e),
        },
{
    if *op == String::from_str("+") {
        match (a, b) {
            (Dynamic::Number(x), Dynamic::Number(y)) => Ok(
                Dynamic::Number(x.wrapping_add(*y)),
            ),
            _ => {
                let a_str = match a {
                    Dynamic::Str(_) => true,
                    _ => false,
                };
                let b_str = match b {
                    Dynamic::Str(_) => true,
                    _ => false,
                };
                if a_str || b_str {
                    match (crate::formatter::scalar_text(a), crate::formatter::scalar_text(b)) {
                        (Some(mut xa), Some(mut xb)) => {
                            xa.append(&mut xb);
                            Ok(Dynamic::Str(crate::strutil::chars_to_string(&xa)))
                        },
                        _ => Err(EvalError::TypeMismatch),
                    }
                } else {
                    Err(EvalError::TypeMismatch)
                }
            },
        }
    } else if *op == String::from_str("-") {
        match (a, b) {
            (Dynamic::Number(x), Dynamic::Number(y)) => Ok(
                Dynamic::Number(x.wrapping_sub(*y)),
            ),
            _ => Err(EvalError::TypeMismatch),
        }
    } else if *op == String::from_str("*") {
        match (a, b) {
            (Dynamic::Number(x), Dynamic::Number(y)) => Ok(
                Dynamic::Number(x.wrapping_mul(*y)),
            ),
            _ => Err(EvalError::TypeMismatch),
        }
    } else if *op == String::from_str("/") {
        match (a, b) {
            (Dynamic::Number(x), Dynamic::Number(y)) => {
                if *y == 0 {
                    Err(EvalError::DivisionByZero)
                } else if *x == i64::MIN && *y == -1 {
                    Err(EvalError::TypeMismatch)
                } else {
                    let ax: u64 = if *x < 0 {
                        ((-(*x + 1)) as u64) + 1
                    } else {
                        *x as u64
                    };
                    let ay: u64 = if *y < 0 {
                        ((-(*y + 1)) as u64) + 1
                    } else {
                        *y as u64
                    };
                    proof {
                        assert(ax as int == spec_abs(*x as int));
                        assert(ay as int == spec_abs(*y as int));
                        assert(ax as int / ay as int <= ax as int) by (nonlinear_arith)
                            requires
                                ay as int >= 1,
                                ax as int >= 0,
                        ;
                    }
                    let q = ax / ay;
                    let neg = (*x < 0) != (*y < 0);
                    let z: i64 = if neg {
                        if q == 0 {
                            0
                        } else {
                            (-((q - 1) as i64)) - 1
                        }
                    } else {
                        proof {
                            if *x == i64::MIN {
                                assert(*y < 0 && *y != -1);
                                assert(ay >= 2);
                                assert(ax as int / ay as int <= ax as int / 2) by (nonlinear_arith)
                                    requires
                                        ay as int >= 2,
                                        ax as int >= 0,
                                ;
                            }
                        }
                        q as i64
                    };
                    proof {
                        assert(z as int == spec_div_trunc(*x as int, *y as int));
                    }
                    Ok(Dynamic::Number(z))
                }
            },
            _ => Err(EvalError::TypeMismatch),
        }
    } else {
        Err(EvalError::TypeMismatch)
    }
}

/// A deep copy of `e`: value semantics for assignments and captures.
pub fn clone_expr(e: &Expression) -> (r: Expression)
    ensures
        r@ == e@,
    decreases *e,
{
    match e {
        Expression::NumberLiteral(n) => Expression::NumberLiteral(*n),
        Expression::StringLiteral(s) => Expression::StringLiteral(s.clone()),
        Expression::BooleanLiteral(b) => Expression::BooleanLiteral(*b),
        Expression::Null => Expression::Null,
        Expression::Identifier(s) => Expression::Identifier(s.clone()),
        Expression::ClassIdentifier(s) => Expression::ClassIdentifier(s.clone()),
        Expression::ArrayLiteral(items) => Expression::ArrayLiteral(clone_exprs(items)),
        Expression::ObjectLiteral(fields) => Expression::ObjectLiteral(clone_field_exprs(fields)),
        Expression::ClassInstantiation(name, fields) => Expression::ClassInstantiation(
            name.clone(),
            clone_field_exprs(fields),
        ),
        Expression::FunctionCall(callee, args) => Expression::FunctionCall(
            Box::new(clone_expr(callee)),
            clone_exprs(args),
        ),
        Expression::BinaryOp(lhs, op, rhs) => Expression::BinaryOp(
            Box::new(clone_expr(lhs)),
            op.clone(),
            Box::new(clone_expr(rhs)),
        ),
        Expression::ArrowFunction(params, body) => Expression::ArrowFunction(
            clone_strings(params),
            clone_asts(body),
        ),
    }
}

use crate::expression::view_exprs;
use crate::expression::view_fields;
use crate::expression::Expression;
use crate::expression::ExpressionV;
use crate::ast::view_members;
use crate::ast::ClassMember;

pub fn clone_strings(v: &Vec<String>) -> (r: Vec<String>)
    ensures
        view_strs(r@) == view_strs(v@),
        r@.len() == v@.len(),
{
    let mut out: Vec<String> = Vec::new();
    let mut i: usize = 0;
    while i < v.len()
        invariant
            i <= v.len(),
            out@.len() == i,
            forall|j: int| 0 <= j < i ==> out@[j]@ == v@[j]@,
        decreases v.len() - i,
    {
        out.push(v[i].clone());
        i = i + 1;
    }
    proof {
        assert(view_strs(out@) =~= view_strs(v@));
    }
    out
}

fn clone_exprs(v: &Vec<Expression>) -> (r: Vec<Expression>)
    ensures
        view_exprs(r@) == view_exprs(v@),
        r@.len() == v@.len(),
    decreases *v,
{
    let mut out: Vec<Expression> = Vec::new();
    let mut i: usize = 0;
    while i < v.len()
        invariant
            i <= v.len(),
            out@.len() == i,
            forall|j: int| 0 <= j < i ==> out@[j]@ == v@[j]@,
        decreases v.len() - i,
    {
        out.push(clone_expr(&v[i]));
        i = i + 1;
    }
    proof {
        assert(view_exprs(out@) =~= view_exprs(v@));
    }
    out
}

pub fn clone_field_exprs(v: &Vec<(String, Expression)>) -> (r: Vec<(String, Expression)>)
    ensures
        view_fields(r@) == view_fields(v@),
        r@.len() == v@.len(),
    decreases *v,
{
    let mut out: Vec<(String, Expression)> = Vec::new();
    let mut i: usize = 0;
    while i < v.len()
        invariant
            i <= v.len(),
            out@.len() == i,
            forall|j: int|
                0 <= j < i ==> (#[trigger] out@[j]).0@ == v@[j].0@ && out@[j].1@ == v@[j].1@,
        decreases v.len() - i,
    {
        let p = &v[i];
        out.push((p.0.clone(), clone_expr(&p.1)));
        i = i + 1;
    }
    proof {
        assert(view_fields(out@) =~= view_fields(v@));
    }
    out
}

/// A deep copy of `a`.
pub fn clone_ast(a: &Ast) -> (r: Ast)
    ensures
        r@ == a@,
    decreases *a,
{
    match a {
        Ast::FunctionDefinition(n, p, b) => Ast::FunctionDefinition(
            n.clone(),
            clone_strings(p),
            clone_asts(b),
        ),
        Ast::StaticFunctionDefinition(n, p, b) => Ast::StaticFunctionDefinition(
            n.clone(),
            clone_strings(p),
            clone_asts(b),
        ),
        Ast::VariableDefinition(n, e) => Ast::VariableDefinition(n.clone(), clone_expr(e)),
        Ast::VariableAssignment(n, e) => Ast::VariableAssignment(n.clone(), clone_expr(e)),
        Ast::ClassDefinition(n, ms) => Ast::ClassDefinition(n.clone(), clone_members(ms)),
        Ast::OperatorImplementation(op, p, b) => Ast::OperatorImplementation(
            *op,
            clone_strings(p),
            clone_asts(b),
        ),
        Ast::IfStatement(c, b) => Ast::IfStatement(clone_expr(c), clone_asts(b)),
        Ast::ReturnStatement(e) => Ast::ReturnStatement(clone_expr(e)),
        Ast::ImportStatement(s) => Ast::ImportStatement(s.clone()),
        Ast::ExportStatement(inner) => Ast::ExportStatement(Box::new(clone_ast(inner))),
        Ast::FunctionCall(n, args) => Ast::FunctionCall(n.clone(), clone_exprs(args)),
        Ast::Expression(e) => Ast::Expression(clone_expr(e)),
    }
}

/// A deep copy of a statement list.
pub fn clone_asts(v: &Vec<Ast>) -> (r: Vec<Ast>)
    ensures
        view_asts(r@) == view_asts(v@),
        r@.len() == v@.len(),
    decreases *v,
{
    let mut out: Vec<Ast> = Vec::new();
    let mut i: usize = 0;
    while i < v.len()
        invariant
            i <= v.len(),
            out@.len() == i,
            forall|j: int| 0 <= j < i ==> out@[j]@ == v@[j]@,
        decreases v.len() - i,
    {
        out.push(clone_ast(&v[i]));
        i = i + 1;
    }
    proof {
        assert(view_asts(out@) =~= view_asts(v@));
    }
    out
}

fn clone_members(v: &Vec<ClassMember>) -> (r: Vec<ClassMember>)
    ensures
        view_members(r@) == view_members(v@),
        r@.len() == v@.len(),
    decreases *v,
{
    let mut out: Vec<ClassMember> = Vec::new();
    let mut i: usize = 0;
    while i < v.len()
        invariant
            i <= v.len(),
            out@.len() == i,
            forall|j: int| 0 <= j < i ==> out@[j]@ == v@[j]@,
        decreases v.len() - i,
    {
        let m = match &v[i] {
            ClassMember::Field(n, e) => ClassMember::Field(n.clone(), clone_expr(e)),
            ClassMember::Function(n, p, b) => ClassMember::Function(
                n.clone(),
                clone_strings(p),
                clone_asts(b),
            ),
            ClassMember::StaticFunction(n, p, b) => ClassMember::StaticFunction(
                n.clone(),
                clone_strings(p),
                clone_asts(b),
            ),
            ClassMember::Operator(op, p, b) => ClassMember::Operator(
                *op,
                clone_strings(p),
                clone_asts(b),
            ),
        };
        out.push(m);
        i = i + 1;
    }
    proof {
        assert(view_members(out@) =~= view_members(v@));
    }
    out
}

/// A deep copy of `d`: assignment and argument passing copy values.
pub fn clone_dynamic(d: &Dynamic) -> (r: Dynamic)
    ensures
        r@ == d@,
    decreases *d,
{
    match d {
        Dynamic::Number(n) => Dynamic::Number(*n),
        Dynamic::Str(s) => Dynamic::Str(s.clone()),
        Dynamic::Boolean(b) => Dynamic::Boolean(*b),
        Dynamic::Null => Dynamic::Null,
        Dynamic::Array(items) => Dynamic::Array(clone_dyns(items)),
        Dynamic::Object(fields) => Dynamic::Object(clone_dyn_fields(fields)),
        Dynamic::ClassInstance(name, fields) => Dynamic::ClassInstance(
            name.clone(),
            clone_dyn_fields(fields),
        ),
        Dynamic::Closure { scope, params, body } => Dynamic::Closure {
            scope: *scope,
            params: clone_strings(params),
            body: clone_asts(body),
        },
        Dynamic::RustFunction { name, captured_scope, callback } => Dynamic::RustFunction {
            name: name.clone(),
            captured_scope: match captured_scope {
                Some(h) => Some(*h),
                None => None,
            },
            callback: *callback,
        },
        Dynamic::BoundMethod { name, builtin, receiver } => Dynamic::BoundMethod {
            name: name.clone(),
            builtin: *builtin,
            receiver: Box::new(clone_dynamic(receiver)),
        },
    }
}

/// A deep copy of a value list.
pub fn clone_dyns(v: &Vec<Dynamic>) -> (r: Vec<Dynamic>)
    ensures
        view_dyns(r@) == view_dyns(v@),
        r@.len() == v@.len(),
    decreases *v,
{
    let mut out: Vec<Dynamic> = Vec::new();
    let mut i: usize = 0;
    while i < v.len()
        invariant
            i <= v.len(),
            out@.len() == i,
            forall|j: int| 0 <= j < i ==> out@[j]@ == v@[j]@,
        decreases v.len() - i,
    {
        out.push(clone_dynamic(&v[i]));
        i = i + 1;
    }
    proof {
        assert(view_dyns(out@) =~= view_dyns(v@));
    }
    out
}

/// Reads one entry of `view_bindings`.
pub proof fn lemma_view_bindings_index(v: Seq<(String, Dynamic)>, j: int)
    requires
        0 <= j < v.len(),
    ensures
        view_bindings(v).len() == v.len(),
        view_bindings(v)[j] == (v[j].0@, v[j].1@),
{
}

/// A deep copy of a binding list.
pub fn clone_dyn_fields(v: &Vec<(String, Dynamic)>) -> (r: Vec<(String, Dynamic)>)
    ensures
        view_bindings(r@) == view_bindings(v@),
        r@.len() == v@.len(),
    decreases *v,
{
    let mut out: Vec<(String, Dynamic)> = Vec::new();
    let mut i: usize = 0;
    while i < v.len()
        invariant
            i <= v.len(),
            out@.len() == i,
            forall|j: int|
                0 <= j < i ==> (#[trigger] out@[j]).0@ == v@[j].0@ && out@[j].1@ == v@[j].1@,
        decreases v.len() - i,
    {
        let p = &v[i];
        out.push((p.0.clone(), clone_dynamic(&p.1)));
        i = i + 1;
    }
    proof {
        assert forall|j: int| 0 <= j < out@.len() implies view_bindings(out@)[j] == view_bindings(
            v@,
        )[j] by {
            lemma_view_bindings_index(out@, j);
            lemma_view_bindings_index(v@, j);
        }
        assert(view_bindings(out@) =~= view_bindings(v@));
    }
    out
}

} // verus!
