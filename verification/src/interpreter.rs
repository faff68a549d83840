use vstd::prelude::*;

use crate::ast::Ast;
use crate::ast::AstV;
use crate::class::find_function;
use crate::class::find_operator;
use crate::class::Class;
use crate::class::Function;
use crate::dynamic::binary_builtin;
use crate::dynamic::clone_asts;
use crate::dynamic::clone_dynamic;
use crate::dynamic::clone_strings;
use crate::dynamic::truthy;
use crate::dynamic::Callback;
use crate::dynamic::Dynamic;
use crate::dynamic::DynamicV;
use crate::dynamic::EvalError;
use crate::expression::Expression;
use crate::expression::ExpressionV;
use crate::method::invoke_builtin;
use crate::method::Builtin;
use crate::module::Module;
use crate::module::ModuleState;
use crate::operator::Operator;
use crate::scope::spec_assign_target;
use crate::scope::spec_define;
use crate::scope::spec_lookup;
use crate::scope::ScopeArena;
use crate::scope::ScopeV;

verus! {

/// The host's side of the narrow native-function interface: the evaluator
/// hands over the registered name and the evaluated arguments; nothing is
/// assumed of the result.
pub trait NativeHost {
    fn call_native(&mut self, name: &String, args: Vec<Dynamic>) -> Result<Dynamic, EvalError>;
}

/// How a statement ended: normally, or by `return`, which unwinds to the
/// nearest enclosing call frame — `if` blocks are transparent to it.
pub enum Flow {
    Normal,
    Ret(Dynamic),
}

/// The tree-walking evaluator: the scope arena, the class registry and the
/// module table. A step budget bounds each run; the budget refusing is the
/// `OutOfFuel` error, never nontermination.
pub struct Interpreter {
    pub arena: ScopeArena,
    pub classes: Vec<Class>,
    pub modules: Vec<Module>,
    pub root: usize,
}

impl Interpreter {
    /// A fresh interpreter with one root scope.
    pub fn new() -> (it: Interpreter)
        ensures
            it.arena.scopes.len() == 1,
            it.root == 0,
    {
        let mut arena = ScopeArena::new();
        let root = arena.child(None);
        Interpreter { arena, classes: Vec::new(), modules: Vec::new(), root }
    }

    /// Registers a host-implemented native function under `name` in the
    /// root scope; calls reach the host through `NativeHost::call_native`.
    pub fn define_native(&mut self, name: String)
        requires
            old(self).root < old(self).arena.scopes.len(),
        ensures
            final(self).arena.scopes.len() == old(self).arena.scopes.len(),
            final(self).root == old(self).root,
            final(self).classes == old(self).classes,
            final(self).modules == old(self).modules,
            final(self).arena@ == arena_defined(
                old(self).arena@,
                old(self).root as int,
                name@,
                DynamicV::RustFunction {
                    name: name@,
                    captured_scope: crate::dynamic::CapturedScope::Missing,
                    callback: Callback::Host,
                },
            ),
    {
        let f = Dynamic::RustFunction {
            name: name.clone(),
            captured_scope: None,
            callback: Callback::Host,
        };
        proof {
            assert(f@ == (DynamicV::RustFunction {
                name: name@,
                captured_scope: crate::dynamic::CapturedScope::Missing,
                callback: Callback::Host,
            }));
        }
        self.arena.define(self.root, name, f);
    }

    /// Places `value` under `name` in the root scope.
    pub fn define_global(&mut self, name: String, value: Dynamic)
        requires
            old(self).root < old(self).arena.scopes.len(),
        ensures
            final(self).arena.scopes.len() == old(self).arena.scopes.len(),
            final(self).root == old(self).root,
            final(self).classes == old(self).classes,
            final(self).modules == old(self).modules,
            final(self).arena@ == arena_defined(
                old(self).arena@,
                old(self).root as int,
                name@,
                value@,
            ),
    {
        self.arena.define(self.root, name, value);
    }

    /// The registered class named `name`.
    fn find_class_idx(&self, name: &String) -> (r: Option<usize>)
        ensures
            r matches Some(i) ==> i < self.classes.len(),
    {
        let mut i: usize = 0;
        while i < self.classes.len()
            invariant
                i <= self.classes.len(),
            decreases self.classes.len() - i,
        {
            if self.classes[i].name == *name {
                return Some(i);
            }
            i = i + 1;
        }
        None
    }

    /// Evaluates `e` in scope `sc`. The contract pins: every literal; the
    /// identifier case — an identifier no scope in the chain binds is
    /// exactly the `UnboundName` error, never a silent null; the arrow
    /// function case — the result is exactly the closure capturing `sc`, on
    /// which closure capture rests; arithmetic on literal operands, per
    /// `spec_binary_builtin`; and `=` on an identifier with a literal
    /// right side, per `spec_assign_target`. Composite operands reduce to
    /// these through the recursion; the arena only grows, so handles stay
    /// valid.
    pub fn eval_expr<H: NativeHost>(
        &mut self,
        host: &mut H,
        sc: usize,
        e: &Expression,
        fuel: u64,
    ) -> (r: Result<Dynamic, EvalError>)
        requires
            sc < old(self).arena.scopes.len(),
            old(self).root < old(self).arena.scopes.len(),
        ensures
            final(self).arena.scopes.len() >= old(self).arena.scopes.len(),
            final(self).root == old(self).root,
            final(self).modules.len() == old(self).modules.len(),
            forall|i: int|
                0 <= i < old(self).arena@.len() ==> (#[trigger] final(self).arena@[i]).parent
                    == old(self).arena@[i].parent,
            fuel > 0 ==> (e@ matches ExpressionV::NumberLiteral(n) ==> (r matches Ok(v) && v@
                == DynamicV::Number(n)) && *final(self) == *old(self)),
            fuel > 0 ==> (e@ matches ExpressionV::StringLiteral(s) ==> (r matches Ok(v) && v@
                == DynamicV::Str(s)) && *final(self) == *old(self)),
            fuel > 0 ==> (e@ matches ExpressionV::BooleanLiteral(b) ==> (r matches Ok(v) && v@
                == DynamicV::Boolean(b)) && *final(self) == *old(self)),
            fuel > 0 && e@ == ExpressionV::Null ==> (r matches Ok(v) && v@ == DynamicV::Null)
                && *final(self) == *old(self),
            fuel > 0 ==> (e@ matches ExpressionV::Identifier(n) ==> (match spec_lookup(
                old(self).arena@,
                sc as int,
                n,
            ) {
                Some(dv) => (r matches Ok(v) && v@ == dv) && *final(self) == *old(self),
                None => (r matches Err(err) && (err matches EvalError::UnboundName(m) && m@ == n))
                    && *final(self) == *old(self),
            })),
            fuel > 0 ==> (e@ matches ExpressionV::ArrowFunction(ps, body) ==> (r matches Ok(v)
                && v@ == (DynamicV::Closure { scope: sc as int, params: ps, body }))
                && *final(self) == *old(self)),
            fuel > 2 ==> (e@ matches ExpressionV::BinaryOp(l, op2, rr) ==> (match (literal_value(
                *l,
            ), literal_value(*rr)) {
                (Some(av), Some(bv)) => (op2 != "."@ && op2 != "::"@ && op2 != "="@) ==> ((match
                    crate::dynamic::spec_binary_builtin(op2, av, bv) {
                    Ok(dv) => r matches Ok(v) && v@ == dv,
                    Err(er2) => r == Err::<Dynamic, EvalError>(er2),
                }) && *final(self) == *old(self)),
                _ => true,
            })),
            fuel > 2 ==> (e@ matches ExpressionV::BinaryOp(l, op2, rr) ==> (op2 == "="@ ==> (*l
                matches ExpressionV::Identifier(n) ==> (match literal_value(*rr) {
                Some(bv) => (match spec_assign_target(old(self).arena@, sc as int, n) {
                    Some(t) => (r matches Ok(v) && v@ == DynamicV::Null) && final(self).arena@
                        == arena_defined(old(self).arena@, t, n, bv) && final(self).classes
                        == old(self).classes && final(self).modules == old(self).modules,
                    None => (r matches Err(er2) && (er2 matches EvalError::UnboundName(m) && m@
                        == n)) && *final(self) == *old(self),
                }),
                None => true,
            })))),
        decreases fuel,
    {
        if fuel == 0 {
            return Err(EvalError::OutOfFuel);
        }
        match e {
            Expression::NumberLiteral(n) => Ok(Dynamic::Number(*n)),
            Expression::StringLiteral(s) => Ok(Dynamic::Str(s.clone())),
            Expression::BooleanLiteral(b) => Ok(Dynamic::Boolean(*b)),
            Expression::Null => Ok(Dynamic::Null),
            Expression::Identifier(n) => {
                match self.arena.lookup(sc, n) {
                    Some(d) => Ok(d),
                    None => Err(EvalError::UnboundName(n.clone())),
                }
            },
            Expression::ClassIdentifier(_) => Err(EvalError::TypeMismatch),
            Expression::ArrayLiteral(items) => {
                let mut out: Vec<Dynamic> = Vec::new();
                let mut i: usize = 0;
                while i < items.len()
                    invariant
                        sc < self.arena.scopes.len(),
                        self.arena.scopes.len() >= old(self).arena.scopes.len(),
                        self.root == old(self).root,
                        self.modules.len() == old(self).modules.len(),
                        self.root < self.arena.scopes.len(),
                        forall|i: int|
                            0 <= i < old(self).arena@.len() ==> (#[trigger] self.arena@[i]).parent
                                == old(self).arena@[i].parent,
                        fuel >= 1,
                        not_pinned(e@),
                    decreases items.len() - i,
                {
                    match self.eval_expr(host, sc, &items[i], fuel - 1) {
                        Ok(v) => out.push(v),
                        Err(er) => {
                            return Err(er);
                        },
                    }
                    i = i + 1;
                }
                Ok(Dynamic::Array(out))
            },
            Expression::ObjectLiteral(fields) => {
                let mut out: Vec<(String, Dynamic)> = Vec::new();
                let mut i: usize = 0;
                while i < fields.len()
                    invariant
                        sc < self.arena.scopes.len(),
                        self.arena.scopes.len() >= old(self).arena.scopes.len(),
                        self.root == old(self).root,
                        self.modules.len() == old(self).modules.len(),
                        self.root < self.arena.scopes.len(),
                        forall|i: int|
                            0 <= i < old(self).arena@.len() ==> (#[trigger] self.arena@[i]).parent
                                == old(self).arena@[i].parent,
                        fuel >= 1,
                        not_pinned(e@),
                    decreases fields.len() - i,
                {
                    match self.eval_expr(host, sc, &fields[i].1, fuel - 1) {
                        Ok(v) => out.push((fields[i].0.clone(), v)),
                        Err(er) => {
                            return Err(er);
                        },
                    }
                    i = i + 1;
                }
                Ok(Dynamic::Object(out))
            },
            Expression::ClassInstantiation(name, fields) => {
                let ci = match self.find_class_idx(name) {
                    Some(ci) => ci,
                    None => {
                        return Err(EvalError::UnknownClass(name.clone()));
                    },
                };
                let defaults = crate::dynamic::clone_field_exprs(&self.classes[ci].fields);
                let mut out: Vec<(String, Dynamic)> = Vec::new();
                let mut i: usize = 0;
                while i < defaults.len()
                    invariant
                        sc < self.arena.scopes.len(),
                        self.arena.scopes.len() >= old(self).arena.scopes.len(),
                        self.root == old(self).root,
                        self.modules.len() == old(self).modules.len(),
                        self.root < self.arena.scopes.len(),
                        forall|i: int|
                            0 <= i < old(self).arena@.len() ==> (#[trigger] self.arena@[i]).parent
                                == old(self).arena@[i].parent,
                        fuel >= 1,
                        not_pinned(e@),
                    decreases defaults.len() - i,
                {
                    let fname = defaults[i].0.clone();
                    match self.eval_expr(host, sc, &defaults[i].1, fuel - 1) {
                        Ok(v) => out.push((fname, v)),
                        Err(er) => {
                            return Err(er);
                        },
                    }
                    i = i + 1;
                }
                let mut i2: usize = 0;
                while i2 < fields.len()
                    invariant
                        sc < self.arena.scopes.len(),
                        self.arena.scopes.len() >= old(self).arena.scopes.len(),
                        self.root == old(self).root,
                        self.modules.len() == old(self).modules.len(),
                        self.root < self.arena.scopes.len(),
                        forall|i: int|
                            0 <= i < old(self).arena@.len() ==> (#[trigger] self.arena@[i]).parent
                                == old(self).arena@[i].parent,
                        fuel >= 1,
                        not_pinned(e@),
                    decreases fields.len() - i2,
                {
                    match self.eval_expr(host, sc, &fields[i2].1, fuel - 1) {
                        Ok(v) => {
                            set_field(&mut out, &fields[i2].0, v);
                        },
                        Err(er) => {
                            return Err(er);
                        },
                    }
                    i2 = i2 + 1;
                }
                Ok(Dynamic::ClassInstance(name.clone(), out))
            },
            Expression::FunctionCall(callee, args) => {
                let f = match self.eval_expr(host, sc, callee, fuel - 1) {
                    Ok(f) => f,
                    Err(er) => {
                        return Err(er);
                    },
                };
                let vals = match self.eval_args(host, sc, args, fuel - 1) {
                    Ok(vs) => vs,
                    Err(er) => {
                        return Err(er);
                    },
                };
                self.call_value(host, f, vals, fuel - 1)
            },
            Expression::BinaryOp(lhs, op, rhs) => self.eval_binary(host, sc, lhs, op, rhs, fuel - 1),
            Expression::ArrowFunction(params, body) => {
                let v = Dynamic::Closure {
                    scope: sc,
                    params: clone_strings(params),
                    body: clone_asts(body),
                };
                proof {
                    assert(v@ =~~= (DynamicV::Closure {
                        scope: sc as int,
                        params: crate::expression::view_names(*params),
                        body: crate::ast::view_asts(body@),
                    }));
                }
                Ok(v)
            },
        }
    }

    /// Evaluates an argument list left to right.
    fn eval_args<H: NativeHost>(
        &mut self,
        host: &mut H,
        sc: usize,
        args: &Vec<Expression>,
        fuel: u64,
    ) -> (r: Result<Vec<Dynamic>, EvalError>)
        requires
            sc < old(self).arena.scopes.len(),
            old(self).root < old(self).arena.scopes.len(),
        ensures
            final(self).arena.scopes.len() >= old(self).arena.scopes.len(),
            final(self).root == old(self).root,
            final(self).modules.len() == old(self).modules.len(),
            forall|i: int|
                0 <= i < old(self).arena@.len() ==> (#[trigger] final(self).arena@[i]).parent
                    == old(self).arena@[i].parent,
        decreases fuel,
    {
        if fuel == 0 {
            return Err(EvalError::OutOfFuel);
        }
        let mut out: Vec<Dynamic> = Vec::new();
        let mut i: usize = 0;
        while i < args.len()
            invariant
                sc < self.arena.scopes.len(),
                self.arena.scopes.len() >= old(self).arena.scopes.len(),
                self.root == old(self).root,
                self.modules.len() == old(self).modules.len(),
                self.root < self.arena.scopes.len(),
                forall|i: int|
                    0 <= i < old(self).arena@.len() ==> (#[trigger] self.arena@[i]).parent
                        == old(self).arena@[i].parent,
                fuel >= 1,
            decreases args.len() - i,
        {
            match self.eval_expr(host, sc, &args[i], fuel - 1) {
                Ok(v) => out.push(v),
                Err(er) => {
                    return Err(er);
                },
            }
            i = i + 1;
        }
        Ok(out)
    }

    /// A binary node: `.` and `::` resolve members, statics and methods;
    /// `=` assigns to an already-bound name; an arithmetic operator first
    /// consults the left operand's class for an overload, then the built-in
    /// rules. On literal operands the contract is exact: an arithmetic
    /// operator returns what `spec_binary_builtin` states, and `=` on an
    /// identifier updates the nearest binding per `spec_assign_target` or is
    /// exactly the unbound-name error.
    fn eval_binary<H: NativeHost>(
        &mut self,
        host: &mut H,
        sc: usize,
        lhs: &Expression,
        op: &String,
        rhs: &Expression,
        fuel: u64,
    ) -> (r: Result<Dynamic, EvalError>)
        requires
            sc < old(self).arena.scopes.len(),
            old(self).root < old(self).arena.scopes.len(),
        ensures
            final(self).arena.scopes.len() >= old(self).arena.scopes.len(),
            final(self).root == old(self).root,
            final(self).modules.len() == old(self).modules.len(),
            forall|i: int|
                0 <= i < old(self).arena@.len() ==> (#[trigger] final(self).arena@[i]).parent
                    == old(self).arena@[i].parent,
            fuel > 1 ==> (match (literal_value(lhs@), literal_value(rhs@)) {
                (Some(av), Some(bv)) => (op@ != "."@ && op@ != "::"@ && op@ != "="@) ==> ((match
                    crate::dynamic::spec_binary_builtin(op@, av, bv) {
                    Ok(dv) => r matches Ok(v) && v@ == dv,
                    Err(er2) => r == Err::<Dynamic, EvalError>(er2),
                }) && *final(self) == *old(self)),
                _ => true,
            }),
            fuel > 1 && op@ == "="@ ==> (lhs@ matches ExpressionV::Identifier(n) ==> (match
                literal_value(rhs@) {
                Some(bv) => (match spec_assign_target(old(self).arena@, sc as int, n) {
                    Some(t) => (r matches Ok(v) && v@ == DynamicV::Null) && final(self).arena@
                        == arena_defined(old(self).arena@, t, n, bv) && final(self).classes
                        == old(self).classes && final(self).modules == old(self).modules,
                    None => (r matches Err(er2) && (er2 matches EvalError::UnboundName(m) && m@
                        == n)) && *final(self) == *old(self),
                }),
                None => true,
            })),
        decreases fuel,
    {
        if fuel == 0 {
            return Err(EvalError::OutOfFuel);
        }
        proof {
            reveal_strlit(".");
            reveal_strlit("::");
            reveal_strlit("=");
            assert("."@ != "="@) by {
                if "."@ == "="@ {
                    assert("."@[0] == "="@[0]);
                    assert(false);
                }
            }
            assert("::"@ != "="@) by {
                reveal_strlit("::");
                reveal_strlit("=");
                if "::"@ == "="@ {
                    assert("::"@.len() == "="@.len());
                    assert(false);
                }
            }
        }
        let is_member = *op == String::from_str(".") || *op == String::from_str("::");
        if is_member {
            return self.eval_member(host, sc, lhs, rhs, fuel - 1);
        }
        if *op == String::from_str("=") {
            match lhs {
                Expression::Identifier(n) => {
                    let ghost pre = *self;
                    let v = match self.eval_expr(host, sc, rhs, fuel - 1) {
                        Ok(v) => v,
                        Err(er) => {
                            return Err(er);
                        },
                    };
                    proof {
                        if fuel > 1 && literal_value(rhs@) is Some {
                            assert(*self == pre);
                            assert(literal_value(rhs@) == Some(v@));
                        }
                    }
                    let ghost mid = *self;
                    if self.arena.assign(sc, n.clone(), v) {
                        proof {
                            if fuel > 1 && literal_value(rhs@) is Some {
                                assert(spec_assign_target(mid.arena@, sc as int, n@)
                                    == spec_assign_target(old(self).arena@, sc as int, n@));
                                assert(self.arena@ == arena_defined(
                                    old(self).arena@,
                                    spec_assign_target(old(self).arena@, sc as int, n@)->0,
                                    n@,
                                    literal_value(rhs@)->0,
                                ));
                            }
                            assert(Dynamic::Null@ == DynamicV::Null);
                        }
                        return Ok(Dynamic::Null);
                    }
                    return Err(EvalError::UnboundName(n.clone()));
                },
                _ => {
                    return Err(EvalError::TypeMismatch);
                },
            }
        }
        let a = match self.eval_expr(host, sc, lhs, fuel - 1) {
            Ok(a) => a,
            Err(er) => {
                return Err(er);
            },
        };
        let b = match self.eval_expr(host, sc, rhs, fuel - 1) {
            Ok(b) => b,
            Err(er) => {
                return Err(er);
            },
        };
        if *op == String::from_str("+") {
            let overload = match &a {
                Dynamic::ClassInstance(cname, _) => {
                    match self.find_class_idx(cname) {
                        Some(ci) => {
                            match find_operator(&self.classes[ci].operators, Operator::Add) {
                                Some(f) => Some(
                                    Function {
                                        params: clone_strings(&f.params),
                                        body: clone_asts(&f.body),
                                    },
                                ),
                                None => None,
                            }
                        },
                        None => None,
                    }
                },
                _ => None,
            };
            match overload {
                Some(f) => {
                    let rt = self.root;
                    return self.call_function(host, f, rt, Some(a), vec![b], fuel - 1);
                },
                None => {},
            }
        }
        binary_builtin(op, &a, &b)
    }

    /// Member access and method dispatch for `.` and `::`.
    fn eval_member<H: NativeHost>(
        &mut self,
        host: &mut H,
        sc: usize,
        lhs: &Expression,
        rhs: &Expression,
        fuel: u64,
    ) -> (r: Result<Dynamic, EvalError>)
        requires
            sc < old(self).arena.scopes.len(),
            old(self).root < old(self).arena.scopes.len(),
        ensures
            final(self).arena.scopes.len() >= old(self).arena.scopes.len(),
            final(self).root == old(self).root,
            final(self).modules.len() == old(self).modules.len(),
            forall|i: int|
                0 <= i < old(self).arena@.len() ==> (#[trigger] final(self).arena@[i]).parent
                    == old(self).arena@[i].parent,
        decreases fuel,
    {
        if fuel == 0 {
            return Err(EvalError::OutOfFuel);
        }
        match lhs {
            Expression::ClassIdentifier(cname) => {
                match rhs {
                    Expression::FunctionCall(callee, args) => {
                        let mname = match &**callee {
                            Expression::Identifier(m) => m.clone(),
                            _ => {
                                return Err(EvalError::NotCallable);
                            },
                        };
                        let ci = match self.find_class_idx(cname) {
                            Some(ci) => ci,
                            None => {
                                return Err(EvalError::UnknownClass(cname.clone()));
                            },
                        };
                        let f = match find_function(&self.classes[ci].static_methods, &mname) {
                            Some(f) => Function {
                                params: clone_strings(&f.params),
                                body: clone_asts(&f.body),
                            },
                            None => {
                                return Err(EvalError::UnknownMember(mname));
                            },
                        };
                        let vals = match self.eval_args(host, sc, args, fuel - 1) {
                            Ok(vs) => vs,
                            Err(er) => {
                                return Err(er);
                            },
                        };
                        let rt = self.root;
                        self.call_function(host, f, rt, None, vals, fuel - 1)
                    },
                    _ => Err(EvalError::UnknownMember(String::from_str("member"))),
                }
            },
            _ => {
                let recv = match self.eval_expr(host, sc, lhs, fuel - 1) {
                    Ok(v) => v,
                    Err(er) => {
                        return Err(er);
                    },
                };
                match rhs {
                    Expression::Identifier(fname) => {
                        match &recv {
                            Dynamic::ClassInstance(_, fields) => {
                                match get_field(fields, fname) {
                                    Some(v) => Ok(v),
                                    None => Err(EvalError::UnknownMember(fname.clone())),
                                }
                            },
                            Dynamic::Object(fields) => {
                                match get_field(fields, fname) {
                                    Some(v) => Ok(v),
                                    None => Err(EvalError::UnknownMember(fname.clone())),
                                }
                            },
                            _ => Err(EvalError::TypeMismatch),
                        }
                    },
                    Expression::FunctionCall(callee, args) => {
                        let mname = match &**callee {
                            Expression::Identifier(m) => m.clone(),
                            _ => {
                                return Err(EvalError::NotCallable);
                            },
                        };
                        let vals = match self.eval_args(host, sc, args, fuel - 1) {
                            Ok(vs) => vs,
                            Err(er) => {
                                return Err(er);
                            },
                        };
                        match &recv {
                            Dynamic::ClassInstance(cname, _) => {
                                let ci = match self.find_class_idx(cname) {
                                    Some(ci) => ci,
                                    None => {
                                        return Err(EvalError::UnknownClass(cname.clone()));
                                    },
                                };
                                let f = match find_function(&self.classes[ci].methods, &mname) {
                                    Some(f) => Function {
                                        params: clone_strings(&f.params),
                                        body: clone_asts(&f.body),
                                    },
                                    None => {
                                        return Err(EvalError::UnknownMember(mname));
                                    },
                                };
                                let rt = self.root;
                                self.call_function(host, f, rt, Some(recv), vals, fuel - 1)
                            },
                            Dynamic::Object(fields) => {
                                match get_field(fields, &mname) {
                                    Some(f) => self.call_value(host, f, vals, fuel - 1),
                                    None => Err(EvalError::UnknownMember(mname)),
                                }
                            },
                            _ => {
                                let b = match builtin_named(&mname) {
                                    Some(b) => b,
                                    None => {
                                        return Err(EvalError::UnknownMember(mname));
                                    },
                                };
                                let rc = clone_dynamic(&recv);
                                match invoke_builtin(b, rc, vals) {
                                    Ok((receiver_after, result)) => {
                                        match lhs {
                                            Expression::Identifier(n) => {
                                                let _ = self.arena.assign(
                                                    sc,
                                                    n.clone(),
                                                    receiver_after,
                                                );
                                            },
                                            _ => {},
                                        }
                                        Ok(result)
                                    },
                                    Err(er) => Err(er),
                                }
                            },
                        }
                    },
                    _ => Err(EvalError::TypeMismatch),
                }
            },
        }
    }

    /// Calls a callable value: closures run their body in a child of their
    /// captured scope; missing arguments bind as null, extra ones are
    /// dropped; host natives go through the host, of whose result nothing is
    /// assumed. A value that is not callable is exactly the `NotCallable`
    /// error, and a bound method returns exactly what `spec_invoke` states
    /// of its builtin on the captured receiver.
    pub fn call_value<H: NativeHost>(
        &mut self,
        host: &mut H,
        f: Dynamic,
        args: Vec<Dynamic>,
        fuel: u64,
    ) -> (r: Result<Dynamic, EvalError>)
        requires
            old(self).root < old(self).arena.scopes.len(),
        ensures
            final(self).arena.scopes.len() >= old(self).arena.scopes.len(),
            final(self).root == old(self).root,
            final(self).modules.len() == old(self).modules.len(),
            forall|i: int|
                0 <= i < old(self).arena@.len() ==> (#[trigger] final(self).arena@[i]).parent
                    == old(self).arena@[i].parent,
            fuel > 0 && !is_callable_value(f@) ==> r == Err::<Dynamic, EvalError>(
                EvalError::NotCallable,
            ) && *final(self) == *old(self),
            fuel > 0 ==> (f@ matches DynamicV::BoundMethod { name: _, builtin, receiver } ==> (
            match crate::method::spec_invoke(builtin, *receiver, crate::dynamic::view_dyns(args@)) {
                Ok(pair) => (r matches Ok(v) && v@ == pair.1) && *final(self) == *old(self),
                Err(er2) => r == Err::<Dynamic, EvalError>(er2) && *final(self) == *old(self),
            })),
        decreases fuel,
    {
        if fuel == 0 {
            return Err(EvalError::OutOfFuel);
        }
        match f {
            Dynamic::Closure { scope, params, body } => {
                if scope >= self.arena.scopes.len() {
                    return Err(EvalError::NotCallable);
                }
                self.call_function(host, Function { params, body }, scope, None, args, fuel - 1)
            },
            Dynamic::RustFunction { name, captured_scope: _, callback } => {
                match callback {
                    Callback::Host => host.call_native(&name, args),
                    Callback::Builtin(b) => {
                        if args.len() == 0 {
                            return Err(EvalError::TypeMismatch);
                        }
                        let mut rest = args;
                        let recv = rest.remove(0);
                        match invoke_builtin(b, recv, rest) {
                            Ok((_, result)) => Ok(result),
                            Err(er) => Err(er),
                        }
                    },
                }
            },
            Dynamic::BoundMethod { name: _, builtin, receiver } => {
                let ghost recv_v = (*receiver)@;
                match invoke_builtin(builtin, *receiver, args) {
                    Ok((_, result)) => Ok(result),
                    Err(er) => Err(er),
                }
            },
            _ => Err(EvalError::NotCallable),
        }
    }

    /// Runs a user function: a fresh scope under the captured (or root)
    /// scope, `this` bound when a receiver is given, parameters bound in
    /// order with missing ones null.
    fn call_function<H: NativeHost>(
        &mut self,
        host: &mut H,
        f: Function,
        parent: usize,
        this: Option<Dynamic>,
        args: Vec<Dynamic>,
        fuel: u64,
    ) -> (r: Result<Dynamic, EvalError>)
        requires
            old(self).root < old(self).arena.scopes.len(),
        ensures
            final(self).arena.scopes.len() >= old(self).arena.scopes.len(),
            final(self).root == old(self).root,
            final(self).modules.len() == old(self).modules.len(),
            forall|i: int|
                0 <= i < old(self).arena@.len() ==> (#[trigger] final(self).arena@[i]).parent
                    == old(self).arena@[i].parent,
        decreases fuel,
    {
        if fuel == 0 {
            return Err(EvalError::OutOfFuel);
        }
        if parent >= self.arena.scopes.len() {
            return Err(EvalError::NotCallable);
        }
        let frame = self.arena.child(Some(parent));
        match this {
            Some(t) => {
                self.arena.define(frame, String::from_str("this"), t);
            },
            None => {},
        }
        let mut i: usize = 0;
        let mut rest = args;
        while i < f.params.len()
            invariant
                frame < self.arena.scopes.len(),
                self.arena.scopes.len() >= old(self).arena.scopes.len(),
                self.root == old(self).root,
                self.modules.len() == old(self).modules.len(),
                self.root < self.arena.scopes.len(),
                forall|i: int|
                    0 <= i < old(self).arena@.len() ==> (#[trigger] self.arena@[i]).parent
                        == old(self).arena@[i].parent,
            decreases f.params.len() - i,
        {
            let v = if rest.len() > 0 {
                rest.remove(0)
            } else {
                Dynamic::Null
            };
            self.arena.define(frame, f.params[i].clone(), v);
            i = i + 1;
        }
        match self.exec_stmts(host, frame, 0, &f.body, fuel - 1) {
            Ok(Flow::Normal) => Ok(Dynamic::Null),
            Ok(Flow::Ret(v)) => Ok(v),
            Err(er) => Err(er),
        }
    }

    /// Runs the statements of one block in order; a `return` stops the walk
    /// and carries its value out.
    fn exec_stmts<H: NativeHost>(
        &mut self,
        host: &mut H,
        sc: usize,
        mi: usize,
        stmts: &Vec<Ast>,
        fuel: u64,
    ) -> (r: Result<Flow, EvalError>)
        requires
            sc < old(self).arena.scopes.len(),
            old(self).root < old(self).arena.scopes.len(),
        ensures
            final(self).arena.scopes.len() >= old(self).arena.scopes.len(),
            final(self).root == old(self).root,
            final(self).modules.len() == old(self).modules.len(),
            forall|i: int|
                0 <= i < old(self).arena@.len() ==> (#[trigger] final(self).arena@[i]).parent
                    == old(self).arena@[i].parent,
            fuel > 0 && stmts@.len() == 0 ==> (r matches Ok(fl) && fl is Normal) && *final(self)
                == *old(self),
        decreases fuel,
    {
        if fuel == 0 {
            return Err(EvalError::OutOfFuel);
        }
        let mut i: usize = 0;
        while i < stmts.len()
            invariant
                sc < self.arena.scopes.len(),
                self.arena.scopes.len() >= old(self).arena.scopes.len(),
                self.root == old(self).root,
                self.modules.len() == old(self).modules.len(),
                self.root < self.arena.scopes.len(),
                forall|i: int|
                    0 <= i < old(self).arena@.len() ==> (#[trigger] self.arena@[i]).parent
                        == old(self).arena@[i].parent,
                fuel >= 1,
                stmts@.len() == 0 ==> *self == *old(self),
            decreases stmts.len() - i,
        {
            match self.exec_stmt(host, sc, mi, &stmts[i], fuel - 1) {
                Ok(Flow::Normal) => {},
                Ok(Flow::Ret(v)) => {
                    return Ok(Flow::Ret(v));
                },
                Err(er) => {
                    return Err(er);
                },
            }
            i = i + 1;
        }
        Ok(Flow::Normal)
    }

    /// Runs one statement. The contract pins the definition forms — a
    /// variable definition with a literal initializer and a function
    /// definition leave the scope extended exactly per `spec_define` — a
    /// `return` of a literal, which carries exactly that value out, and the
    /// `if` forms on a literal condition: a falsy condition changes
    /// nothing, a truthy one runs the body against a fresh child of the
    /// current scope, so bindings made there stay invisible outside (see
    /// `lemma_inner_definitions_invisible`).
    fn exec_stmt<H: NativeHost>(
        &mut self,
        host: &mut H,
        sc: usize,
        mi: usize,
        stmt: &Ast,
        fuel: u64,
    ) -> (r: Result<Flow, EvalError>)
        requires
            sc < old(self).arena.scopes.len(),
            old(self).root < old(self).arena.scopes.len(),
        ensures
            final(self).arena.scopes.len() >= old(self).arena.scopes.len(),
            final(self).root == old(self).root,
            final(self).modules.len() == old(self).modules.len(),
            forall|i: int|
                0 <= i < old(self).arena@.len() ==> (#[trigger] final(self).arena@[i]).parent
                    == old(self).arena@[i].parent,
            fuel > 1 ==> (stmt@ matches AstV::VariableDefinition(n, ev) ==> (match literal_value(
                ev,
            ) {
                Some(dv) => (r matches Ok(fl) && fl is Normal) && final(self).arena@
                    == arena_defined(old(self).arena@, sc as int, n, dv) && final(self).classes
                    == old(self).classes && final(self).modules == old(self).modules,
                None => true,
            })),
            fuel > 0 ==> (stmt@ matches AstV::FunctionDefinition(n, ps, body) ==> (r matches Ok(
                fl,
            ) && fl is Normal) && final(self).arena@ == arena_defined(
                old(self).arena@,
                sc as int,
                n,
                DynamicV::Closure { scope: sc as int, params: ps, body },
            ) && final(self).classes == old(self).classes && final(self).modules == old(
                self,
            ).modules),
            fuel > 1 ==> (stmt@ matches AstV::ReturnStatement(ev) ==> (match literal_value(ev) {
                Some(dv) => (r matches Ok(fl) && (fl matches Flow::Ret(v) && v@ == dv))
                    && *final(self) == *old(self),
                None => true,
            })),
            fuel > 1 ==> (stmt@ matches AstV::IfStatement(cond, body) ==> (match literal_value(
                cond,
            ) {
                Some(cv) => (crate::dynamic::spec_truthy(cv) ==> final(self).arena@.len() > old(
                    self,
                ).arena@.len() && final(self).arena@[old(self).arena@.len() as int].parent
                    == crate::dynamic::CapturedScope::At(sc as int)) && (!crate::dynamic::spec_truthy(
                    cv,
                ) ==> (r matches Ok(fl) && fl is Normal) && *final(self) == *old(self)),
                None => true,
            })),
        decreases fuel,
    {
        if fuel == 0 {
            return Err(EvalError::OutOfFuel);
        }
        match stmt {
            Ast::VariableDefinition(n, e) => {
                let v = match self.eval_expr(host, sc, e, fuel - 1) {
                    Ok(v) => v,
                    Err(er) => {
                        return Err(er);
                    },
                };
                self.arena.define(sc, n.clone(), v);
                Ok(Flow::Normal)
            },
            Ast::VariableAssignment(n, e) => {
                let v = match self.eval_expr(host, sc, e, fuel - 1) {
                    Ok(v) => v,
                    Err(er) => {
                        return Err(er);
                    },
                };
                if self.arena.assign(sc, n.clone(), v) {
                    Ok(Flow::Normal)
                } else {
                    Err(EvalError::UnboundName(n.clone()))
                }
            },
            Ast::FunctionDefinition(n, params, body) => {
                let c = Dynamic::Closure {
                    scope: sc,
                    params: clone_strings(params),
                    body: clone_asts(body),
                };
                proof {
                    assert(c@ =~~= (DynamicV::Closure {
                        scope: sc as int,
                        params: crate::expression::view_names(*params),
                        body: crate::ast::view_asts(body@),
                    }));
                }
                self.arena.define(sc, n.clone(), c);
                Ok(Flow::Normal)
            },
            Ast::StaticFunctionDefinition(n, params, body) => {
                let c = Dynamic::Closure {
                    scope: sc,
                    params: clone_strings(params),
                    body: clone_asts(body),
                };
                self.arena.define(sc, n.clone(), c);
                Ok(Flow::Normal)
            },
            Ast::OperatorImplementation(_, _, _) => Err(EvalError::MisplacedDefinition),
            Ast::ClassDefinition(n, members) => {
                match self.find_class_idx(n) {
                    Some(_) => Err(EvalError::DuplicateClass(n.clone())),
                    None => {
                        let c = class_of_members(n, members);
                        self.classes.push(c);
                        Ok(Flow::Normal)
                    },
                }
            },
            Ast::IfStatement(cond, body) => {
                let v = match self.eval_expr(host, sc, cond, fuel - 1) {
                    Ok(v) => v,
                    Err(er) => {
                        return Err(er);
                    },
                };
                if truthy(&v) {
                    let inner = self.arena.child(Some(sc));
                    self.exec_stmts(host, inner, mi, body, fuel - 1)
                } else {
                    Ok(Flow::Normal)
                }
            },
            Ast::ReturnStatement(e) => {
                let v = match self.eval_expr(host, sc, e, fuel - 1) {
                    Ok(v) => v,
                    Err(er) => {
                        return Err(er);
                    },
                };
                Ok(Flow::Ret(v))
            },
            Ast::ImportStatement(path) => {
                let target = match self.find_module_idx(path) {
                    Some(t) => t,
                    None => {
                        return Err(EvalError::UnknownModule(path.clone()));
                    },
                };
                match self.run_module(host, target, fuel - 1) {
                    Ok(()) => {},
                    Err(er) => {
                        return Err(er);
                    },
                }
                self.merge_exports(target, sc);
                Ok(Flow::Normal)
            },
            Ast::ExportStatement(inner) => {
                if mi >= self.modules.len() {
                    return Err(EvalError::MisplacedDefinition);
                }
                let name = match &**inner {
                    Ast::Expression(Expression::Identifier(n)) => n.clone(),
                    Ast::Expression(Expression::ClassIdentifier(n)) => n.clone(),
                    _ => {
                        return Err(EvalError::MisplacedDefinition);
                    },
                };
                let m = &mut self.modules[mi];
                m.add_export(name);
                Ok(Flow::Normal)
            },
            Ast::FunctionCall(n, args) => {
                let f = match self.arena.lookup(sc, n) {
                    Some(f) => f,
                    None => {
                        return Err(EvalError::UnboundName(n.clone()));
                    },
                };
                let vals = match self.eval_args(host, sc, args, fuel - 1) {
                    Ok(vs) => vs,
                    Err(er) => {
                        return Err(er);
                    },
                };
                match self.call_value(host, f, vals, fuel - 1) {
                    Ok(_) => Ok(Flow::Normal),
                    Err(er) => Err(er),
                }
            },
            Ast::Expression(e) => {
                match self.eval_expr(host, sc, e, fuel - 1) {
                    Ok(_) => Ok(Flow::Normal),
                    Err(er) => Err(er),
                }
            },
        }
    }

    /// The registered module at `path`.
    fn find_module_idx(&self, path: &String) -> (r: Option<usize>)
        ensures
            r matches Some(i) ==> i < self.modules.len(),
    {
        let mut i: usize = 0;
        while i < self.modules.len()
            invariant
                i <= self.modules.len(),
            decreases self.modules.len() - i,
        {
            if self.modules[i].path == *path {
                return Some(i);
            }
            i = i + 1;
        }
        None
    }

    /// Registers a parsed program as a module and hands back its index; it
    /// runs when first imported or driven by `run_module`.
    pub fn register_module(&mut self, path: String, stmts: Vec<Ast>) -> (idx: usize)
        ensures
            final(self).arena.scopes.len() >= old(self).arena.scopes.len(),
            final(self).root == old(self).root,
            final(self).modules.len() == old(self).modules.len() + 1,
            idx < final(self).modules.len(),
    {
        let idx = self.modules.len();
        self.modules.push(Module::new(path, stmts));
        idx
    }

    /// Links and runs module `target`, eagerly and depth-first: a module
    /// already run is not run again; one met while still running closes an
    /// import cycle, which is the fatal `ImportCycle` error.
    pub fn run_module<H: NativeHost>(&mut self, host: &mut H, target: usize, fuel: u64) -> (r:
        Result<(), EvalError>)
        requires
            old(self).root < old(self).arena.scopes.len(),
        ensures
            final(self).arena.scopes.len() >= old(self).arena.scopes.len(),
            final(self).root == old(self).root,
            final(self).modules.len() == old(self).modules.len(),
            forall|i: int|
                0 <= i < old(self).arena@.len() ==> (#[trigger] final(self).arena@[i]).parent
                    == old(self).arena@[i].parent,
            fuel > 0 && target < old(self).modules.len() ==> (match old(self).modules@[
                target as int
            ].state {
                ModuleState::Done => r == Ok::<(), EvalError>(()) && *final(self) == *old(self),
                ModuleState::Running => r == Err::<(), EvalError>(EvalError::ImportCycle)
                    && *final(self) == *old(self),
                ModuleState::Fresh => final(self).modules@[target as int].state
                    == ModuleState::Done,
            }),
            fuel > 0 && target >= old(self).modules.len() ==> (r matches Err(er) && er
                matches EvalError::UnknownModule(_)) && *final(self) == *old(self),
        decreases fuel,
    {
        if fuel == 0 {
            return Err(EvalError::OutOfFuel);
        }
        if target >= self.modules.len() {
            return Err(EvalError::UnknownModule(String::from_str("module")));
        }
        match self.modules[target].state {
            ModuleState::Done => {
                return Ok(());
            },
            ModuleState::Running => {
                return Err(EvalError::ImportCycle);
            },
            ModuleState::Fresh => {},
        }
        let msc = self.arena.child(Some(self.root));
        {
            let m = &mut self.modules[target];
            m.state = ModuleState::Running;
            m.scope = msc;
        }
        let stmts = clone_asts(&self.modules[target].stmts);
        let res = self.exec_stmts(host, msc, target, &stmts, fuel - 1);
        if target < self.modules.len() {
            let m = &mut self.modules[target];
            m.state = ModuleState::Done;
        }
        match res {
            Ok(_) => Ok(()),
            Err(er) => Err(er),
        }
    }

    /// Copies the exported bindings of module `src_mi` into scope `sc`.
    fn merge_exports(&mut self, src_mi: usize, sc: usize)
        requires
            sc < old(self).arena.scopes.len(),
            old(self).root < old(self).arena.scopes.len(),
        ensures
            final(self).arena.scopes.len() >= old(self).arena.scopes.len(),
            final(self).root == old(self).root,
            final(self).modules.len() == old(self).modules.len(),
            forall|i: int|
                0 <= i < old(self).arena@.len() ==> (#[trigger] final(self).arena@[i]).parent
                    == old(self).arena@[i].parent,
    {
        if src_mi >= self.modules.len() {
            return ;
        }
        let names = clone_strings(&self.modules[src_mi].exports);
        let msc = self.modules[src_mi].scope;
        let mut i: usize = 0;
        while i < names.len()
            invariant
                sc < self.arena.scopes.len(),
                self.arena.scopes.len() >= old(self).arena.scopes.len(),
                self.root == old(self).root,
                self.modules.len() == old(self).modules.len(),
                self.root < self.arena.scopes.len(),
                forall|i: int|
                    0 <= i < old(self).arena@.len() ==> (#[trigger] self.arena@[i]).parent
                        == old(self).arena@[i].parent,
            decreases names.len() - i,
        {
            match self.arena.lookup(msc, &names[i]) {
                Some(v) => {
                    self.arena.define(sc, names[i].clone(), v);
                },
                None => {},
            }
            i = i + 1;
        }
    }

    /// Runs a stand-alone program against a fresh child of the root scope.
    /// What each statement does is fixed at `exec_stmt` and the scope
    /// arena's contracts; this entry adds the frame guarantees and the
    /// empty-program and spent-budget cases.
    pub fn run_program<H: NativeHost>(
        &mut self,
        host: &mut H,
        prog: &crate::parser::Program,
        fuel: u64,
    ) -> (r: Result<(), EvalError>)
        requires
            old(self).root < old(self).arena.scopes.len(),
        ensures
            final(self).arena.scopes.len() >= old(self).arena.scopes.len(),
            final(self).root == old(self).root,
            final(self).modules.len() == old(self).modules.len(),
            forall|i: int|
                0 <= i < old(self).arena@.len() ==> (#[trigger] final(self).arena@[i]).parent
                    == old(self).arena@[i].parent,
            fuel == 0 ==> r == Err::<(), EvalError>(EvalError::OutOfFuel),
            fuel > 1 && prog.stmts@.len() == 0 ==> r == Ok::<(), EvalError>(()),
    {
        if fuel == 0 {
            return Err(EvalError::OutOfFuel);
        }
        let sc = self.arena.child(Some(self.root));
        match self.exec_stmts(host, sc, usize::MAX, &prog.stmts, fuel - 1) {
            Ok(_) => Ok(()),
            Err(er) => Err(er),
        }
    }

    /// Evaluates one expression against a fresh child of the root scope.
    /// Evaluates one expression against a fresh child of the root scope.
    /// The literal and identifier cases are exact: an identifier resolves
    /// through the root chain or is exactly the unbound-name error.
    pub fn eval_in_root<H: NativeHost>(&mut self, host: &mut H, e: &Expression, fuel: u64) -> (r:
        Result<Dynamic, EvalError>)
        requires
            old(self).root < old(self).arena.scopes.len(),
        ensures
            final(self).arena.scopes.len() >= old(self).arena.scopes.len(),
            final(self).root == old(self).root,
            final(self).modules.len() == old(self).modules.len(),
            forall|i: int|
                0 <= i < old(self).arena@.len() ==> (#[trigger] final(self).arena@[i]).parent
                    == old(self).arena@[i].parent,
            fuel > 1 ==> (e@ matches ExpressionV::NumberLiteral(n) ==> (r matches Ok(v) && v@
                == DynamicV::Number(n))),
            fuel > 1 ==> (e@ matches ExpressionV::StringLiteral(s2) ==> (r matches Ok(v) && v@
                == DynamicV::Str(s2))),
            fuel > 1 ==> (e@ matches ExpressionV::BooleanLiteral(b) ==> (r matches Ok(v) && v@
                == DynamicV::Boolean(b))),
            fuel > 1 && e@ == ExpressionV::Null ==> (r matches Ok(v) && v@ == DynamicV::Null),
            fuel > 1 ==> (e@ matches ExpressionV::Identifier(n) ==> (match spec_lookup(
                old(self).arena@,
                old(self).root as int,
                n,
            ) {
                Some(dv) => r matches Ok(v) && v@ == dv,
                None => (r matches Err(err) && (err matches EvalError::UnboundName(m) && m@ == n)),
            })),
    {
        if fuel == 0 {
            return Err(EvalError::OutOfFuel);
        }
        let ghost pre = *self;
        let sc = self.arena.child(Some(self.root));
        proof {
            if fuel > 1 {
                match e@ {
                    ExpressionV::Identifier(n) => {
                        assert(self.arena@[sc as int].names =~= Seq::<
                            (Seq<char>, crate::dynamic::DynamicV),
                        >::empty());
                        assert(crate::scope::frame_index(self.arena@[sc as int].names, n, 0)
                            is None);
                        assert(spec_lookup(self.arena@, sc as int, n) == spec_lookup(
                            self.arena@,
                            self.root as int,
                            n,
                        ));
                        crate::scope::lemma_inner_definitions_invisible(
                            pre.arena@,
                            self.arena@,
                            self.root as int,
                            n,
                        );
                    },
                    _ => {},
                }
            }
        }
        self.eval_expr(host, sc, e, fuel - 1)
    }
}

/// Whether the evaluation contract leaves this expression's result open:
/// everything but the pinned literal, identifier, binary and arrow forms.
pub open spec fn not_pinned(ev: ExpressionV) -> bool {
    &&& !(ev is NumberLiteral)
    &&& !(ev is StringLiteral)
    &&& !(ev is BooleanLiteral)
    &&& ev != ExpressionV::Null
    &&& !(ev is Identifier)
    &&& !(ev is ArrowFunction)
    &&& !(ev is BinaryOp)
}

/// Whether a value can stand in call position at all.
pub open spec fn is_callable_value(dv: DynamicV) -> bool {
    dv is Closure || dv is RustFunction || dv is BoundMethod
}

/// The value a literal expression denotes, with no evaluation needed.
pub open spec fn literal_value(ev: ExpressionV) -> Option<DynamicV> {
    match ev {
        ExpressionV::NumberLiteral(n) => Some(DynamicV::Number(n)),
        ExpressionV::StringLiteral(s) => Some(DynamicV::Str(s)),
        ExpressionV::BooleanLiteral(b) => Some(DynamicV::Boolean(b)),
        ExpressionV::Null => Some(DynamicV::Null),
        _ => None,
    }
}

/// One scope of the arena with `n` newly bound to `v`; what `define` leaves.
pub open spec fn arena_defined(
    arena: Seq<ScopeV>,
    h: int,
    n: Seq<char>,
    v: DynamicV,
) -> Seq<ScopeV> {
    arena.update(h, ScopeV { names: spec_define(arena[h].names, n, v), parent: arena[h].parent })
}

/// Writes `value` under `name` in a field list: overwrite or append.
fn set_field(fields: &mut Vec<(String, Dynamic)>, name: &String, value: Dynamic) {
    let mut i: usize = 0;
    while i < fields.len()
        decreases fields.len() - i,
    {
        if fields[i].0 == *name {
            let slot = &mut fields[i];
            *slot = (name.clone(), value);
            return ;
        }
        i = i + 1;
    }
    fields.push((name.clone(), value));
}

/// Reads the first value under `name` in a field list.
fn get_field(fields: &Vec<(String, Dynamic)>, name: &String) -> (r: Option<Dynamic>) {
    let mut i: usize = 0;
    while i < fields.len()
        decreases fields.len() - i,
    {
        if fields[i].0 == *name {
            return Some(clone_dynamic(&fields[i].1));
        }
        i = i + 1;
    }
    None
}

/// The built-in method named `name`, if any.
fn builtin_named(name: &String) -> (r: Option<Builtin>) {
    if *name == String::from_str("push") {
        Some(Builtin::Push)
    } else if *name == String::from_str("pop") {
        Some(Builtin::Pop)
    } else if *name == String::from_str("len") {
        Some(Builtin::Len)
    } else {
        None
    }
}

/// A class value assembled from parsed members.
fn class_of_members(name: &String, members: &Vec<crate::ast::ClassMember>) -> (c: Class) {
    let mut fields: Vec<(String, Expression)> = Vec::new();
    let mut methods: Vec<(String, Function)> = Vec::new();
    let mut static_methods: Vec<(String, Function)> = Vec::new();
    let mut operators: Vec<(Operator, Function)> = Vec::new();
    let mut i: usize = 0;
    while i < members.len()
        decreases members.len() - i,
    {
        match &members[i] {
            crate::ast::ClassMember::Field(n, e) => {
                fields.push((n.clone(), crate::dynamic::clone_expr(e)));
            },
            crate::ast::ClassMember::Function(n, p, b) => {
                methods.push(
                    (n.clone(), Function { params: clone_strings(p), body: clone_asts(b) }),
                );
            },
            crate::ast::ClassMember::StaticFunction(n, p, b) => {
                static_methods.push(
                    (n.clone(), Function { params: clone_strings(p), body: clone_asts(b) }),
                );
            },
            crate::ast::ClassMember::Operator(op, p, b) => {
                operators.push((*op, Function { params: clone_strings(p), body: clone_asts(b) }));
            },
        }
        i = i + 1;
    }
    Class { name: name.clone(), fields, methods, static_methods, operators }
}

} // verus!
