use vstd::prelude::*;

use crate::dynamic::clone_dynamic;
use crate::dynamic::view_dyns;
use crate::dynamic::Dynamic;
use crate::dynamic::DynamicV;
use crate::dynamic::EvalError;

verus! {

/// The built-in methods the evaluator offers on plain containers: array
/// `push` and `pop`, and `len` on arrays and strings.
#[derive(Debug, Clone, Copy, PartialEq, Eq)]
pub enum Builtin {
    Push,
    Pop,
    Len,
}

/// What a built-in method returns, and the receiver it leaves behind:
/// `push` appends its first argument and returns null; `pop` removes and
/// returns the last element, null when empty; `len` returns the length of
/// an array or string. Anything else is a type mismatch.
pub open spec fn spec_invoke(b: Builtin, this: DynamicV, args: Seq<DynamicV>) -> Result<
    (DynamicV, DynamicV),
    EvalError,
> {
    match b {
        Builtin::Push => match this {
            DynamicV::Array(items) => if args.len() >= 1 {
                Ok((DynamicV::Array(items.push(args[0])), DynamicV::Null))
            } else {
                Err(EvalError::TypeMismatch)
            },
            _ => Err(EvalError::TypeMismatch),
        },
        Builtin::Pop => match this {
            DynamicV::Array(items) => if items.len() == 0 {
                Ok((DynamicV::Array(items), DynamicV::Null))
            } else {
                Ok((DynamicV::Array(items.drop_last()), items.last()))
            },
            _ => Err(EvalError::TypeMismatch),
        },
        Builtin::Len => match this {
            DynamicV::Array(items) => Ok(
                (
                    this,
                    DynamicV::Number(
                        if items.len() > 0x7fffffffffffffff {
                            0x7fffffffffffffff
                        } else {
                            items.len() as int
                        },
                    ),
                ),
            ),
            DynamicV::Str(s) => Ok(
                (
                    this,
                    DynamicV::Number(
                        if s.len() > 0x7fffffffffffffff {
                            0x7fffffffffffffff
                        } else {
                            s.len() as int
                        },
                    ),
                ),
            ),
            _ => Err(EvalError::TypeMismatch),
        },
    }
}

/// A built-in method under its script-visible name.
#[derive(Debug, Clone, PartialEq, Eq)]
pub struct Method {
    pub name: String,
    pub builtin: Builtin,
}

impl Method {
    /// A built-in method named `name`.
    pub fn new(name: &str, builtin: Builtin) -> (m: Method)
        ensures
            m.name@ == name@,
            m.builtin == builtin,
    {
        Method { name: name.to_owned(), builtin }
    }

    /// Runs the method on `this` with `args`; returns the receiver as the
    /// method leaves it, and the method's result, exactly as `spec_invoke`
    /// states.
    pub fn invoke(&self, this: Dynamic, args: Vec<Dynamic>) -> (r: Result<
        (Dynamic, Dynamic),
        EvalError,
    >)
        ensures
            match r {
                Ok(p) => spec_invoke(self.builtin, this@, view_dyns(args@)) == Ok::<
                    (DynamicV, DynamicV),
                    EvalError,
                >((p.0@, p.1@)),
                Err(e) => spec_invoke(self.builtin, this@, view_dyns(args@)) == Err::<
                    (DynamicV, DynamicV),
                    EvalError,
                >(e),
            },
    {
        invoke_builtin(self.builtin, this, args)
    }

    /// The method as a value bound to `this`, callable later.
    pub fn into_dynamic(&self, this: Dynamic) -> (d: Dynamic)
        ensures
            d@ == (DynamicV::BoundMethod {
                name: self.name@,
                builtin: self.builtin,
                receiver: Box::new(this@),
            }),
    {
        let ghost thisv = this@;
        let d = Dynamic::BoundMethod {
            name: self.name.clone(),
            builtin: self.builtin,
            receiver: Box::new(this),
        };
        proof {
            assert((*d->BoundMethod_receiver)@ == thisv);
        }
        d
    }
}

/// Runs a built-in method; see `spec_invoke`.
pub fn invoke_builtin(b: Builtin, this: Dynamic, args: Vec<Dynamic>) -> (r: Result<
    (Dynamic, Dynamic),
    EvalError,
>)
    ensures
        match r {
            Ok(p) => spec_invoke(b, this@, view_dyns(args@)) == Ok::<
                (DynamicV, DynamicV),
                EvalError,
            >((p.0@, p.1@)),
            Err(e) => spec_invoke(b, this@, view_dyns(args@)) == Err::<
                (DynamicV, DynamicV),
                EvalError,
            >(e),
        },
{
    match b {
        Builtin::Push => {
            match this {
                Dynamic::Array(mut items) => {
                    let ghost itemsv = items@;
                    proof {
                        assert(this@ == DynamicV::Array(view_dyns(itemsv)));
                    }
                    if args.len() >= 1 {
                        let ghost argsv = args@;
                        let first = clone_dynamic(&args[0]);
                        items.push(first);
                        let out = Dynamic::Array(items);
                        proof {
                            let s1 = view_dyns(out->Array_0@);
                            let s2 = view_dyns(itemsv).push(view_dyns(argsv)[0]);
                            assert(s1.len() == s2.len());
                            assert forall|j: int| 0 <= j < s1.len() implies s1[j] == s2[j] by {
                                if j < itemsv.len() {
                                    assert(out->Array_0@[j] == itemsv[j]);
                                } else {
                                    assert(out->Array_0@[j]@ == argsv[0]@);
                                }
                            }
                            assert(s1 =~= s2);
                        }
                        Ok((out, Dynamic::Null))
                    } else {
                        Err(EvalError::TypeMismatch)
                    }
                },
                _ => Err(EvalError::TypeMismatch),
            }
        },
        Builtin::Pop => {
            match this {
                Dynamic::Array(mut items) => {
                    let ghost itemsv = items@;
                    proof {
                        assert(this@ == DynamicV::Array(view_dyns(itemsv)));
                    }
                    match items.pop() {
                        None => {
                            proof {
                                assert(view_dyns(itemsv).len() == 0);
                            }
                            Ok((Dynamic::Array(items), Dynamic::Null))
                        },
                        Some(last) => {
                            let out = Dynamic::Array(items);
                            proof {
                                let s1 = view_dyns(out->Array_0@);
                                let s2 = view_dyns(itemsv).drop_last();
                                assert(s1.len() == s2.len());
                                assert forall|j: int| 0 <= j < s1.len() implies s1[j] == s2[j] by {
                                    assert(out->Array_0@[j] == itemsv[j]);
                                }
                                assert(s1 =~= s2);
                                assert(last@ == view_dyns(itemsv).last());
                            }
                            Ok((out, last))
                        },
                    }
                },
                _ => Err(EvalError::TypeMismatch),
            }
        },
        Builtin::Len => {
            match this {
                Dynamic::Array(items) => {
                    let n = items.len();
                    let m: i64 = if (n as u64) > (i64::MAX as u64) {
                        i64::MAX
                    } else {
                        n as i64
                    };
                    let out = Dynamic::Array(items);
                    proof {
                        assert(view_dyns(out->Array_0@).len() == n as int);
                    }
                    Ok((out, Dynamic::Number(m)))
                },
                Dynamic::Str(s) => {
                    let n = s.as_str().unicode_len();
                    let m: i64 = if (n as u64) > (i64::MAX as u64) {
                        i64::MAX
                    } else {
                        n as i64
                    };
                    let out = Dynamic::Str(s);
                    Ok((out, Dynamic::Number(m)))
                },
                _ => Err(EvalError::TypeMismatch),
            }
        },
    }
}

} // verus!
