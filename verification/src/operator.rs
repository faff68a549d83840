use vstd::prelude::*;

verus! {

/// The fixed vocabulary of overloadable operators: `op add` intercepts `+`,
/// `op dot` intercepts member access on a class instance.
#[derive(Debug, Clone, Copy, PartialEq, Eq)]
pub enum Operator {
    Add,
    Dot,
}

} // verus!
