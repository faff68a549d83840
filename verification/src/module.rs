use vstd::prelude::*;

use crate::ast::Ast;
use crate::expression::view_strs;

verus! {

/// Where a module stands in the eager, depth-first linking walk; a module
/// met again while `Running` closes an import cycle, which is fatal.
#[derive(Debug, Clone, Copy, PartialEq, Eq)]
pub enum ModuleState {
    Fresh,
    Running,
    Done,
}

/// A parsed program unit: its path, its statements, its export table, and
/// the scope its top-level bindings live in once it has run.
#[derive(Debug, PartialEq, Eq)]
pub struct Module {
    pub path: String,
    pub stmts: Vec<Ast>,
    pub exports: Vec<String>,
    pub scope: usize,
    pub state: ModuleState,
}

/// Whether the export table already lists `n`.
pub open spec fn spec_exports_contain(exports: Seq<Seq<char>>, n: Seq<char>) -> bool {
    exists|i: int| 0 <= i < exports.len() && exports[i] == n
}

/// The export table after exporting `n`: unchanged when `n` is already
/// listed, extended by `n` otherwise — exporting never duplicates an entry.
pub open spec fn spec_add_export(exports: Seq<Seq<char>>, n: Seq<char>) -> Seq<Seq<char>> {
    if spec_exports_contain(exports, n) {
        exports
    } else {
        exports.push(n)
    }
}

/// Export law: exporting a name a second time changes nothing. The export
/// table neither duplicates nor reorders entries when a module exports the
/// same name twice.
pub proof fn lemma_export_idempotent(exports: Seq<Seq<char>>, n: Seq<char>)
    ensures
        spec_add_export(spec_add_export(exports, n), n) == spec_add_export(exports, n),
{
    let once = spec_add_export(exports, n);
    if spec_exports_contain(exports, n) {
        assert(once == exports);
    } else {
        assert(once == exports.push(n));
        assert(once[once.len() - 1] == n);
        assert(spec_exports_contain(once, n));
    }
}

impl Module {
    /// A fresh module for `path` with statements `stmts`: nothing exported,
    /// not yet linked.
    pub fn new(path: String, stmts: Vec<Ast>) -> (m: Module)
        ensures
            m.path == path,
            m.stmts == stmts,
            view_strs(m.exports@) == Seq::<Seq<char>>::empty(),
            m.scope == 0,
            m.state == ModuleState::Fresh,
    {
        let m = Module { path, stmts, exports: Vec::new(), scope: 0, state: ModuleState::Fresh };
        proof {
            assert(view_strs(m.exports@) =~= Seq::<Seq<char>>::empty());
        }
        m
    }

    /// Marks `name` exported, idempotently; see `spec_add_export`.
    pub fn add_export(&mut self, name: String)
        ensures
            view_strs(final(self).exports@) == spec_add_export(
                view_strs(old(self).exports@),
                name@,
            ),
            final(self).path == old(self).path,
            final(self).stmts == old(self).stmts,
            final(self).scope == old(self).scope,
            final(self).state == old(self).state,
    {
        let ghost oldv = view_strs(self.exports@);
        let mut i: usize = 0;
        while i < self.exports.len()
            invariant
                i <= self.exports.len(),
                forall|j: int| 0 <= j < i ==> view_strs(self.exports@)[j] != name@,
                view_strs(self.exports@) == oldv,
                self.exports@.len() == oldv.len(),
            decreases self.exports.len() - i,
        {
            if self.exports[i] == name {
                proof {
                    assert(view_strs(self.exports@)[i as int] == self.exports@[i as int]@);
                    assert(spec_exports_contain(oldv, name@));
                }
                return ;
            }
            proof {
                assert(view_strs(self.exports@)[i as int] == self.exports@[i as int]@);
            }
            i = i + 1;
        }
        proof {
            assert(forall|j: int| 0 <= j < oldv.len() ==> oldv[j] != name@);
            assert(!spec_exports_contain(oldv, name@));
        }
        self.exports.push(name);
        proof {
            assert(view_strs(self.exports@) =~= oldv.push(name@));
        }
    }
}

} // verus!
