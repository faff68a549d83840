use vstd::prelude::*;

use crate::dynamic::clone_dynamic;
use crate::dynamic::view_bindings;
use crate::dynamic::CapturedScope;
use crate::dynamic::Dynamic;
use crate::dynamic::DynamicV;

verus! {

broadcast use vstd::std_specs::vec::axiom_vec_index_decreases, vstd::std_specs::vec::axiom_vec_decreases_to_view, vstd::seq::axiom_seq_index_decreases;

/// One lexical environment: its bindings, in definition order, and the
/// handle of the enclosing scope. The parent link is a back-reference for
/// lookup only.
#[derive(Debug, PartialEq, Eq)]
pub struct Scope {
    pub names: Vec<(String, Dynamic)>,
    pub parent: Option<usize>,
}

/// A scope as a mathematical value.
#[verifier::ext_equal]
pub struct ScopeV {
    pub names: Seq<(Seq<char>, DynamicV)>,
    pub parent: CapturedScope,
}

impl View for Scope {
    type V = ScopeV;

    open spec fn view(&self) -> ScopeV {
        ScopeV {
            names: view_bindings(self.names@),
            parent: match self.parent {
                Some(p) => CapturedScope::At(p as int),
                None => CapturedScope::Missing,
            },
        }
    }
}

/// The views of a list of scopes.
pub open spec fn view_scopes(v: Seq<Scope>) -> Seq<ScopeV> {
    Seq::new(
        v.len(),
        |i: int|
            if 0 <= i < v.len() {
                v[i]@
            } else {
                ScopeV { names: Seq::empty(), parent: CapturedScope::Missing }
            },
    )
}

/// All scopes, owned by index: parent links point at earlier entries, so a
/// chain of scopes never cycles, and frames captured by closures stay alive
/// for the arena's lifetime.
#[derive(Debug, PartialEq, Eq)]
pub struct ScopeArena {
    pub scopes: Vec<Scope>,
}

impl View for ScopeArena {
    type V = Seq<ScopeV>;

    open spec fn view(&self) -> Seq<ScopeV> {
        view_scopes(self.scopes@)
    }
}

/// The position of the first binding of `n` in a frame, at or after `i`.
pub open spec fn frame_index(names: Seq<(Seq<char>, DynamicV)>, n: Seq<char>, i: int) -> Option<
    int,
>
    decreases names.len() - i,
{
    if i < 0 || i >= names.len() {
        None
    } else if names[i].0 == n {
        Some(i)
    } else {
        frame_index(names, n, i + 1)
    }
}

/// The value the chain that starts at handle `h` gives to name `n`: the
/// innermost binding wins; lookup walks parent links outward, which point
/// strictly downward.
pub open spec fn spec_lookup(scopes: Seq<ScopeV>, h: int, n: Seq<char>) -> Option<DynamicV>
    decreases h,
{
    if h < 0 || h >= scopes.len() {
        None
    } else {
        match frame_index(scopes[h].names, n, 0) {
            Some(k) => Some(scopes[h].names[k].1),
            None => match scopes[h].parent {
                CapturedScope::At(p) => if 0 <= p < h {
                    spec_lookup(scopes, p, n)
                } else {
                    None
                },
                CapturedScope::Missing => None,
            },
        }
    }
}

/// The handle of the nearest scope in the chain from `h` that binds `n`.
pub open spec fn spec_assign_target(scopes: Seq<ScopeV>, h: int, n: Seq<char>) -> Option<int>
    decreases h,
{
    if h < 0 || h >= scopes.len() {
        None
    } else {
        match frame_index(scopes[h].names, n, 0) {
            Some(_) => Some(h),
            None => match scopes[h].parent {
                CapturedScope::At(p) => if 0 <= p < h {
                    spec_assign_target(scopes, p, n)
                } else {
                    None
                },
                CapturedScope::Missing => None,
            },
        }
    }
}

/// A frame's bindings after defining `n` as `v`: an existing binding of `n`
/// is overwritten in place, a new name is appended.
pub open spec fn spec_define(names: Seq<(Seq<char>, DynamicV)>, n: Seq<char>, v: DynamicV) -> Seq<
    (Seq<char>, DynamicV),
> {
    match frame_index(names, n, 0) {
        Some(k) => names.update(k, (n, v)),
        None => names.push((n, v)),
    }
}

/// The position of the first binding of `n` in the exec frame `names`.
fn find_in_frame(names: &Vec<(String, Dynamic)>, n: &String) -> (r: Option<usize>)
    ensures
        match r {
            Some(k) => k < names.len() && frame_index(view_bindings(names@), n@, 0) == Some(
                k as int,
            ),
            None => frame_index(view_bindings(names@), n@, 0) is None,
        },
{
    let mut i: usize = 0;
    while i < names.len()
        invariant
            i <= names.len(),
            frame_index(view_bindings(names@), n@, 0) == frame_index(
                view_bindings(names@),
                n@,
                i as int,
            ),
        decreases names.len() - i,
    {
        if names[i].0 == *n {
            proof {
                assert(view_bindings(names@)[i as int].0 == names@[i as int].0@);
            }
            return Some(i);
        }
        proof {
            assert(view_bindings(names@)[i as int].0 == names@[i as int].0@);
        }
        i = i + 1;
    }
    None
}

impl ScopeArena {
    /// An empty arena: no scopes yet.
    pub fn new() -> (a: ScopeArena)
        ensures
            a@ == Seq::<ScopeV>::empty(),
    {
        let a = ScopeArena { scopes: Vec::new() };
        proof {
            assert(a@ =~= Seq::<ScopeV>::empty());
        }
        a
    }

    /// Creates a scope whose parent is `parent`, and hands back its handle.
    pub fn child(&mut self, parent: Option<usize>) -> (h: usize)
        requires
            match parent {
                Some(p) => p < old(self).scopes.len(),
                None => true,
            },
        ensures
            h == old(self)@.len(),
            h == old(self).scopes.len(),
            final(self).scopes.len() == old(self).scopes.len() + 1,
            forall|i: int| 0 <= i < old(self)@.len() ==> #[trigger] final(self)@[i] == old(self)@[i],
            final(self)@ == old(self)@.push(
                ScopeV {
                    names: Seq::empty(),
                    parent: match parent {
                        Some(p) => CapturedScope::At(p as int),
                        None => CapturedScope::Missing,
                    },
                },
            ),
    {
        let h = self.scopes.len();
        self.scopes.push(Scope { names: Vec::new(), parent });
        proof {
            assert(view_bindings(final(self).scopes@[h as int].names@) =~= Seq::<
                (Seq<char>, DynamicV),
            >::empty());
            assert(final(self)@ =~= old(self)@.push(
                ScopeV {
                    names: Seq::empty(),
                    parent: match parent {
                        Some(p) => CapturedScope::At(p as int),
                        None => CapturedScope::Missing,
                    },
                },
            ));
        }
        h
    }

    /// The value the chain from `h` gives `name`, by `spec_lookup`.
    pub fn lookup(&self, h: usize, name: &String) -> (r: Option<Dynamic>)
        ensures
            match r {
                Some(d) => spec_lookup(self@, h as int, name@) == Some(d@),
                None => spec_lookup(self@, h as int, name@) is None,
            },
    {
        let mut cur: usize = h;
        loop
            invariant
                spec_lookup(self@, h as int, name@) == spec_lookup(self@, cur as int, name@),
                cur <= h,
            decreases cur,
        {
            if cur >= self.scopes.len() {
                return None;
            }
            proof {
                assert(self@[cur as int] == self.scopes@[cur as int]@);
            }
            match find_in_frame(&self.scopes[cur].names, name) {
                Some(k) => {
                    let d = clone_dynamic(&self.scopes[cur].names[k].1);
                    proof {
                        assert(view_bindings(self.scopes@[cur as int].names@)[k as int].1
                            == self.scopes@[cur as int].names@[k as int].1@);
                    }
                    return Some(d);
                },
                None => {
                    match self.scopes[cur].parent {
                        Some(p) => {
                            if p < cur {
                                cur = p;
                            } else {
                                return None;
                            }
                        },
                        None => {
                            return None;
                        },
                    }
                },
            }
        }
    }

    /// Defines `name` in scope `h` itself, shadowing any outer binding; see
    /// `spec_define`.
    pub fn define(&mut self, h: usize, name: String, value: Dynamic)
        requires
            h < old(self).scopes.len(),
        ensures
            final(self).scopes.len() == old(self).scopes.len(),
            forall|i: int|
                0 <= i < old(self)@.len() ==> (#[trigger] final(self)@[i]).parent == old(
                    self,
                )@[i].parent,
            final(self)@ == old(self)@.update(
                h as int,
                ScopeV {
                    names: spec_define(old(self)@[h as int].names, name@, value@),
                    parent: old(self)@[h as int].parent,
                },
            ),
    {
        let ghost oldv = self@;
        proof {
            assert(oldv[h as int] == self.scopes@[h as int]@);
        }
        let frame = &mut self.scopes[h];
        let ghost framev = (*frame)@;
        match find_in_frame(&frame.names, &name) {
            Some(k) => {
                let ghost nv = frame.names@;
                let slot = &mut frame.names[k];
                *slot = (name, value);
                proof {
                    assert(view_bindings(frame.names@) =~= spec_define(framev.names, name@, value@));
                }
            },
            None => {
                let ghost nv = frame.names@;
                frame.names.push((name, value));
                proof {
                    assert(view_bindings(frame.names@) =~= spec_define(framev.names, name@, value@));
                }
            },
        }
        proof {
            assert(final(self)@ =~= oldv.update(
                h as int,
                ScopeV {
                    names: spec_define(oldv[h as int].names, name@, value@),
                    parent: oldv[h as int].parent,
                },
            ));
        }
    }

    /// Assigns to the nearest scope already binding `name`; `false` and no
    /// change when none does — assignment never creates a binding.
    pub fn assign(&mut self, h: usize, name: String, value: Dynamic) -> (r: bool)
        ensures
            final(self).scopes.len() == old(self).scopes.len(),
            forall|i: int|
                0 <= i < old(self)@.len() ==> (#[trigger] final(self)@[i]).parent == old(
                    self,
                )@[i].parent,
            match spec_assign_target(old(self)@, h as int, name@) {
                Some(t) => r && final(self)@ == old(self)@.update(
                    t,
                    ScopeV {
                        names: spec_define(old(self)@[t].names, name@, value@),
                        parent: old(self)@[t].parent,
                    },
                ),
                None => !r && *final(self) == *old(self),
            },
    {
        match self.assign_target(h, &name) {
            Some(t) => {
                self.define(t, name, value);
                true
            },
            None => false,
        }
    }

    /// The nearest scope in the chain from `h` that binds `name`; an
    /// internal step of `assign`.
    fn assign_target(&self, h: usize, name: &String) -> (r: Option<usize>)
        ensures
            match r {
                Some(t) => t < self.scopes.len() && spec_assign_target(self@, h as int, name@)
                    == Some(t as int),
                None => spec_assign_target(self@, h as int, name@) is None,
            },
    {
        let mut cur: usize = h;
        loop
            invariant
                spec_assign_target(self@, h as int, name@) == spec_assign_target(
                    self@,
                    cur as int,
                    name@,
                ),
                cur <= h,
            decreases cur,
        {
            if cur >= self.scopes.len() {
                return None;
            }
            proof {
                assert(self@[cur as int] == self.scopes@[cur as int]@);
            }
            let found = match find_in_frame(&self.scopes[cur].names, name) {
                Some(_) => true,
                None => false,
            };
            if found {
                return Some(cur);
            }
            match self.scopes[cur].parent {
                Some(p) => {
                    if p < cur {
                        cur = p;
                    } else {
                        return None;
                    }
                },
                None => {
                    return None;
                },
            }
        }
    }
}

/// Scoping law: what a scope chain sees depends only on the frames at or
/// below its head. A block or call frame pushed beyond `h` — with whatever
/// definitions it collects — leaves every lookup through `h` unchanged, so a
/// variable defined inside a nested block is invisible once evaluation is
/// back at the enclosing scope.
pub proof fn lemma_inner_definitions_invisible(
    s1: Seq<ScopeV>,
    s2: Seq<ScopeV>,
    h: int,
    n: Seq<char>,
)
    requires
        0 <= h < s1.len(),
        s1.len() <= s2.len(),
        forall|i: int| 0 <= i <= h ==> s1[i] == s2[i],
    ensures
        spec_lookup(s1, h, n) == spec_lookup(s2, h, n),
    decreases h,
{
    assert(s1[h] == s2[h]);
    match frame_index(s1[h].names, n, 0) {
        Some(_) => {},
        None => {
            match s1[h].parent {
                CapturedScope::At(p) => {
                    if 0 <= p < h {
                        lemma_inner_definitions_invisible(s1, s2, p, n);
                    }
                },
                CapturedScope::Missing => {},
            }
        },
    }
}

} // verus!
