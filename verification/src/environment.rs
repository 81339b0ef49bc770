//! The lexical environment: a mutable name-to-value mapping per scope, each
//! scope optionally nested in a parent scope for enclosing-scope lookup.
//! Scopes live in an arena and name their parent by index, so no scope can
//! outlive a parent it refers to.

use vstd::prelude::*;

use crate::object::Object;

verus! {

/// One scope frame: its bindings, newest last, and its parent's index.
pub struct Scope {
    pub bindings: Vec<(String, Object)>,
    pub parent: Option<usize>,
}

/// The arena of scope frames. A frame's parent always has a smaller index,
/// so parent chains are finite and cycle-free.
pub struct Environment {
    pub scopes: Vec<Scope>,
}

/// The mapping a binding list stands for: a later binding of a name shadows
/// an earlier one.
pub open spec fn bindings_map(bs: Seq<(String, Object)>) -> Map<Seq<char>, Object>
    decreases bs.len(),
{
    if bs.len() == 0 {
        Map::empty()
    } else {
        bindings_map(bs.drop_last()).insert(bs.last().0@, bs.last().1)
    }
}

impl Environment {
    /// Every scope's parent index points strictly below it.
    pub open spec fn wf(&self) -> bool {
        forall|i: int|
            0 <= i < self.scopes@.len() ==> (self.scopes@[i].parent is Some
                ==> self.scopes@[i].parent->0 < i)
    }

    /// Number of scopes in the arena.
    pub open spec fn scope_count(&self) -> int {
        self.scopes@.len() as int
    }

    /// The mapping of one scope, without its parents.
    pub open spec fn scope_map(&self, s: int) -> Map<Seq<char>, Object> {
        bindings_map(self.scopes@[s].bindings@)
    }

    /// The value a name resolves to from scope `s`: the scope's own binding
    /// if any, else the enclosing scopes', outward.
    pub open spec fn spec_lookup(&self, s: int, name: Seq<char>) -> Option<Object>
        decreases s,
    {
        if !(0 <= s < self.scopes@.len()) {
            None
        } else if self.scope_map(s).contains_key(name) {
            Some(self.scope_map(s)[name])
        } else {
            match self.scopes@[s].parent {
                Some(p) => if p < s {
                    self.spec_lookup(p as int, name)
                } else {
                    None
                },
                None => None,
            }
        }
    }

    /// A fresh environment: one empty root scope.
    pub fn new() -> (r: Environment)
        ensures
            r.wf(),
            r.scope_count() == 1,
            r.scope_map(0) == Map::<Seq<char>, Object>::empty(),
            r.scopes@[0].parent is None,
    {
        let mut scopes: Vec<Scope> = Vec::new();
        scopes.push(Scope { bindings: Vec::new(), parent: None });
        Environment { scopes }
    }

    /// Opens a child scope of `parent` and returns its index.
    pub fn new_scope(&mut self, parent: usize) -> (idx: usize)
        requires
            old(self).wf(),
            parent < old(self).scope_count(),
        ensures
            final(self).wf(),
            final(self).scope_count() == old(self).scope_count() + 1,
            idx == old(self).scope_count(),
            forall|i: int|
                0 <= i < old(self).scope_count() ==> final(self).scopes@[i] == old(
                    self,
                ).scopes@[i],
            final(self).scope_map(idx as int) == Map::<Seq<char>, Object>::empty(),
            final(self).scopes@[idx as int].parent == Some(parent),
    {
        let idx = self.scopes.len();
        self.scopes.push(Scope { bindings: Vec::new(), parent: Some(parent) });
        idx
    }

    /// Binds `name` to `value` in scope `scope`, shadowing any earlier
    /// binding of the name there; other scopes are untouched.
    pub fn set(&mut self, scope: usize, name: String, value: Object)
        requires
            old(self).wf(),
            scope < old(self).scope_count(),
        ensures
            final(self).wf(),
            final(self).scope_count() == old(self).scope_count(),
            final(self).scope_map(scope as int) == old(self).scope_map(scope as int).insert(
                name@,
                value,
            ),
            final(self).scopes@[scope as int].parent == old(self).scopes@[scope as int].parent,
            forall|i: int|
                0 <= i < old(self).scope_count() && i != scope ==> final(self).scopes@[i] == old(
                    self,
                ).scopes@[i],
    {
        let ghost old_bs = self.scopes@[scope as int].bindings@;
        self.scopes[scope].bindings.push((name, value));
        proof {
            let bs = self.scopes@[scope as int].bindings@;
            assert(bs =~= old_bs.push((bs.last().0, value)));
            assert(bs.drop_last() =~= old_bs);
        }
    }

    /// Resolves `name` from scope `scope`, walking outward through the
    /// parent chain.
    pub fn get(&self, scope: usize, name: &str) -> (r: Option<Object>)
        requires
            self.wf(),
            scope < self.scope_count(),
        ensures
            r == self.spec_lookup(scope as int, name@),
    {
        let needle = String::from_str(name);
        let mut cur = scope;
        loop
            invariant
                self.wf(),
                cur < self.scope_count(),
                needle@ == name@,
                self.spec_lookup(scope as int, name@) == self.spec_lookup(cur as int, name@),
            decreases cur,
        {
            match scan_bindings(&self.scopes[cur].bindings, &needle) {
                Some(value) => {
                    return Some(value);
                },
                None => {
                    match self.scopes[cur].parent {
                        Some(p) => {
                            cur = p;
                        },
                        None => {
                            return None;
                        },
                    }
                },
            }
        }
    }
}

/// The newest binding of `needle` in the list, if any.
fn scan_bindings(bs: &Vec<(String, Object)>, needle: &String) -> (r: Option<Object>)
    ensures
        match r {
            Some(v) => bindings_map(bs@).contains_key(needle@) && bindings_map(bs@)[needle@]
                == v,
            None => !bindings_map(bs@).contains_key(needle@),
        },
{
    let n = bs.len();
    let mut j = n;
    while j > 0
        invariant
            n == bs@.len(),
            0 <= j <= n,
            forall|k: int| j <= k < n ==> bs@[k].0@ != needle@,
        decreases j,
    {
        j = j - 1;
        if bs[j].0.eq(needle) {
            proof {
                lemma_bindings_prefix(bs@, j + 1, needle@);
                assert(bs@.take(j + 1).drop_last() =~= bs@.take(j as int));
                assert(bs@.take(j + 1).last() == bs@[j as int]);
            }
            return Some(bs[j].1);
        }
    }
    proof {
        lemma_bindings_prefix(bs@, 0, needle@);
        assert(bs@.take(0) =~= Seq::<(String, Object)>::empty());
    }
    None
}

/// If no binding at or after `j` carries `name`, the whole list binds `name`
/// exactly as its first `j` entries do.
proof fn lemma_bindings_prefix(bs: Seq<(String, Object)>, j: int, name: Seq<char>)
    requires
        0 <= j <= bs.len(),
        forall|k: int| j <= k < bs.len() ==> bs[k].0@ != name,
    ensures
        bindings_map(bs).contains_key(name) == bindings_map(bs.take(j)).contains_key(name),
        bindings_map(bs).contains_key(name) ==> bindings_map(bs)[name] == bindings_map(
            bs.take(j),
        )[name],
    decreases bs.len() - j,
{
    if j < bs.len() {
        assert(bs.drop_last() =~= bs.take(bs.len() - 1));
        lemma_bindings_prefix(bs.take(bs.len() - 1), j, name);
        assert(bs.take(bs.len() - 1).take(j) =~= bs.take(j));
    } else {
        assert(bs.take(j) =~= bs);
    }
}

} // verus!
