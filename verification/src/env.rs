//! The environment: a chain of scopes with shared ownership.
//!
//! All scopes of one evaluation live in a single store; a scope is named by
//! its index, and its parent link is the index of an older scope. Sharing a
//! scope between a closure and the frame that created it is sharing an
//! index, so a mutation made through one holder is seen by every other —
//! the store is the single owner of every scope. Parent indices always point
//! backwards, so the chain is acyclic by construction. Scopes are kept for
//! the lifetime of the store; a closure may therefore outlive the block or
//! call that created its captured scope.

use crate::value::{value_env_ok, Error, Value};
use vstd::prelude::*;

verus! {

/// The spec-level picture of one scope: an optional parent index and the
/// bindings, in the order they were first introduced.
#[verifier::ext_equal]
pub struct SpecScope {
    pub parent: Option<int>,
    pub entries: Seq<(Seq<char>, Value)>,
}

/// The index of the first entry bound to `name`, if any. Scopes keep their
/// keys unique, so the first match is the only one.
pub open spec fn scope_find(entries: Seq<(Seq<char>, Value)>, name: Seq<char>) -> Option<int>
    decreases entries.len(),
{
    if entries.len() == 0 {
        None
    } else if entries[0].0 == name {
        Some(0)
    } else {
        match scope_find(entries.drop_first(), name) {
            Some(j) => Some(j + 1),
            None => None,
        }
    }
}

/// `scope_find` returns the first index bound to `name`, and `None` exactly
/// when no entry is.
pub proof fn lemma_scope_find(entries: Seq<(Seq<char>, Value)>, name: Seq<char>)
    ensures
        match scope_find(entries, name) {
            Some(j) => 0 <= j < entries.len() && entries[j].0 == name && forall|i: int|
                0 <= i < j ==> (#[trigger] entries[i]).0 != name,
            None => forall|i: int| 0 <= i < entries.len() ==> (#[trigger] entries[i]).0 != name,
        },
    decreases entries.len(),
{
    if entries.len() > 0 && entries[0].0 != name {
        lemma_scope_find(entries.drop_first(), name);
        assert(forall|i: int|
            1 <= i < entries.len() ==> (#[trigger] entries[i]) == entries.drop_first()[i - 1]);
    }
}

/// The nearest scope, starting from `s` and walking parent links, that has a
/// binding for `name`; `None` if no scope in the chain has one.
pub open spec fn resolve(env: Seq<SpecScope>, s: int, name: Seq<char>) -> Option<int>
    decreases s,
{
    if 0 <= s < env.len() {
        if scope_find(env[s].entries, name) is Some {
            Some(s)
        } else {
            match env[s].parent {
                Some(p) => if 0 <= p < s {
                    resolve(env, p, name)
                } else {
                    None
                },
                None => None,
            }
        }
    } else {
        None
    }
}

/// The value `name` denotes in scope `s`: the binding in the nearest scope
/// of the chain that has one.
pub open spec fn env_lookup(env: Seq<SpecScope>, s: int, name: Seq<char>) -> Option<Value> {
    match resolve(env, s, name) {
        Some(r) => match scope_find(env[r].entries, name) {
            Some(j) => Some(env[r].entries[j].1),
            None => None,
        },
        None => None,
    }
}

/// Entries after binding `name` to `v` in one scope: the existing entry is
/// overwritten in place, or a new entry is appended.
pub open spec fn entries_define(
    entries: Seq<(Seq<char>, Value)>,
    name: Seq<char>,
    v: Value,
) -> Seq<(Seq<char>, Value)> {
    match scope_find(entries, name) {
        Some(j) => entries.update(j, (name, v)),
        None => entries.push((name, v)),
    }
}

/// The store after `define(s, name, v)`: only scope `s` changes.
pub open spec fn env_define(env: Seq<SpecScope>, s: int, name: Seq<char>, v: Value) -> Seq<
    SpecScope,
> {
    env.update(
        s,
        SpecScope { parent: env[s].parent, entries: entries_define(env[s].entries, name, v) },
    )
}

/// The store after `assign(s, name, v)`: the nearest scope that already
/// binds `name` is updated in place; `None` if no scope in the chain binds
/// it (assignment never creates a binding).
pub open spec fn env_assign(env: Seq<SpecScope>, s: int, name: Seq<char>, v: Value) -> Option<
    Seq<SpecScope>,
> {
    match resolve(env, s, name) {
        Some(r) => Some(
            env.update(
                r,
                SpecScope {
                    parent: env[r].parent,
                    entries: entries_define(env[r].entries, name, v),
                },
            ),
        ),
        None => None,
    }
}

/// The store after creating a child of scope `s`: a fresh empty scope whose
/// parent is `s`, at index `env.len()`.
pub open spec fn env_child(env: Seq<SpecScope>, s: int) -> Seq<SpecScope> {
    env.push(SpecScope { parent: Some(s), entries: Seq::empty() })
}

/// No two entries of one scope bind the same name.
pub open spec fn scope_keys_unique(entries: Seq<(Seq<char>, Value)>) -> bool {
    forall|i: int, j: int|
        0 <= i < j < entries.len() ==> (#[trigger] entries[i]).0 != (#[trigger] entries[j]).0
}

/// Well-formedness of the store: parent links point strictly backwards,
/// keys are unique within each scope, and every closure held in a binding
/// captures a scope of this store.
pub open spec fn env_wf(env: Seq<SpecScope>) -> bool {
    forall|i: int|
        0 <= i < env.len() ==> {
            let sc = #[trigger] env[i];
            &&& (sc.parent matches Some(p) ==> 0 <= p < i)
            &&& scope_keys_unique(sc.entries)
            &&& (forall|j: int|
                0 <= j < sc.entries.len() ==> value_env_ok(
                    (#[trigger] sc.entries[j]).1,
                    env.len() as int,
                ))
        }
}

/// The scopes of `pre` all survive into `post` with their parent links
/// unchanged: evaluation and the store operations only append scopes and
/// never re-chain an existing one.
pub open spec fn parents_preserved(pre: Seq<SpecScope>, post: Seq<SpecScope>) -> bool {
    &&& post.len() >= pre.len()
    &&& (forall|i: int| 0 <= i < pre.len() ==> (#[trigger] post[i]).parent == pre[i].parent)
}

/// `parents_preserved` composes across successive states.
pub broadcast proof fn lemma_parents_preserved_trans(
    a: Seq<SpecScope>,
    b: Seq<SpecScope>,
    c: Seq<SpecScope>,
)
    requires
        #[trigger] parents_preserved(a, b),
        #[trigger] parents_preserved(b, c),
    ensures
        parents_preserved(a, c),
{
    assert forall|i: int| 0 <= i < a.len() implies (#[trigger] c[i]).parent == a[i].parent by {
        assert(b[i].parent == a[i].parent);
        assert(c[i].parent == b[i].parent);
    }
}

/// The view of one scope's entries.
pub open spec fn entries_view(entries: Vec<(String, Value)>) -> Seq<(Seq<char>, Value)> {
    entries@.map_values(|e: (String, Value)| (e.0@, e.1))
}

/// One scope: its parent's index, if any, and its bindings.
pub struct Scope {
    pub parent: Option<usize>,
    pub entries: Vec<(String, Value)>,
}

impl View for Scope {
    type V = SpecScope;

    open spec fn view(&self) -> SpecScope {
        SpecScope {
            parent: match self.parent {
                Some(p) => Some(p as int),
                None => None,
            },
            entries: entries_view(self.entries),
        }
    }
}

/// The store of every scope of one evaluation. Scope 0 is the root scope.
pub struct Environment {
    pub scopes: Vec<Scope>,
}

impl View for Environment {
    type V = Seq<SpecScope>;

    open spec fn view(&self) -> Seq<SpecScope> {
        self.scopes@.map_values(|sc: Scope| sc@)
    }
}

/// The first entry of `entries` bound to `name`, as an index.
fn find_entry(entries: &Vec<(String, Value)>, name: &String) -> (r: Option<usize>)
    ensures
        match r {
            Some(j) => scope_find(entries_view(*entries), name@) == Some(j as int),
            None => scope_find(entries_view(*entries), name@) is None,
        },
{
    proof {
        lemma_scope_find(entries_view(*entries), name@);
    }
    let n = entries.len();
    let mut j: usize = 0;
    while j < n
        invariant
            j <= n,
            n == entries@.len(),
            forall|i: int| 0 <= i < j ==> (#[trigger] entries_view(*entries)[i]).0 != name@,
        decreases n - j,
    {
        if entries[j].0 == *name {
            proof {
                lemma_scope_find(entries_view(*entries), name@);
                let ev = entries_view(*entries);
                assert(ev[j as int].0 == name@);
                match scope_find(ev, name@) {
                    Some(k) => {
                        if k < j {
                            assert(ev[k].0 == name@);
                        } else if k > j {
                            assert(ev[j as int].0 != name@);
                        }
                    },
                    None => {
                        assert(ev[j as int].0 != name@);
                    },
                }
            }
            return Some(j);
        }
        assert((#[trigger] entries_view(*entries)[j as int]).0 != name@);
        j += 1;
    }
    proof {
        lemma_scope_find(entries_view(*entries), name@);
    }
    None
}

impl Environment {
    /// A fresh store holding only the empty root scope, index 0.
    pub fn new() -> (e: Environment)
        ensures
            e@.len() == 1,
            e@[0].parent is None,
            e@[0].entries == Seq::<(Seq<char>, Value)>::empty(),
            env_wf(e@),
    {
        let mut scopes: Vec<Scope> = Vec::new();
        scopes.push(Scope { parent: None, entries: Vec::new() });
        let e = Environment { scopes };
        proof {
            assert(e@[0].entries =~= Seq::<(Seq<char>, Value)>::empty());
        }
        e
    }

    /// The number of scopes in the store.
    pub fn len(&self) -> (n: usize)
        ensures
            n == self@.len(),
    {
        self.scopes.len()
    }

    /// Creates a new scope whose parent is `s` and returns its index.
    pub fn child(&mut self, s: usize) -> (c: usize)
        requires
            s < old(self)@.len(),
            env_wf(old(self)@),
        ensures
            final(self)@ == env_child(old(self)@, s as int),
            c == old(self)@.len(),
            env_wf(final(self)@),
            parents_preserved(old(self)@, final(self)@),
    {
        let c = self.scopes.len();
        self.scopes.push(Scope { parent: Some(s), entries: Vec::new() });
        proof {
            assert(self@[c as int].entries =~= Seq::<(Seq<char>, Value)>::empty());
            assert(self@ =~~= env_child(old(self)@, s as int));
            assert forall|i: int| 0 <= i < self@.len() implies {
                let sc = #[trigger] self@[i];
                &&& (sc.parent matches Some(p) ==> 0 <= p < i)
                &&& scope_keys_unique(sc.entries)
                &&& (forall|j: int|
                    0 <= j < sc.entries.len() ==> value_env_ok(
                        (#[trigger] sc.entries[j]).1,
                        self@.len() as int,
                    ))
            } by {
                if i < c {
                    assert(self@[i] == old(self)@[i]);
                    assert(forall|j: int|
                        0 <= j < self@[i].entries.len() ==> value_env_ok(
                            (#[trigger] self@[i].entries[j]).1,
                            old(self)@.len() as int,
                        ));
                }
            }
        }
        c
    }

    /// Inserts or overwrites the binding for `name` in scope `s` itself.
    /// Never fails; a redefinition in the same scope shadows the earlier one.
    pub fn define(&mut self, s: usize, name: String, value: Value)
        requires
            s < old(self)@.len(),
            env_wf(old(self)@),
            value_env_ok(value, old(self)@.len() as int),
        ensures
            final(self)@ == env_define(old(self)@, s as int, name@, value),
            final(self)@.len() == old(self)@.len(),
            env_wf(final(self)@),
            parents_preserved(old(self)@, final(self)@),
    {
        let ghost oldentries = self@[s as int].entries;
        proof {
            lemma_scope_find(oldentries, name@);
        }
        match find_entry(&self.scopes[s].entries, &name) {
            Some(j) => {
                self.scopes[s].entries[j] = (name, value);
            },
            None => {
                self.scopes[s].entries.push((name, value));
            },
        }
        proof {
            assert(self@ =~~= env_define(old(self)@, s as int, name@, value));
            Self::lemma_define_wf(old(self)@, s as int, name@, value);
        }
    }

    /// `define` preserves well-formedness.
    proof fn lemma_define_wf(env: Seq<SpecScope>, s: int, name: Seq<char>, v: Value)
        requires
            0 <= s < env.len(),
            env_wf(env),
            value_env_ok(v, env.len() as int),
        ensures
            env_wf(env_define(env, s, name, v)),
            env_define(env, s, name, v).len() == env.len(),
    {
        let env2 = env_define(env, s, name, v);
        lemma_scope_find(env[s].entries, name);
        assert forall|i: int| 0 <= i < env2.len() implies {
            let sc = #[trigger] env2[i];
            &&& (sc.parent matches Some(p) ==> 0 <= p < i)
            &&& scope_keys_unique(sc.entries)
            &&& (forall|j: int|
                0 <= j < sc.entries.len() ==> value_env_ok(
                    (#[trigger] sc.entries[j]).1,
                    env2.len() as int,
                ))
        } by {
            assert(env_wf(env));
            assert(0 <= i < env.len());
            let sc0 = env[i];
            assert((sc0.parent matches Some(p) ==> 0 <= p < i) && scope_keys_unique(sc0.entries)
                && (forall|j: int|
                0 <= j < sc0.entries.len() ==> value_env_ok(
                    (#[trigger] sc0.entries[j]).1,
                    env.len() as int,
                )));
            if i == s {
                let sc = env2[i];
                assert forall|a: int, b: int| 0 <= a < b < sc.entries.len() implies (
                #[trigger] sc.entries[a]).0 != (#[trigger] sc.entries[b]).0 by {
                    match scope_find(env[s].entries, name) {
                        Some(j) => {
                            assert(sc.entries[a].0 == sc0.entries[a].0);
                            assert(sc.entries[b].0 == sc0.entries[b].0);
                        },
                        None => {
                            if b == sc.entries.len() - 1 {
                                assert(sc.entries[b].0 == name);
                                assert(sc.entries[a].0 == sc0.entries[a].0);
                            }
                        },
                    }
                }
            }
        }
    }

    /// Looks `name` up in scope `s`, delegating to parents; fails with
    /// `UndefinedVariable` when no scope of the chain binds it.
    pub fn get(&self, s: usize, name: &String) -> (r: Result<Value, Error>)
        requires
            s < self@.len(),
            env_wf(self@),
        ensures
            match env_lookup(self@, s as int, name@) {
                Some(v) => r == Ok::<Value, Error>(v) && value_env_ok(v, self@.len() as int),
                None => r == Err::<Value, Error>(Error::UndefinedVariable(*name)),
            },
    {
        let mut cur = s;
        loop
            invariant
                cur < self@.len(),
                env_wf(self@),
                resolve(self@, s as int, name@) == resolve(self@, cur as int, name@),
            decreases cur,
        {
            match find_entry(&self.scopes[cur].entries, name) {
                Some(j) => {
                    proof {
                        lemma_scope_find(self@[cur as int].entries, name@);
                        assert(env_lookup(self@, s as int, name@) == Some(
                            self@[cur as int].entries[j as int].1,
                        ));
                    }
                    return Ok(self.scopes[cur].entries[j].1.clone());
                },
                None => {
                    match self.scopes[cur].parent {
                        Some(p) => {
                            proof {
                                assert(self@[cur as int].parent matches Some(q) && 0 <= q < cur);
                            }
                            cur = p;
                        },
                        None => {
                            return Err(Error::UndefinedVariable(name.clone()));
                        },
                    }
                },
            }
        }
    }

    /// Finds the nearest scope of the chain that already binds `name` and
    /// overwrites that binding; fails with `UndefinedVariable` when none
    /// does. Assignment never creates a binding.
    pub fn assign(&mut self, s: usize, name: &String, value: Value) -> (r: Result<(), Error>)
        requires
            s < old(self)@.len(),
            env_wf(old(self)@),
            value_env_ok(value, old(self)@.len() as int),
        ensures
            match env_assign(old(self)@, s as int, name@, value) {
                Some(env2) => r == Ok::<(), Error>(()) && final(self)@ == env2,
                None => r == Err::<(), Error>(Error::UndefinedVariable(*name)) && final(self)@
                    == old(self)@,
            },
            final(self)@.len() == old(self)@.len(),
            env_wf(final(self)@),
            parents_preserved(old(self)@, final(self)@),
    {
        let mut cur = s;
        loop
            invariant
                cur < self@.len(),
                self@ == old(self)@,
                env_wf(self@),
                s < self@.len(),
                value_env_ok(value, self@.len() as int),
                resolve(self@, s as int, name@) == resolve(self@, cur as int, name@),
            decreases cur,
        {
            match find_entry(&self.scopes[cur].entries, name) {
                Some(j) => {
                    proof {
                        lemma_scope_find(self@[cur as int].entries, name@);
                    }
                    self.scopes[cur].entries[j] = (name.clone(), value);
                    proof {
                        assert(self@ =~~= env_assign(
                            old(self)@,
                            s as int,
                            name@,
                            value,
                        ).unwrap());
                        Self::lemma_define_wf(old(self)@, cur as int, name@, value);
                        assert(env_assign(old(self)@, s as int, name@, value).unwrap()
                            =~~= env_define(old(self)@, cur as int, name@, value));
                    }
                    return Ok(());
                },
                None => {
                    match self.scopes[cur].parent {
                        Some(p) => {
                            proof {
                                assert(self@[cur as int].parent matches Some(q) && 0 <= q < cur);
                            }
                            cur = p;
                        },
                        None => {
                            return Err(Error::UndefinedVariable(name.clone()));
                        },
                    }
                },
            }
        }
    }
}

} // verus!
