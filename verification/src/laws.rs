//! Laws of the evaluator: general properties, each proved against
//! [`crate::interp::eval_spec`] and the environment model.

use crate::ast::{Ast, BinOp, Lit};
use crate::env::{
    entries_define, env_assign, env_lookup, resolve, scope_find, SpecScope,
};
use crate::interp::{bind_params_spec, eval_list_spec, eval_spec, lemma_bind_params_effect, lit_value};
use crate::value::{Error, Value};
use std::rc::Rc;
use vstd::prelude::*;

verus! {

/// A literal evaluates to its own value, in any scope of any store, with
/// any budget, and leaves the store untouched.
pub proof fn lemma_literal_value(fuel: nat, l: Lit, s: int, env: Seq<SpecScope>)
    ensures
        eval_spec(fuel, Ast::Literal(l), s, env) == Some(
            (Ok::<Value, Error>(lit_value(l)), env),
        ),
{
}

/// A function definition evaluates to a closure that captures exactly the
/// current scope — not a copy of it, and not the caller's scope — and
/// leaves the store untouched.
pub proof fn lemma_function_def_captures(
    fuel: nat,
    ps: Rc<Vec<String>>,
    b: Rc<Ast>,
    nm: Option<String>,
    s: int,
    env: Seq<SpecScope>,
)
    ensures
        eval_spec(fuel, Ast::FunctionDef(ps, b, nm), s, env) == Some(
            (
                Ok::<Value, Error>(Value::Function { params: ps, body: b, env: s as usize }),
                env,
            ),
        ),
{
}

/// Division whose right operand evaluates to zero fails with
/// `DivisionByZero`; it never returns a number.
pub proof fn lemma_division_by_zero(
    fuel: nat,
    l: Box<Ast>,
    r: Box<Ast>,
    s: int,
    env: Seq<SpecScope>,
    x: i64,
    env1: Seq<SpecScope>,
    env2: Seq<SpecScope>,
)
    requires
        eval_spec(fuel, *l, s, env) == Some((Ok::<Value, Error>(Value::Number(x)), env1)),
        eval_spec(fuel, *r, s, env1) == Some((Ok::<Value, Error>(Value::Number(0i64)), env2)),
    ensures
        eval_spec(fuel, Ast::BinaryOp(BinOp::Div, l, r), s, env) == Some(
            (Err::<Value, Error>(Error::DivisionByZero), env2),
        ),
{
}

/// Calling a user-defined function with the wrong number of arguments
/// fails with `ArityMismatch(expected, actual)`, whatever the budget.
pub proof fn lemma_arity_mismatch(
    fuel: nat,
    callee: Box<Ast>,
    args: Vec<Ast>,
    s: int,
    env: Seq<SpecScope>,
    params: Rc<Vec<String>>,
    body: Rc<Ast>,
    fenv: usize,
    vs: Seq<Value>,
    env1: Seq<SpecScope>,
    env2: Seq<SpecScope>,
)
    requires
        eval_spec(fuel, *callee, s, env) == Some(
            (Ok::<Value, Error>(Value::Function { params, body, env: fenv }), env1),
        ),
        eval_list_spec(fuel, args@, 0, s, env1) == Some((Ok::<Seq<Value>, Error>(vs), env2)),
        vs.len() != (*params)@.len(),
    ensures
        eval_spec(fuel, Ast::Call(callee, args), s, env) == Some(
            (
                Err::<Value, Error>(Error::ArityMismatch((*params).len(), vs.len() as usize)),
                env2,
            ),
        ),
{
}

/// Assignment mutates the nearest existing binding and never creates one:
/// once the right-hand side has produced its value, the whole `Assign`
/// fails with `UndefinedVariable` exactly when no scope of the chain binds
/// the name, and otherwise overwrites that nearest binding in place.
pub proof fn lemma_assign_requires_binding(
    fuel: nat,
    name: String,
    rhs: Box<Ast>,
    s: int,
    env: Seq<SpecScope>,
    v: Value,
    env1: Seq<SpecScope>,
)
    requires
        eval_spec(fuel, *rhs, s, env) == Some((Ok::<Value, Error>(v), env1)),
    ensures
        resolve(env1, s, name@) is None ==> eval_spec(fuel, Ast::Assign(name, rhs), s, env)
            == Some((Err::<Value, Error>(Error::UndefinedVariable(name)), env1)),
        resolve(env1, s, name@) matches Some(r) ==> eval_spec(fuel, Ast::Assign(name, rhs), s, env)
            == Some(
            (
                Ok::<Value, Error>(v),
                env1.update(
                    r,
                    SpecScope {
                        parent: env1[r].parent,
                        entries: entries_define(env1[r].entries, name@, v),
                    },
                ),
            ),
        ),
{
}

/// `scope_find` looks only at the keys: two entry sequences with equal
/// keys position by position resolve every name to the same index.
pub proof fn lemma_scope_find_same_keys(
    e1: Seq<(Seq<char>, Value)>,
    e2: Seq<(Seq<char>, Value)>,
    nm: Seq<char>,
)
    requires
        e1.len() == e2.len(),
        forall|k: int| 0 <= k < e1.len() ==> (#[trigger] e1[k]).0 == (#[trigger] e2[k]).0,
    ensures
        scope_find(e1, nm) == scope_find(e2, nm),
    decreases e1.len(),
{
    if e1.len() > 0 {
        assert(e1[0].0 == e2[0].0);
        assert(forall|k: int|
            0 <= k < e1.drop_first().len() ==> (#[trigger] e1.drop_first()[k]).0 == (
            #[trigger] e2.drop_first()[k]).0);
        lemma_scope_find_same_keys(e1.drop_first(), e2.drop_first(), nm);
    }
}

/// Name resolution depends only on which names each scope binds and on the
/// parent links: two stores that agree on those, scope for scope, resolve
/// every lookup to the same scope.
pub proof fn lemma_resolve_same(
    env1: Seq<SpecScope>,
    env2: Seq<SpecScope>,
    s: int,
    name: Seq<char>,
)
    requires
        env1.len() <= env2.len(),
        s < env1.len(),
        forall|i: int| 0 <= i < env1.len() ==> (#[trigger] env2[i]).parent == env1[i].parent,
        forall|i: int|
            0 <= i < env1.len() ==> (scope_find(#[trigger] env2[i].entries, name) is Some
                <==> scope_find(#[trigger] env1[i].entries, name) is Some),
    ensures
        resolve(env2, s, name) == resolve(env1, s, name),
    decreases (if s >= 0 { s } else { 0 }),
{
    if 0 <= s < env1.len() {
        if scope_find(env1[s].entries, name) is Some {
        } else {
            match env1[s].parent {
                Some(p) => {
                    if 0 <= p < s {
                        lemma_resolve_same(env1, env2, p, name);
                    }
                },
                None => {},
            }
        }
    }
}

/// The scope that `resolve` names really binds the name, and lies within
/// the store.
pub proof fn lemma_resolve_found(env: Seq<SpecScope>, s: int, name: Seq<char>)
    ensures
        resolve(env, s, name) matches Some(r) ==> 0 <= r < env.len() && scope_find(
            env[r].entries,
            name,
        ) is Some,
    decreases (if s >= 0 { s } else { 0 }),
{
    if 0 <= s < env.len() {
        if scope_find(env[s].entries, name) is Some {
        } else {
            match env[s].parent {
                Some(p) => {
                    if 0 <= p < s {
                        lemma_resolve_found(env, p, name);
                    }
                },
                None => {},
            }
        }
    }
}

/// Shared mutation is visible through every chain: when an assignment made
/// from scope `s1` lands in scope `r`, any other scope `s2` whose chain
/// also resolves the name to `r` — a sibling closure, for instance — reads
/// the new value afterwards. No lost updates, no stale copies.
pub proof fn lemma_assignment_shared_visibility(
    env: Seq<SpecScope>,
    s1: int,
    s2: int,
    name: Seq<char>,
    v: Value,
    env2: Seq<SpecScope>,
    r: int,
)
    requires
        env_assign(env, s1, name, v) == Some(env2),
        resolve(env, s1, name) == Some(r),
        resolve(env, s2, name) == Some(r),
    ensures
        env_lookup(env2, s2, name) == Some(v),
{
    lemma_resolve_found(env, s1, name);
    let e = env[r].entries;
    let j = scope_find(e, name).unwrap();
    crate::env::lemma_scope_find(e, name);
    let e2 = entries_define(e, name, v);
    assert(e2 == e.update(j, (name, v)));
    assert(forall|k: int| 0 <= k < e.len() ==> (#[trigger] e2[k]).0 == (#[trigger] e[k]).0);
    lemma_scope_find_same_keys(e2, e, name);
    assert forall|i: int| 0 <= i < env.len() implies (scope_find(
        #[trigger] env2[i].entries,
        name,
    ) is Some <==> scope_find(#[trigger] env[i].entries, name) is Some) by {
        if i != r {
            assert(env2[i] == env[i]);
        }
    }
    assert(forall|i: int| 0 <= i < env.len() ==> (#[trigger] env2[i]).parent == env[i].parent);
    lemma_resolve_same(env, env2, s2, name);
    assert(env2[r].entries[j] == (name, v));
}

/// A name is visible from a scope exactly when some scope of its chain
/// binds it.
pub proof fn lemma_lookup_some_iff_resolve(env: Seq<SpecScope>, s: int, name: Seq<char>)
    ensures
        env_lookup(env, s, name) is Some <==> resolve(env, s, name) is Some,
{
    lemma_resolve_found(env, s, name);
}

/// Evaluation respects the scopes that already exist: it never destroys a
/// scope, never changes a parent link, and the only pre-existing scope
/// whose set of bound names can change is the scope it was started in
/// (through `Let`); every other binding it creates lands in scopes made
/// during the evaluation. Values held by other scopes may still change —
/// that is `Assign` — but which names they bind does not.
pub proof fn lemma_eval_preserves_scopes(fuel: nat, a: &Ast, s: int, env: Seq<SpecScope>)
    requires
        0 <= s < env.len(),
    ensures
        eval_spec(fuel, *a, s, env) matches Some(out) ==> {
            &&& out.1.len() >= env.len()
            &&& (forall|i: int| 0 <= i < env.len() ==> (#[trigger] out.1[i]).parent == env[i].parent)
            &&& (forall|i: int, nm: Seq<char>|
                #![trigger scope_find(out.1[i].entries, nm)]
                #![trigger scope_find(env[i].entries, nm)]
                0 <= i < env.len() && i != s ==> (scope_find(out.1[i].entries, nm) is Some
                    <==> scope_find(env[i].entries, nm) is Some))
        },
    decreases fuel, *a, 0int,
{
    match a {
        Ast::Literal(_) => {},
        Ast::Variable(_) => {},
        Ast::BinaryOp(_op, l, r) => {
            lemma_eval_preserves_scopes(fuel, &**l, s, env);
            match eval_spec(fuel, **l, s, env) {
                Some((Ok(_v1), env1)) => {
                    lemma_eval_preserves_scopes(fuel, &**r, s, env1);
                },
                _ => {},
            }
        },
        Ast::UnaryOp(_op, x) => {
            lemma_eval_preserves_scopes(fuel, &**x, s, env);
        },
        Ast::Let(_name, init) => {
            lemma_eval_preserves_scopes(fuel, &**init, s, env);
        },
        Ast::Assign(name, rhs) => {
            lemma_eval_preserves_scopes(fuel, &**rhs, s, env);
            match eval_spec(fuel, **rhs, s, env) {
                Some((Ok(v), env1)) => {
                    lemma_resolve_found(env1, s, name@);
                    match resolve(env1, s, name@) {
                        Some(r) => {
                            let e = env1[r].entries;
                            crate::env::lemma_scope_find(e, name@);
                            let e2 = entries_define(e, name@, v);
                            assert forall|nm: Seq<char>| scope_find(e2, nm) == scope_find(
                                e,
                                nm,
                            ) by {
                                assert(forall|k: int|
                                    0 <= k < e.len() ==> (#[trigger] e2[k]).0 == (
                                    #[trigger] e[k]).0);
                                lemma_scope_find_same_keys(e2, e, nm);
                            }
                        },
                        None => {},
                    }
                },
                _ => {},
            }
        },
        Ast::If(c, t, e) => {
            lemma_eval_preserves_scopes(fuel, &**c, s, env);
            match eval_spec(fuel, **c, s, env) {
                Some((Ok(v), env1)) => {
                    match v {
                        Value::Boolean(true) => {
                            lemma_eval_preserves_scopes(fuel, &**t, s, env1);
                        },
                        Value::Boolean(false) => {
                            match e {
                                Some(eb) => {
                                    lemma_eval_preserves_scopes(fuel, &**eb, s, env1);
                                },
                                None => {},
                            }
                        },
                        _ => {},
                    }
                },
                _ => {},
            }
        },
        Ast::Block(stmts) => {
            let envc = crate::env::env_child(env, s);
            lemma_eval_list_preserves_scopes(fuel, stmts@, 0, env.len() as int, envc);
        },
        Ast::FunctionDef(_ps, _b, _n) => {},
        Ast::Call(callee, args) => {
            lemma_eval_preserves_scopes(fuel, &**callee, s, env);
            match eval_spec(fuel, **callee, s, env) {
                Some((Ok(f), env1)) => {
                    lemma_eval_list_preserves_scopes(fuel, args@, 0, s, env1);
                    match eval_list_spec(fuel, args@, 0, s, env1) {
                        Some((Ok(vs), env2)) => {
                            match f {
                                Value::Function { params, body, env: fenv } => {
                                    if vs.len() == (*params)@.len() && fuel > 0 {
                                        let c = env2.len() as int;
                                        let env3 = crate::env::env_child(env2, fenv as int);
                                        lemma_bind_params_effect(env3, c, (*params)@, vs);
                                        let env4 = bind_params_spec(env3, c, (*params)@, vs);
                                        lemma_eval_preserves_scopes(
                                            (fuel - 1) as nat,
                                            &*body,
                                            c,
                                            env4,
                                        );
                                    }
                                },
                                _ => {},
                            }
                        },
                        _ => {},
                    }
                },
                _ => {},
            }
        },
        Ast::Program(stmts) => {
            lemma_eval_list_preserves_scopes(fuel, stmts@, 0, s, env);
        },
    }
}

/// As [`lemma_eval_preserves_scopes`], for a statement sequence.
pub proof fn lemma_eval_list_preserves_scopes(
    fuel: nat,
    items: Seq<Ast>,
    idx: int,
    s: int,
    env: Seq<SpecScope>,
)
    requires
        0 <= s < env.len(),
    ensures
        eval_list_spec(fuel, items, idx, s, env) matches Some(out) ==> {
            &&& out.1.len() >= env.len()
            &&& (forall|i: int| 0 <= i < env.len() ==> (#[trigger] out.1[i]).parent == env[i].parent)
            &&& (forall|i: int, nm: Seq<char>|
                #![trigger scope_find(out.1[i].entries, nm)]
                #![trigger scope_find(env[i].entries, nm)]
                0 <= i < env.len() && i != s ==> (scope_find(out.1[i].entries, nm) is Some
                    <==> scope_find(env[i].entries, nm) is Some))
        },
    decreases fuel, items, items.len() - idx,
{
    if 0 <= idx < items.len() {
        let av = items[idx];
        lemma_eval_preserves_scopes(fuel, &av, s, env);
        match eval_spec(fuel, items[idx], s, env) {
            Some((Ok(_v), env1)) => {
                lemma_eval_list_preserves_scopes(fuel, items, idx + 1, s, env1);
            },
            _ => {},
        }
    }
}

/// Bindings created inside a block are not visible after it: a block's
/// statements run in a fresh child scope, so after the block returns, the
/// names visible from the enclosing scope are exactly those visible
/// before. (Values visible before may have changed — `Assign` reaches out
/// of the block — but no name appears or disappears.)
pub proof fn lemma_block_locals_invisible(
    fuel: nat,
    stmts: Vec<Ast>,
    s: int,
    env: Seq<SpecScope>,
)
    requires
        0 <= s < env.len(),
    ensures
        eval_spec(fuel, Ast::Block(stmts), s, env) matches Some(out) ==> (forall|nm: Seq<char>|
            env_lookup(out.1, s, nm) is Some <==> env_lookup(env, s, nm) is Some),
{
    let envc = crate::env::env_child(env, s);
    let c = env.len() as int;
    lemma_eval_list_preserves_scopes(fuel, stmts@, 0, c, envc);
    match eval_spec(fuel, Ast::Block(stmts), s, env) {
        Some(out) => {
            assert forall|nm: Seq<char>|
                env_lookup(out.1, s, nm) is Some <==> env_lookup(env, s, nm) is Some by {
                assert forall|i: int| 0 <= i < env.len() implies (scope_find(
                    #[trigger] out.1[i].entries,
                    nm,
                ) is Some <==> scope_find(#[trigger] env[i].entries, nm) is Some) by {
                    assert(envc[i] == env[i]);
                    assert(scope_find(out.1[i].entries, nm) is Some <==> scope_find(
                        envc[i].entries,
                        nm,
                    ) is Some);
                }
                assert(forall|i: int|
                    0 <= i < env.len() ==> (#[trigger] out.1[i]).parent == env[i].parent);
                lemma_resolve_same(env, out.1, s, nm);
                lemma_lookup_some_iff_resolve(out.1, s, nm);
                lemma_lookup_some_iff_resolve(env, s, nm);
            }
        },
        None => {},
    }
}

} // verus!
