//! The evaluator: walks a syntax tree against a current scope and produces
//! a value or an error.
//!
//! The whole observable behaviour is pinned down by [`eval_spec`], a
//! specification-level interpreter indexed by a call-depth budget (`fuel`):
//! applying a user-defined function consumes one unit, and exhausting the
//! budget is the abstract stack-overflow condition. The executable
//! evaluator is proved to return exactly what `eval_spec` says, for every
//! evaluation that does not reach a native callback. A native callback is
//! host code about which nothing is assumed, so `eval_spec` returns `None`
//! for evaluations that reach one; the evaluator still guarantees its
//! environment invariants in that case, whatever the host returned.

use crate::ast::{Ast, Lit};
use crate::env::{
    env_assign, env_child, env_define, env_lookup, env_wf, Environment, SpecScope,
};
use crate::ops::{apply_binop, apply_binop_spec, apply_unop, apply_unop_spec};
use crate::value::{kind_of, value_env_ok, Error, Kind, OpKind, Value};
use vstd::prelude::*;
use vstd::string::StringExecFns;

verus! {

/// The host side of the native-function extension point.
///
/// A `Value::NativeFunction` names a host callable by an opaque identifier;
/// the evaluator checks its arity, hands the evaluated arguments over, and
/// propagates the result (an `Err` message becomes `Error::NativeError`).
/// The callable is opaque: the evaluator assumes nothing about what it
/// returns or does to host state.
pub trait NativeHost {
    /// Invokes the native callable registered under `id`.
    fn invoke(&mut self, id: usize, args: Vec<Value>) -> Result<Value, String>;
}

/// A host with no natives registered: every invocation reports a failure.
pub struct NoNatives;

impl NativeHost for NoNatives {
    fn invoke(&mut self, _id: usize, _args: Vec<Value>) -> Result<Value, String> {
        Err(String::from_str("unknown native function"))
    }
}

/// The value a literal evaluates to.
pub open spec fn lit_value(l: crate::ast::Lit) -> Value {
    match l {
        crate::ast::Lit::Number(n) => Value::Number(n),
        crate::ast::Lit::Boolean(b) => Value::Boolean(b),
        crate::ast::Lit::Str(s) => Value::Str(s),
    }
}

/// The store after binding each parameter name to the corresponding
/// argument value, in order, in scope `c`.
pub open spec fn bind_params_spec(
    env: Seq<SpecScope>,
    c: int,
    names: Seq<String>,
    vals: Seq<Value>,
) -> Seq<SpecScope>
    decreases names.len(),
{
    if names.len() == 0 || vals.len() == 0 {
        env
    } else {
        bind_params_spec(
            env_define(env, c, names[0]@, vals[0]),
            c,
            names.drop_first(),
            vals.drop_first(),
        )
    }
}

/// Binding parameters touches only the parameter scope: every other scope
/// is left exactly as it was, and no scope is created or destroyed.
pub proof fn lemma_bind_params_effect(
    env: Seq<SpecScope>,
    c: int,
    names: Seq<String>,
    vals: Seq<Value>,
)
    requires
        0 <= c < env.len(),
    ensures
        ({
            let env2 = bind_params_spec(env, c, names, vals);
            &&& env2.len() == env.len()
            &&& (forall|i: int| 0 <= i < env.len() && i != c ==> (#[trigger] env2[i]) == env[i])
            &&& env2[c].parent == env[c].parent
        }),
    decreases names.len(),
{
    if names.len() > 0 && vals.len() > 0 {
        let envd = crate::env::env_define(env, c, names[0]@, vals[0]);
        lemma_bind_params_effect(envd, c, names.drop_first(), vals.drop_first());
    }
}

/// What evaluating node `a` in scope `s` of store `env` produces, with a
/// call-depth budget of `fuel`: the result (value or error) and the store
/// afterwards. `None` means the evaluation reaches an invocation of a
/// native callable, whose effect is not modeled.
///
/// `Let` and `Assign` both evaluate to the value they bind or store; a
/// `Block` or `Program` evaluates to its last statement's value, `Unit`
/// when it has none.
pub open spec fn eval_spec(fuel: nat, a: Ast, s: int, env: Seq<SpecScope>) -> Option<
    (Result<Value, Error>, Seq<SpecScope>),
>
    decreases fuel, a, 0int,
{
    match a {
        Ast::Literal(l) => Some((Ok(lit_value(l)), env)),
        Ast::Variable(name) => Some(
            (
                match env_lookup(env, s, name@) {
                    Some(v) => Ok(v),
                    None => Err(Error::UndefinedVariable(name)),
                },
                env,
            ),
        ),
        Ast::BinaryOp(op, l, r) => match eval_spec(fuel, *l, s, env) {
            None => None,
            Some((Err(e), env1)) => Some((Err(e), env1)),
            Some((Ok(v1), env1)) => match eval_spec(fuel, *r, s, env1) {
                None => None,
                Some((Err(e), env2)) => Some((Err(e), env2)),
                Some((Ok(v2), env2)) => Some((apply_binop_spec(op, v1, v2), env2)),
            },
        },
        Ast::UnaryOp(op, x) => match eval_spec(fuel, *x, s, env) {
            None => None,
            Some((Err(e), env1)) => Some((Err(e), env1)),
            Some((Ok(v), env1)) => Some((apply_unop_spec(op, v), env1)),
        },
        Ast::Let(name, init) => match eval_spec(fuel, *init, s, env) {
            None => None,
            Some((Err(e), env1)) => Some((Err(e), env1)),
            Some((Ok(v), env1)) => Some((Ok(v), env_define(env1, s, name@, v))),
        },
        Ast::Assign(name, rhs) => match eval_spec(fuel, *rhs, s, env) {
            None => None,
            Some((Err(e), env1)) => Some((Err(e), env1)),
            Some((Ok(v), env1)) => match env_assign(env1, s, name@, v) {
                Some(env2) => Some((Ok(v), env2)),
                None => Some((Err(Error::UndefinedVariable(name)), env1)),
            },
        },
        Ast::If(c, t, e) => match eval_spec(fuel, *c, s, env) {
            None => None,
            Some((Err(err), env1)) => Some((Err(err), env1)),
            Some((Ok(v), env1)) => match v {
                Value::Boolean(true) => eval_spec(fuel, *t, s, env1),
                Value::Boolean(false) => match e {
                    Some(eb) => eval_spec(fuel, *eb, s, env1),
                    None => Some((Ok(Value::Unit), env1)),
                },
                _ => Some(
                    (
                        Err(
                            Error::TypeMismatch {
                                expected: Kind::Boolean,
                                actual: kind_of(v),
                                op: OpKind::Condition,
                            },
                        ),
                        env1,
                    ),
                ),
            },
        },
        Ast::Block(stmts) => match eval_list_spec(
            fuel,
            stmts@,
            0,
            env.len() as int,
            env_child(env, s),
        ) {
            None => None,
            Some((Err(e), env2)) => Some((Err(e), env2)),
            Some((Ok(vs), env2)) => Some(
                (
                    Ok(
                        if vs.len() == 0 {
                            Value::Unit
                        } else {
                            vs.last()
                        },
                    ),
                    env2,
                ),
            ),
        },
        Ast::FunctionDef(ps, b, _n) => Some(
            (Ok(Value::Function { params: ps, body: b, env: s as usize }), env),
        ),
        Ast::Call(callee, args) => match eval_spec(fuel, *callee, s, env) {
            None => None,
            Some((Err(e), env1)) => Some((Err(e), env1)),
            Some((Ok(f), env1)) => match eval_list_spec(fuel, args@, 0, s, env1) {
                None => None,
                Some((Err(e), env2)) => Some((Err(e), env2)),
                Some((Ok(vs), env2)) => match f {
                    Value::Function { params, body, env: fenv } => if vs.len() != (*params).len() {
                        Some(
                            (
                                Err(Error::ArityMismatch((*params).len(), vs.len() as usize)),
                                env2,
                            ),
                        )
                    } else if fuel == 0 {
                        Some((Err(Error::StackOverflow), env2))
                    } else {
                        eval_spec(
                            (fuel - 1) as nat,
                            *body,
                            env2.len() as int,
                            bind_params_spec(
                                env_child(env2, fenv as int),
                                env2.len() as int,
                                (*params)@,
                                vs,
                            ),
                        )
                    },
                    Value::NativeFunction { arity, id: _ } => if vs.len() != arity {
                        Some((Err(Error::ArityMismatch(arity, vs.len() as usize)), env2))
                    } else {
                        None
                    },
                    _ => Some((Err(Error::NotCallable(kind_of(f))), env2)),
                },
            },
        },
        Ast::Program(stmts) => match eval_list_spec(fuel, stmts@, 0, s, env) {
            None => None,
            Some((Err(e), env1)) => Some((Err(e), env1)),
            Some((Ok(vs), env1)) => Some(
                (
                    Ok(
                        if vs.len() == 0 {
                            Value::Unit
                        } else {
                            vs.last()
                        },
                    ),
                    env1,
                ),
            ),
        },
    }
}

/// What evaluating `items[i..]` in order, each in scope `s`, produces: the
/// values of all of them, or the first error, together with the store
/// afterwards. `None` as for [`eval_spec`].
pub open spec fn eval_list_spec(
    fuel: nat,
    items: Seq<Ast>,
    i: int,
    s: int,
    env: Seq<SpecScope>,
) -> Option<(Result<Seq<Value>, Error>, Seq<SpecScope>)>
    decreases fuel, items, items.len() - i,
{
    if i < 0 || i >= items.len() {
        Some((Ok(Seq::empty()), env))
    } else {
        match eval_spec(fuel, items[i], s, env) {
            None => None,
            Some((Err(e), env1)) => Some((Err(e), env1)),
            Some((Ok(v), env1)) => match eval_list_spec(fuel, items, i + 1, s, env1) {
                None => None,
                Some((Err(e), env2)) => Some((Err(e), env2)),
                Some((Ok(vs), env2)) => Some((Ok(seq![v] + vs), env2)),
            },
        }
    }
}

/// The default call-depth budget of a fresh interpreter.
pub const DEFAULT_MAX_DEPTH: u64 = 1000;

/// The interpreter: the scope store, the host for native callables, and
/// the call-depth budget handed to each top-level evaluation.
pub struct Interpreter<H: NativeHost> {
    pub env: Environment,
    pub host: H,
    pub max_depth: u64,
}

impl<H: NativeHost> Interpreter<H> {
    /// The store is well-formed and the root scope exists.
    pub open spec fn wf(self) -> bool {
        env_wf(self.env@) && self.env@.len() >= 1
    }

    /// A fresh interpreter: an empty root scope and the default budget.
    pub fn new(host: H) -> (it: Interpreter<H>)
        ensures
            it.wf(),
            it.env@.len() == 1,
            it.env@[0].entries == Seq::<(Seq<char>, Value)>::empty(),
            it.env@[0].parent is None,
            it.max_depth == DEFAULT_MAX_DEPTH,
    {
        Interpreter { env: Environment::new(), host, max_depth: DEFAULT_MAX_DEPTH }
    }

    /// As [`Interpreter::new`], with an explicit call-depth budget.
    pub fn with_max_depth(host: H, max_depth: u64) -> (it: Interpreter<H>)
        ensures
            it.wf(),
            it.env@.len() == 1,
            it.env@[0].entries == Seq::<(Seq<char>, Value)>::empty(),
            it.env@[0].parent is None,
            it.max_depth == max_depth,
    {
        Interpreter { env: Environment::new(), host, max_depth }
    }

    /// Registers a binding in the root scope before (or between)
    /// evaluations; this is how the host installs its native functions.
    pub fn define_global(&mut self, name: String, value: Value)
        requires
            old(self).wf(),
            value_env_ok(value, old(self).env@.len() as int),
        ensures
            final(self).wf(),
            final(self).env@ == env_define(old(self).env@, 0, name@, value),
            final(self).env@.len() == old(self).env@.len(),
            final(self).max_depth == old(self).max_depth,
    {
        self.env.define(0, name, value);
    }

    /// Evaluates one node in scope `s`, with `fuel` applications of
    /// user-defined functions still allowed.
    #[verifier::rlimit(60)]
    fn eval_node(&mut self, fuel: u64, a: &Ast, s: usize) -> (res: Result<Value, Error>)
        requires
            env_wf(old(self).env@),
            s < old(self).env@.len(),
        ensures
            env_wf(final(self).env@),
            final(self).env@.len() >= old(self).env@.len(),
            final(self).max_depth == old(self).max_depth,
            crate::env::parents_preserved(old(self).env@, final(self).env@),
            res matches Ok(v) ==> value_env_ok(v, final(self).env@.len() as int),
            match eval_spec(fuel as nat, *a, s as int, old(self).env@) {
                Some(out) => res == out.0 && final(self).env@ == out.1,
                None => true,
            },
        decreases fuel, *a, 0int,
    {
        broadcast use crate::env::lemma_parents_preserved_trans;

        match a {
            Ast::Literal(l) => match l {
                Lit::Number(n) => Ok(Value::Number(*n)),
                Lit::Boolean(b) => Ok(Value::Boolean(*b)),
                Lit::Str(st) => Ok(Value::Str(st.clone())),
            },
            Ast::Variable(name) => self.env.get(s, name),
            Ast::BinaryOp(op, l, r) => {
                let v1 = match self.eval_node(fuel, &**l, s) {
                    Ok(v) => v,
                    Err(e) => return Err(e),
                };
                let v2 = match self.eval_node(fuel, &**r, s) {
                    Ok(v) => v,
                    Err(e) => return Err(e),
                };
                apply_binop(*op, &v1, &v2)
            },
            Ast::UnaryOp(op, x) => {
                let v = match self.eval_node(fuel, &**x, s) {
                    Ok(v) => v,
                    Err(e) => return Err(e),
                };
                apply_unop(*op, &v)
            },
            Ast::Let(name, init) => {
                let v = match self.eval_node(fuel, &**init, s) {
                    Ok(v) => v,
                    Err(e) => return Err(e),
                };
                self.env.define(s, name.clone(), v.clone());
                Ok(v)
            },
            Ast::Assign(name, rhs) => {
                let v = match self.eval_node(fuel, &**rhs, s) {
                    Ok(v) => v,
                    Err(e) => return Err(e),
                };
                match self.env.assign(s, name, v.clone()) {
                    Ok(()) => Ok(v),
                    Err(e) => Err(e),
                }
            },
            Ast::If(c, t, e) => {
                let cv = match self.eval_node(fuel, &**c, s) {
                    Ok(v) => v,
                    Err(e2) => return Err(e2),
                };
                match cv {
                    Value::Boolean(bv) => if bv {
                        self.eval_node(fuel, &**t, s)
                    } else {
                        match e {
                            Some(eb) => self.eval_node(fuel, &**eb, s),
                            None => Ok(Value::Unit),
                        }
                    },
                    other => Err(
                        Error::TypeMismatch {
                            expected: Kind::Boolean,
                            actual: other.kind(),
                            op: OpKind::Condition,
                        },
                    ),
                }
            },
            Ast::Block(stmts) => {
                let c = self.env.child(s);
                let vs = match self.eval_list(fuel, stmts, 0, c) {
                    Ok(v) => v,
                    Err(e) => return Err(e),
                };
                if vs.len() == 0 {
                    Ok(Value::Unit)
                } else {
                    Ok(vs[vs.len() - 1].clone())
                }
            },
            Ast::FunctionDef(ps, b, _fname) => Ok(
                Value::Function { params: ps.clone(), body: b.clone(), env: s },
            ),
            Ast::Call(callee, args) => {
                let fv = match self.eval_node(fuel, &**callee, s) {
                    Ok(v) => v,
                    Err(e) => return Err(e),
                };
                let vs = match self.eval_list(fuel, args, 0, s) {
                    Ok(v) => v,
                    Err(e) => return Err(e),
                };
                match fv {
                    Value::Function { params, body, env: fenv } => {
                        if vs.len() != params.len() {
                            return Err(Error::ArityMismatch(params.len(), vs.len()));
                        }
                        if fuel == 0 {
                            return Err(Error::StackOverflow);
                        }
                        let c = self.env.child(fenv);
                        bind_params(&mut self.env, c, &*params, &vs);
                        self.eval_node(fuel - 1, &*body, c)
                    },
                    Value::NativeFunction { arity, id } => {
                        if vs.len() != arity {
                            return Err(Error::ArityMismatch(arity, vs.len()));
                        }
                        match self.host.invoke(id, vs) {
                            Ok(v) => {
                                if value_scope_ok(&v, self.env.len()) {
                                    Ok(v)
                                } else {
                                    Err(
                                        Error::NativeError(
                                            String::from_str(
                                                "native function returned an invalid closure",
                                            ),
                                        ),
                                    )
                                }
                            },
                            Err(m) => Err(Error::NativeError(m)),
                        }
                    },
                    other => Err(Error::NotCallable(other.kind())),
                }
            },
            Ast::Program(stmts) => {
                let vs = match self.eval_list(fuel, stmts, 0, s) {
                    Ok(v) => v,
                    Err(e) => return Err(e),
                };
                if vs.len() == 0 {
                    Ok(Value::Unit)
                } else {
                    Ok(vs[vs.len() - 1].clone())
                }
            },
        }
    }

    /// Evaluates `items[i..]` in order in scope `s`, collecting the values.
    fn eval_list(&mut self, fuel: u64, items: &Vec<Ast>, i: usize, s: usize) -> (res: Result<
        Vec<Value>,
        Error,
    >)
        requires
            env_wf(old(self).env@),
            s < old(self).env@.len(),
            i <= items@.len(),
        ensures
            env_wf(final(self).env@),
            final(self).env@.len() >= old(self).env@.len(),
            final(self).max_depth == old(self).max_depth,
            crate::env::parents_preserved(old(self).env@, final(self).env@),
            res matches Ok(vs) ==> forall|k: int|
                0 <= k < vs@.len() ==> value_env_ok(
                    #[trigger] vs@[k],
                    final(self).env@.len() as int,
                ),
            match eval_list_spec(fuel as nat, items@, i as int, s as int, old(self).env@) {
                Some(out) => (match out.0 {
                    Ok(vals) => res matches Ok(vs) && vs@ == vals,
                    Err(e) => res == Err::<Vec<Value>, Error>(e),
                }) && final(self).env@ == out.1,
                None => true,
            },
        decreases fuel, items@, items@.len() - i,
    {
        broadcast use crate::env::lemma_parents_preserved_trans;

        if i >= items.len() {
            return Ok(Vec::new());
        }
        let v = match self.eval_node(fuel, &items[i], s) {
            Ok(v) => v,
            Err(e) => return Err(e),
        };
        match self.eval_list(fuel, items, i + 1, s) {
            Ok(rest) => {
                let ghost restv = rest@;
                let mut out = rest;
                out.insert(0, v);
                proof {
                    assert(out@ =~= seq![v] + restv);
                }
                Ok(out)
            },
            Err(e) => Err(e),
        }
    }

    /// Evaluates a tree in the root scope, with this interpreter's
    /// call-depth budget. The result, and the state of every scope
    /// afterwards, are exactly what [`eval_spec`] says of the tree —
    /// except for evaluations that invoke a native callable, about which
    /// only the environment invariants are promised.
    pub fn eval(&mut self, node: &Ast) -> (res: Result<Value, Error>)
        requires
            old(self).wf(),
        ensures
            final(self).wf(),
            final(self).env@.len() >= old(self).env@.len(),
            final(self).max_depth == old(self).max_depth,
            crate::env::parents_preserved(old(self).env@, final(self).env@),
            res matches Ok(v) ==> value_env_ok(v, final(self).env@.len() as int),
            match eval_spec(old(self).max_depth as nat, *node, 0, old(self).env@) {
                Some(out) => res == out.0 && final(self).env@ == out.1,
                None => true,
            },
    {
        let fuel = self.max_depth;
        self.eval_node(fuel, node, 0)
    }
}

/// Whether a value's captured scope, if any, lies within the first `n`
/// scopes of the store.
fn value_scope_ok(v: &Value, n: usize) -> (r: bool)
    ensures
        r == value_env_ok(*v, n as int),
{
    match v {
        Value::Function { env, .. } => *env < n,
        _ => true,
    }
}

/// Binds each parameter name to the corresponding argument value in scope
/// `c`, left to right.
fn bind_params(env: &mut Environment, c: usize, names: &Vec<String>, vals: &Vec<Value>)
    requires
        env_wf(old(env)@),
        c < old(env)@.len(),
        names@.len() == vals@.len(),
        forall|k: int|
            0 <= k < vals@.len() ==> value_env_ok(#[trigger] vals@[k], old(env)@.len() as int),
    ensures
        final(env)@ == bind_params_spec(old(env)@, c as int, names@, vals@),
        final(env)@.len() == old(env)@.len(),
        env_wf(final(env)@),
        crate::env::parents_preserved(old(env)@, final(env)@),
{
    proof {
        lemma_bind_params_effect(old(env)@, c as int, names@, vals@);
        assert(names@.skip(0) =~= names@);
        assert(vals@.skip(0) =~= vals@);
    }
    let n = names.len();
    let mut k: usize = 0;
    while k < n
        invariant
            k <= n,
            n == names@.len(),
            names@.len() == vals@.len(),
            env_wf(env@),
            env@.len() == old(env)@.len(),
            c < env@.len(),
            forall|j: int|
                0 <= j < vals@.len() ==> value_env_ok(#[trigger] vals@[j], env@.len() as int),
            bind_params_spec(old(env)@, c as int, names@, vals@) == bind_params_spec(
                env@,
                c as int,
                names@.skip(k as int),
                vals@.skip(k as int),
            ),
        decreases n - k,
    {
        let ghost envpre = env@;
        env.define(c, names[k].clone(), vals[k].clone());
        proof {
            assert(names@.skip(k as int)[0] == names@[k as int]);
            assert(vals@.skip(k as int)[0] == vals@[k as int]);
            assert(names@.skip(k as int).drop_first() =~= names@.skip(k as int + 1));
            assert(vals@.skip(k as int).drop_first() =~= vals@.skip(k as int + 1));
            assert(bind_params_spec(
                envpre,
                c as int,
                names@.skip(k as int),
                vals@.skip(k as int),
            ) == bind_params_spec(env@, c as int, names@.skip(k as int + 1), vals@.skip(k as int + 1)));
        }
        k += 1;
    }
    proof {
        assert(names@.skip(n as int).len() == 0);
    }
}

} // verus!
