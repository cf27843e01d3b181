use std::rc::Rc;
use treewalk::ast::{Ast, BinOp, Lit, UnOp};
use treewalk::interp::{Interpreter, NativeHost, NoNatives};
use treewalk::value::{Error, Kind, OpKind, Value};

fn num(n: i64) -> Ast {
    Ast::Literal(Lit::Number(n))
}

fn boolean(b: bool) -> Ast {
    Ast::Literal(Lit::Boolean(b))
}

fn strlit(s: &str) -> Ast {
    Ast::Literal(Lit::Str(s.to_string()))
}

fn var(name: &str) -> Ast {
    Ast::Variable(name.to_string())
}

fn let_(name: &str, init: Ast) -> Ast {
    Ast::Let(name.to_string(), Box::new(init))
}

fn assign(name: &str, rhs: Ast) -> Ast {
    Ast::Assign(name.to_string(), Box::new(rhs))
}

fn binop(op: BinOp, l: Ast, r: Ast) -> Ast {
    Ast::BinaryOp(op, Box::new(l), Box::new(r))
}

fn unop(op: UnOp, x: Ast) -> Ast {
    Ast::UnaryOp(op, Box::new(x))
}

fn if_(c: Ast, t: Ast, e: Option<Ast>) -> Ast {
    Ast::If(Box::new(c), Box::new(t), e.map(Box::new))
}

fn block(stmts: Vec<Ast>) -> Ast {
    Ast::Block(stmts)
}

fn fndef(params: &[&str], body: Ast) -> Ast {
    Ast::FunctionDef(
        Rc::new(params.iter().map(|p| p.to_string()).collect()),
        Rc::new(body),
        None,
    )
}

fn call(f: Ast, args: Vec<Ast>) -> Ast {
    Ast::Call(Box::new(f), args)
}

fn program(stmts: Vec<Ast>) -> Ast {
    Ast::Program(stmts)
}

fn run(node: &Ast) -> Result<Value, Error> {
    let mut it = Interpreter::new(NoNatives);
    it.eval(node)
}

#[test]
fn literal_number_ignores_environment() {
    let mut it = Interpreter::new(NoNatives);
    it.define_global("x".to_string(), Value::Number(99));
    assert_eq!(it.eval(&num(7)), Ok(Value::Number(7)));
    assert_eq!(it.eval(&boolean(true)), Ok(Value::Boolean(true)));
    assert_eq!(it.eval(&strlit("hi")), Ok(Value::Str("hi".to_string())));
}

#[test]
fn shadowing_in_one_scope_takes_latest() {
    let b = block(vec![let_("x", num(1)), let_("x", num(2)), var("x")]);
    assert_eq!(run(&b), Ok(Value::Number(2)));
}

#[test]
fn block_binding_not_visible_after_block() {
    let p = program(vec![
        block(vec![let_("x", num(1)), let_("x", num(2)), var("x")]),
        var("x"),
    ]);
    assert_eq!(run(&p), Err(Error::UndefinedVariable("x".to_string())));
}

#[test]
fn inner_block_shadows_outer_without_clobbering() {
    let p = program(vec![
        let_("x", num(1)),
        block(vec![let_("x", num(2)), var("x")]),
        var("x"),
    ]);
    assert_eq!(run(&p), Ok(Value::Number(1)));
}

#[test]
fn closure_captures_block_scope_that_outlives_block() {
    // f is defined inside a block that binds y = 5 first; the closure is the
    // block's value, is bound outside, and still sees y after the block ends.
    let p = program(vec![
        let_(
            "f",
            block(vec![let_("y", num(5)), fndef(&[], var("y"))]),
        ),
        call(var("f"), vec![]),
    ]);
    assert_eq!(run(&p), Ok(Value::Number(5)));
}

#[test]
fn assign_without_binding_is_undefined_variable() {
    assert_eq!(
        run(&assign("z", num(1))),
        Err(Error::UndefinedVariable("z".to_string()))
    );
}

#[test]
fn assign_overwrites_existing_binding() {
    let p = program(vec![let_("z", num(0)), assign("z", num(1)), var("z")]);
    assert_eq!(run(&p), Ok(Value::Number(1)));
}

#[test]
fn division_by_zero_fails() {
    assert_eq!(
        run(&binop(BinOp::Div, num(1), num(0))),
        Err(Error::DivisionByZero)
    );
    assert_eq!(
        run(&binop(BinOp::Mod, num(1), num(0))),
        Err(Error::DivisionByZero)
    );
}

#[test]
fn arity_mismatch_two_params_one_argument() {
    let p = program(vec![
        let_("g", fndef(&["a", "b"], var("a"))),
        call(var("g"), vec![num(1)]),
    ]);
    assert_eq!(run(&p), Err(Error::ArityMismatch(2, 1)));
}

#[test]
fn sibling_closures_share_the_outer_variable() {
    // Two closures over the same scope both mutate n; each observes the
    // other's updates, in call order.
    let p = program(vec![
        let_("n", num(0)),
        let_("inc", fndef(&[], assign("n", binop(BinOp::Add, var("n"), num(1))))),
        let_("dec", fndef(&[], assign("n", binop(BinOp::Sub, var("n"), num(10))))),
        call(var("inc"), vec![]),
        call(var("inc"), vec![]),
        call(var("dec"), vec![]),
        var("n"),
    ]);
    assert_eq!(run(&p), Ok(Value::Number(-8)));
}

#[test]
fn arithmetic_exact_values() {
    let e = binop(BinOp::Mul, binop(BinOp::Add, num(2), num(3)), num(4));
    assert_eq!(run(&e), Ok(Value::Number(20)));
    assert_eq!(run(&binop(BinOp::Mod, num(17), num(5))), Ok(Value::Number(2)));
    assert_eq!(run(&binop(BinOp::Div, num(17), num(5))), Ok(Value::Number(3)));
    assert_eq!(run(&unop(UnOp::Neg, num(9))), Ok(Value::Number(-9)));
    assert_eq!(run(&unop(UnOp::Not, boolean(false))), Ok(Value::Boolean(true)));
}

#[test]
fn arithmetic_wraps_on_overflow() {
    let e = binop(BinOp::Add, num(i64::MAX), num(1));
    assert_eq!(run(&e), Ok(Value::Number(i64::MIN)));
    let d = binop(BinOp::Div, num(i64::MIN), num(-1));
    assert_eq!(run(&d), Ok(Value::Number(i64::MIN)));
    let n = unop(UnOp::Neg, num(i64::MIN));
    assert_eq!(run(&n), Ok(Value::Number(i64::MIN)));
}

#[test]
fn number_comparisons() {
    assert_eq!(run(&binop(BinOp::Lt, num(1), num(2))), Ok(Value::Boolean(true)));
    assert_eq!(run(&binop(BinOp::Ge, num(2), num(2))), Ok(Value::Boolean(true)));
    assert_eq!(run(&binop(BinOp::Gt, num(1), num(2))), Ok(Value::Boolean(false)));
}

#[test]
fn string_comparisons_are_lexicographic() {
    assert_eq!(
        run(&binop(BinOp::Lt, strlit("apple"), strlit("banana"))),
        Ok(Value::Boolean(true))
    );
    assert_eq!(
        run(&binop(BinOp::Lt, strlit("abc"), strlit("abd"))),
        Ok(Value::Boolean(true))
    );
    assert_eq!(
        run(&binop(BinOp::Lt, strlit("ab"), strlit("abc"))),
        Ok(Value::Boolean(true))
    );
    assert_eq!(
        run(&binop(BinOp::Le, strlit("abc"), strlit("abc"))),
        Ok(Value::Boolean(true))
    );
    assert_eq!(
        run(&binop(BinOp::Gt, strlit("b"), strlit("a"))),
        Ok(Value::Boolean(true))
    );
}

#[test]
fn equality_same_kind_and_across_kinds() {
    assert_eq!(run(&binop(BinOp::Eq, num(3), num(3))), Ok(Value::Boolean(true)));
    assert_eq!(
        run(&binop(BinOp::Eq, strlit("a"), strlit("a"))),
        Ok(Value::Boolean(true))
    );
    // Differing kinds compare unequal, not an error.
    assert_eq!(
        run(&binop(BinOp::Eq, num(1), strlit("1"))),
        Ok(Value::Boolean(false))
    );
    assert_eq!(
        run(&binop(BinOp::Ne, num(1), boolean(true))),
        Ok(Value::Boolean(true))
    );
}

#[test]
fn logical_operators_require_booleans() {
    assert_eq!(
        run(&binop(BinOp::And, boolean(true), boolean(false))),
        Ok(Value::Boolean(false))
    );
    assert_eq!(
        run(&binop(BinOp::Or, boolean(false), boolean(true))),
        Ok(Value::Boolean(true))
    );
    assert_eq!(
        run(&binop(BinOp::And, num(1), boolean(true))),
        Err(Error::TypeMismatch {
            expected: Kind::Boolean,
            actual: Kind::Number,
            op: OpKind::Binary(BinOp::And),
        })
    );
}

#[test]
fn arithmetic_type_mismatch_reports_left_operand_first() {
    assert_eq!(
        run(&binop(BinOp::Add, boolean(true), num(1))),
        Err(Error::TypeMismatch {
            expected: Kind::Number,
            actual: Kind::Boolean,
            op: OpKind::Binary(BinOp::Add),
        })
    );
    assert_eq!(
        run(&binop(BinOp::Lt, num(1), strlit("x"))),
        Err(Error::TypeMismatch {
            expected: Kind::Number,
            actual: Kind::Str,
            op: OpKind::Binary(BinOp::Lt),
        })
    );
}

#[test]
fn if_condition_must_be_boolean() {
    assert_eq!(
        run(&if_(num(1), num(2), None)),
        Err(Error::TypeMismatch {
            expected: Kind::Boolean,
            actual: Kind::Number,
            op: OpKind::Condition,
        })
    );
}

#[test]
fn if_evaluates_exactly_one_branch() {
    assert_eq!(run(&if_(boolean(true), num(1), Some(num(2)))), Ok(Value::Number(1)));
    assert_eq!(run(&if_(boolean(false), num(1), Some(num(2)))), Ok(Value::Number(2)));
    // A false condition with no else branch yields Unit.
    assert_eq!(run(&if_(boolean(false), var("missing"), None)), Ok(Value::Unit));
}

#[test]
fn empty_block_and_program_yield_unit() {
    assert_eq!(run(&block(vec![])), Ok(Value::Unit));
    assert_eq!(run(&program(vec![])), Ok(Value::Unit));
}

#[test]
fn undefined_variable_lookup() {
    assert_eq!(
        run(&var("nope")),
        Err(Error::UndefinedVariable("nope".to_string()))
    );
}

#[test]
fn calling_a_number_is_not_callable() {
    assert_eq!(
        run(&call(num(1), vec![])),
        Err(Error::NotCallable(Kind::Number))
    );
}

#[test]
fn recursive_fibonacci() {
    // fib(n) = if n < 2 { n } else { fib(n-1) + fib(n-2) }
    let fib_body = if_(
        binop(BinOp::Lt, var("n"), num(2)),
        var("n"),
        Some(binop(
            BinOp::Add,
            call(var("fib"), vec![binop(BinOp::Sub, var("n"), num(1))]),
            call(var("fib"), vec![binop(BinOp::Sub, var("n"), num(2))]),
        )),
    );
    let p = program(vec![
        let_("fib", fndef(&["n"], fib_body)),
        call(var("fib"), vec![num(10)]),
    ]);
    assert_eq!(run(&p), Ok(Value::Number(55)));
}

#[test]
fn unbounded_recursion_exhausts_the_depth_budget() {
    let p = program(vec![
        let_("f", fndef(&[], call(var("f"), vec![]))),
        call(var("f"), vec![]),
    ]);
    let mut it = Interpreter::with_max_depth(NoNatives, 100);
    assert_eq!(it.eval(&p), Err(Error::StackOverflow));
}

#[test]
fn error_aborts_the_rest_of_the_program() {
    let p = program(vec![
        let_("a", num(1)),
        binop(BinOp::Div, num(1), num(0)),
        let_("b", num(2)),
    ]);
    assert_eq!(run(&p), Err(Error::DivisionByZero));
}

struct Doubler {
    invocations: usize,
}

impl NativeHost for Doubler {
    fn invoke(&mut self, id: usize, args: Vec<Value>) -> Result<Value, String> {
        self.invocations += 1;
        match (id, args.as_slice()) {
            (0, [Value::Number(n)]) => Ok(Value::Number(n * 2)),
            (1, _) => Err("boom".to_string()),
            _ => Err("unknown native".to_string()),
        }
    }
}

#[test]
fn native_function_is_invoked_with_evaluated_arguments() {
    let mut it = Interpreter::new(Doubler { invocations: 0 });
    it.define_global(
        "double".to_string(),
        Value::NativeFunction { arity: 1, id: 0 },
    );
    let p = call(var("double"), vec![binop(BinOp::Add, num(20), num(1))]);
    assert_eq!(it.eval(&p), Ok(Value::Number(42)));
    assert_eq!(it.host.invocations, 1);
}

#[test]
fn native_function_arity_is_checked_before_invocation() {
    let mut it = Interpreter::new(Doubler { invocations: 0 });
    it.define_global(
        "double".to_string(),
        Value::NativeFunction { arity: 1, id: 0 },
    );
    let p = call(var("double"), vec![num(1), num(2)]);
    assert_eq!(it.eval(&p), Err(Error::ArityMismatch(1, 2)));
    assert_eq!(it.host.invocations, 0);
}

#[test]
fn native_error_is_propagated_verbatim() {
    let mut it = Interpreter::new(Doubler { invocations: 0 });
    it.define_global(
        "boom".to_string(),
        Value::NativeFunction { arity: 0, id: 1 },
    );
    let p = call(var("boom"), vec![]);
    assert_eq!(it.eval(&p), Err(Error::NativeError("boom".to_string())));
}

#[test]
fn no_natives_host_reports_unknown() {
    let mut it = Interpreter::new(NoNatives);
    it.define_global(
        "mystery".to_string(),
        Value::NativeFunction { arity: 0, id: 0 },
    );
    assert_eq!(
        it.eval(&call(var("mystery"), vec![])),
        Err(Error::NativeError("unknown native function".to_string()))
    );
}

#[test]
fn let_returns_the_defined_value_and_assign_the_assigned() {
    assert_eq!(run(&let_("x", num(4))), Ok(Value::Number(4)));
    let p = program(vec![let_("x", num(0)), assign("x", num(6))]);
    assert_eq!(run(&p), Ok(Value::Number(6)));
}

#[test]
fn parameters_shadow_outer_bindings() {
    let p = program(vec![
        let_("x", num(1)),
        let_("f", fndef(&["x"], var("x"))),
        call(var("f"), vec![num(9)]),
    ]);
    assert_eq!(run(&p), Ok(Value::Number(9)));
}

#[test]
fn lexical_scoping_not_dynamic() {
    // g reads x from its defining scope, not from the caller f's scope.
    let p = program(vec![
        let_("x", num(1)),
        let_("g", fndef(&[], var("x"))),
        let_("f", fndef(&["x"], call(var("g"), vec![]))),
        call(var("f"), vec![num(99)]),
    ]);
    assert_eq!(run(&p), Ok(Value::Number(1)));
}

#[test]
fn division_and_modulo_truncate_toward_zero() {
    assert_eq!(run(&binop(BinOp::Div, num(-7), num(2))), Ok(Value::Number(-3)));
    assert_eq!(run(&binop(BinOp::Div, num(7), num(-2))), Ok(Value::Number(-3)));
    assert_eq!(run(&binop(BinOp::Mod, num(-7), num(3))), Ok(Value::Number(-1)));
    assert_eq!(run(&binop(BinOp::Mod, num(7), num(-3))), Ok(Value::Number(1)));
}

#[test]
fn string_ge_and_ne() {
    assert_eq!(
        run(&binop(BinOp::Ge, strlit("b"), strlit("b"))),
        Ok(Value::Boolean(true))
    );
    assert_eq!(
        run(&binop(BinOp::Ge, strlit("a"), strlit("b"))),
        Ok(Value::Boolean(false))
    );
    assert_eq!(
        run(&binop(BinOp::Ne, strlit("a"), strlit("b"))),
        Ok(Value::Boolean(true))
    );
}

#[test]
fn booleans_are_not_comparable_by_order() {
    assert_eq!(
        run(&binop(BinOp::Lt, boolean(true), boolean(false))),
        Err(Error::TypeMismatch {
            expected: Kind::Number,
            actual: Kind::Boolean,
            op: OpKind::Binary(BinOp::Lt),
        })
    );
}

#[test]
fn counter_closure_keeps_its_own_parameter_scope() {
    // make(start) returns a closure that increments start; the parameter
    // scope of each make call survives in the closure it returned.
    let p = program(vec![
        let_(
            "make",
            fndef(
                &["start"],
                fndef(&[], assign("start", binop(BinOp::Add, var("start"), num(1)))),
            ),
        ),
        let_("c1", call(var("make"), vec![num(10)])),
        let_("c2", call(var("make"), vec![num(100)])),
        call(var("c1"), vec![]),
        call(var("c1"), vec![]),
        call(var("c2"), vec![]),
        call(var("c1"), vec![]),
    ]);
    assert_eq!(run(&p), Ok(Value::Number(13)));
}
