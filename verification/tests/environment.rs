use treewalk::env::Environment;
use treewalk::value::{Error, Value};

#[test]
fn get_on_empty_root_is_undefined() {
    let e = Environment::new();
    assert_eq!(
        e.get(0, &"x".to_string()),
        Err(Error::UndefinedVariable("x".to_string()))
    );
}

#[test]
fn define_then_get_in_same_scope() {
    let mut e = Environment::new();
    e.define(0, "x".to_string(), Value::Number(3));
    assert_eq!(e.get(0, &"x".to_string()), Ok(Value::Number(3)));
}

#[test]
fn redefinition_in_same_scope_shadows() {
    let mut e = Environment::new();
    e.define(0, "x".to_string(), Value::Number(3));
    e.define(0, "x".to_string(), Value::Boolean(true));
    assert_eq!(e.get(0, &"x".to_string()), Ok(Value::Boolean(true)));
}

#[test]
fn child_scope_delegates_to_parent() {
    let mut e = Environment::new();
    e.define(0, "x".to_string(), Value::Number(1));
    let c = e.child(0);
    assert_eq!(e.get(c, &"x".to_string()), Ok(Value::Number(1)));
}

#[test]
fn child_binding_shadows_parent_without_clobbering() {
    let mut e = Environment::new();
    e.define(0, "x".to_string(), Value::Number(1));
    let c = e.child(0);
    e.define(c, "x".to_string(), Value::Number(2));
    assert_eq!(e.get(c, &"x".to_string()), Ok(Value::Number(2)));
    assert_eq!(e.get(0, &"x".to_string()), Ok(Value::Number(1)));
}

#[test]
fn assign_mutates_nearest_enclosing_binding() {
    let mut e = Environment::new();
    e.define(0, "x".to_string(), Value::Number(1));
    let c = e.child(0);
    assert_eq!(e.assign(c, &"x".to_string(), Value::Number(7)), Ok(()));
    // The mutation landed in the root scope and is visible from both.
    assert_eq!(e.get(0, &"x".to_string()), Ok(Value::Number(7)));
    assert_eq!(e.get(c, &"x".to_string()), Ok(Value::Number(7)));
}

#[test]
fn assign_never_creates_a_binding() {
    let mut e = Environment::new();
    let c = e.child(0);
    assert_eq!(
        e.assign(c, &"z".to_string(), Value::Number(1)),
        Err(Error::UndefinedVariable("z".to_string()))
    );
    assert_eq!(
        e.get(c, &"z".to_string()),
        Err(Error::UndefinedVariable("z".to_string()))
    );
}

#[test]
fn sibling_scopes_share_their_parent() {
    let mut e = Environment::new();
    e.define(0, "n".to_string(), Value::Number(0));
    let a = e.child(0);
    let b = e.child(0);
    assert_eq!(e.assign(a, &"n".to_string(), Value::Number(5)), Ok(()));
    assert_eq!(e.get(b, &"n".to_string()), Ok(Value::Number(5)));
    assert_eq!(e.assign(b, &"n".to_string(), Value::Number(9)), Ok(()));
    assert_eq!(e.get(a, &"n".to_string()), Ok(Value::Number(9)));
}
