use type_inference::ast::{app, lambda, let_, num, var};
use type_inference::infer::{infer, infer_type, infer_type_scheme, InferenceError};
use type_inference::scheme::TypeScheme;
use type_inference::types::Type;

fn function(argument: Type, result: Type) -> Type {
    Type::Function(Box::new(argument), Box::new(result))
}

#[test]
fn number_literal_has_type_number() {
    for k in [0isize, 42, -7, isize::MIN, isize::MAX] {
        let scheme = infer_type_scheme(&num(k)).unwrap();
        assert!(scheme.variables.is_empty());
        assert_eq!(scheme.body, Type::Number);
    }
}

#[test]
fn constant_function_applied_in_let_body() {
    let e = let_("f", lambda("x", num(42)), app(var("f"), num(42)));
    let scheme = infer_type_scheme(&e).unwrap();
    assert!(scheme.variables.is_empty());
    assert_eq!(scheme.body, Type::Number);
}

#[test]
fn let_bound_constant_function_is_generalized() {
    let e = let_(
        "f",
        lambda("x", num(42)),
        let_("y", app(var("f"), num(42)), var("f")),
    );
    let scheme = infer_type_scheme(&e).unwrap();
    assert_eq!(scheme.variables.len(), 1);
    let v = scheme.variables[0];
    assert_eq!(scheme.body, function(Type::Variable(v), Type::Number));
}

#[test]
fn identity_applied_at_two_types() {
    let e = let_(
        "f",
        lambda("x", var("x")),
        app(app(var("f"), lambda("y", var("y"))), num(1)),
    );
    let scheme = infer_type_scheme(&e).unwrap();
    assert!(scheme.variables.is_empty());
    assert_eq!(scheme.body, Type::Number);
}

#[test]
fn identity_used_on_number_then_on_function() {
    let e = let_(
        "f",
        lambda("x", var("x")),
        let_("a", app(var("f"), num(1)), app(var("f"), lambda("y", var("y")))),
    );
    let scheme = infer_type_scheme(&e).unwrap();
    assert_eq!(scheme.variables.len(), 1);
    let v = scheme.variables[0];
    assert_eq!(scheme.body, function(Type::Variable(v), Type::Variable(v)));
}

#[test]
fn unbound_variable_fails() {
    assert_eq!(infer_type_scheme(&var("z")), Err(InferenceError::UnboundVariable));
    assert_eq!(
        infer_type_scheme(&lambda("x", var("z"))),
        Err(InferenceError::UnboundVariable)
    );
}

#[test]
fn let_is_not_recursive() {
    let e = let_("f", lambda("x", app(var("f"), var("x"))), var("f"));
    assert_eq!(infer_type_scheme(&e), Err(InferenceError::UnboundVariable));
}

#[test]
fn applying_a_number_fails() {
    assert_eq!(
        infer_type_scheme(&app(num(1), num(2))),
        Err(InferenceError::Mismatch)
    );
}

#[test]
fn fresh_ids_running_out_fails() {
    let env: Vec<(String, TypeScheme)> = Vec::new();
    let mut next = usize::MAX;
    assert_eq!(
        infer(&env, &lambda("x", var("x")), &mut next).map(|r| r.1),
        Err(InferenceError::Exhausted)
    );
}

#[test]
fn let_bound_number() {
    let e = let_("x", num(42), var("x"));
    assert_eq!(infer_type(&e), Ok(Type::Number));
}

#[test]
fn curried_constant_function_applied_twice() {
    let e = let_(
        "f",
        lambda("x", lambda("x", num(42))),
        app(app(var("f"), num(42)), num(42)),
    );
    assert_eq!(infer_type(&e), Ok(Type::Number));
}

#[test]
fn identity_function_scheme() {
    let e = let_("f", lambda("x", var("x")), var("f"));
    let scheme = infer_type_scheme(&e).unwrap();
    assert_eq!(scheme.variables.len(), 1);
    let v = scheme.variables[0];
    assert_eq!(scheme.body, function(Type::Variable(v), Type::Variable(v)));
}

#[test]
fn identity_stays_polymorphic_after_use() {
    let e = let_(
        "f",
        lambda("x", var("x")),
        let_("y", app(var("f"), num(42)), var("f")),
    );
    let scheme = infer_type_scheme(&e).unwrap();
    assert_eq!(scheme.variables.len(), 1);
    let v = scheme.variables[0];
    assert_eq!(scheme.body, function(Type::Variable(v), Type::Variable(v)));
}

#[test]
fn shadowed_parameter_scheme() {
    let e = let_("f", lambda("x", lambda("x", var("x"))), var("f"));
    let scheme = infer_type_scheme(&e).unwrap();
    assert_eq!(scheme.variables.len(), 2);
    let (a, b) = (scheme.variables[0], scheme.variables[1]);
    assert_ne!(a, b);
    assert_eq!(
        scheme.body,
        function(Type::Variable(a), function(Type::Variable(b), Type::Variable(b)))
    );
}

#[test]
fn first_projection_scheme() {
    let e = let_("f", lambda("x", lambda("y", var("x"))), var("f"));
    let scheme = infer_type_scheme(&e).unwrap();
    assert_eq!(scheme.variables.len(), 2);
    let (a, b) = (scheme.variables[0], scheme.variables[1]);
    assert_ne!(a, b);
    assert_eq!(
        scheme.body,
        function(Type::Variable(a), function(Type::Variable(b), Type::Variable(a)))
    );
}

#[test]
fn lambda_without_let_is_generalized_at_top() {
    let scheme = infer_type_scheme(&lambda("x", num(3))).unwrap();
    assert_eq!(scheme.variables.len(), 1);
    let v = scheme.variables[0];
    assert_eq!(scheme.body, function(Type::Variable(v), Type::Number));
}

#[test]
fn let_free_program_with_closed_type() {
    let e = app(lambda("x", var("x")), num(5));
    let scheme = infer_type_scheme(&e).unwrap();
    assert!(scheme.variables.is_empty());
    assert_eq!(scheme.body, Type::Number);
}

#[test]
fn lambda_parameter_is_monomorphic() {
    // f is used as a function inside the lambda; its type is a plain
    // variable there, bound by unification, and quantified only at the top.
    let e = lambda("f", app(var("f"), num(1)));
    let scheme = infer_type_scheme(&e).unwrap();
    assert_eq!(scheme.variables.len(), 1);
    let v = scheme.variables[0];
    assert_eq!(
        scheme.body,
        function(function(Type::Number, Type::Variable(v)), Type::Variable(v))
    );
}
