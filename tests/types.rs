use std::collections::{HashMap, HashSet};
use type_inference::infer::InferenceError;
use type_inference::scheme::TypeScheme;
use type_inference::types::Type;
use type_inference::unify::{apply_bindings, merge_substitutions, unify, UNIFY_DEPTH};

fn function(argument: Type, result: Type) -> Type {
    Type::Function(Box::new(argument), Box::new(result))
}

#[test]
fn substitute_replaces_mapped_variables_only() {
    let mut m = HashMap::new();
    m.insert(1usize, Type::Number);
    let t = function(Type::Variable(1), Type::Variable(2));
    assert_eq!(t.substitute(&m), function(Type::Number, Type::Variable(2)));
}

#[test]
fn substitute_is_simultaneous() {
    let mut m = HashMap::new();
    m.insert(1usize, Type::Variable(2));
    m.insert(2usize, Type::Number);
    let t = function(Type::Variable(1), Type::Variable(2));
    assert_eq!(t.substitute(&m), function(Type::Variable(2), Type::Number));
}

#[test]
fn substitute_twice_is_substitute_once() {
    let mut m = HashMap::new();
    m.insert(1usize, Type::Number);
    m.insert(2usize, function(Type::Variable(3), Type::Number));
    let t = function(Type::Variable(1), function(Type::Variable(2), Type::Variable(4)));
    let once = t.substitute(&m);
    assert_eq!(once.substitute(&m), once);
    assert_eq!(
        once,
        function(Type::Number, function(function(Type::Variable(3), Type::Number), Type::Variable(4)))
    );
}

#[test]
fn variables_of_a_type() {
    let t = function(Type::Variable(5), function(Type::Number, Type::Variable(5)));
    let expected: HashSet<usize> = [5usize].into_iter().collect();
    assert_eq!(t.variables(), expected);
    assert!(Type::Number.variables().is_empty());
}

#[test]
fn fresh_variables_from_a_counter() {
    let mut next = 7usize;
    assert_eq!(Type::variable(&mut next), Type::Variable(7));
    assert_eq!(Type::variable(&mut next), Type::Variable(8));
    assert_eq!(next, 9);
}

#[test]
fn instantiate_uses_fresh_ids() {
    let scheme = TypeScheme {
        variables: vec![3],
        body: function(Type::Variable(3), Type::Variable(4)),
    };
    let mut next = 10usize;
    assert_eq!(scheme.instantiate(&mut next), function(Type::Variable(10), Type::Variable(4)));
    assert_eq!(scheme.instantiate(&mut next), function(Type::Variable(11), Type::Variable(4)));
    assert_eq!(next, 12);
    let free: HashSet<usize> = [4usize].into_iter().collect();
    assert_eq!(scheme.free_variables(), free);
    assert_eq!(scheme.free_occurrences(), vec![4]);
}

#[test]
fn unify_numbers() {
    assert_eq!(unify(&Type::Number, &Type::Number, UNIFY_DEPTH), Ok(vec![]));
}

#[test]
fn unify_binds_variable() {
    let t = function(Type::Number, Type::Number);
    assert_eq!(
        unify(&Type::Variable(1), &t, UNIFY_DEPTH),
        Ok(vec![(1, function(Type::Number, Type::Number))])
    );
    assert_eq!(unify(&Type::Number, &Type::Variable(2), UNIFY_DEPTH), Ok(vec![(2, Type::Number)]));
}

#[test]
fn unify_functions_threads_argument_bindings() {
    let a = function(Type::Variable(1), Type::Variable(1));
    let b = function(Type::Number, Type::Variable(2));
    let s = unify(&a, &b, UNIFY_DEPTH).unwrap();
    assert_eq!(s, vec![(1, Type::Number), (2, Type::Number)]);
    assert_eq!(apply_bindings(&s, &a), apply_bindings(&s, &b));
    assert_eq!(apply_bindings(&s, &a), function(Type::Number, Type::Number));
}

#[test]
fn unify_shape_mismatch() {
    let t = function(Type::Number, Type::Number);
    assert_eq!(unify(&Type::Number, &t, UNIFY_DEPTH), Err(InferenceError::Mismatch));
    assert_eq!(unify(&t, &Type::Number, UNIFY_DEPTH), Err(InferenceError::Mismatch));
}

#[test]
fn unify_depth_runs_out() {
    let a = function(Type::Variable(1), Type::Number);
    let b = function(Type::Number, Type::Number);
    assert_eq!(unify(&a, &b, 0), Err(InferenceError::Exhausted));
    assert!(unify(&a, &b, 1).is_ok());
}

#[test]
fn bindings_apply_in_order() {
    let s = merge_substitutions(vec![(1, Type::Variable(2))], vec![(2, Type::Number)]);
    assert_eq!(s.len(), 2);
    assert_eq!(apply_bindings(&s, &Type::Variable(1)), Type::Number);
    let reversed = merge_substitutions(vec![(2, Type::Number)], vec![(1, Type::Variable(2))]);
    assert_eq!(apply_bindings(&reversed, &Type::Variable(1)), Type::Variable(2));
}
