use crate::ast::Expression;
use crate::infer::{inferred, inferred_scheme, lookup, env_apply, Entry, InferenceError};
use crate::types::{occurrences, Type};
use crate::unify::{apply_all, unified, UNIFY_DEPTH};
use std::sync::Arc;
use vstd::prelude::*;

verus! {

/// Whether `e` contains no `let`.
pub open spec fn let_free(e: Expression) -> bool
    decreases e,
{
    match e {
        Expression::Application(f, x) => let_free(*f) && let_free(*x),
        Expression::Lambda(_, b) => let_free(*b),
        Expression::Let(_, _, _) => false,
        Expression::Number(_) => true,
        Expression::Variable(_) => true,
    }
}

/// The number of lambdas and applications in `e`.
pub open spec fn binders(e: Expression) -> nat
    decreases e,
{
    match e {
        Expression::Application(f, x) => binders(*f) + binders(*x) + 1,
        Expression::Lambda(_, b) => binders(*b) + 1,
        Expression::Let(_, b, x) => binders(*b) + binders(*x),
        Expression::Number(_) => 0,
        Expression::Variable(_) => 0,
    }
}

/// The expression that `a` points to.
pub open spec fn target(a: Arc<Expression>) -> Expression {
    *a
}

/// Every scheme of `env` quantifies nothing.
pub open spec fn monomorphic(env: Seq<Entry>) -> bool {
    forall|j: int| 0 <= j < env.len() ==> (#[trigger] env[j]).1.len() == 0
}

proof fn lemma_lookup_monomorphic(env: Seq<Entry>, name: Seq<char>)
    requires
        monomorphic(env),
    ensures
        lookup(env, name) matches Some(en) ==> en.1.len() == 0,
    decreases env.len(),
{
    if env.len() > 0 {
        assert(env.last() == env[env.len() - 1]);
        lemma_lookup_monomorphic(env.drop_last(), name);
    }
}

/// Without `let`, inference never builds a polymorphic scheme: under an
/// environment of monomorphic schemes, each lookup instantiates nothing, so
/// fresh ids are drawn only for lambdas and applications.
pub proof fn lemma_let_free_never_instantiates(env: Seq<Entry>, e: Expression, next: usize)
    requires
        let_free(e),
        monomorphic(env),
    ensures
        inferred(env, e, next) matches Ok((_, _, n)) ==> n == next + binders(e),
    decreases e,
{
    match e {
        Expression::Application(f, x) => {
            lemma_let_free_never_instantiates(env, target(f), next);
            if let Ok((s1, _, n1)) = inferred(env, target(f), next) {
                let env1 = env_apply(env, s1);
                assert(monomorphic(env1)) by {
                    assert forall|j: int| 0 <= j < env1.len() implies (#[trigger] env1[j]).1.len() == 0 by {
                        assert(env1[j].1 == env[j].1);
                    }
                }
                lemma_let_free_never_instantiates(env1, target(x), n1);
            }
        },
        Expression::Lambda(v, b) => {
            if next < usize::MAX {
                let inner = env.push((v@, Seq::<usize>::empty(), Type::Variable(next)));
                assert(monomorphic(inner)) by {
                    assert forall|j: int| 0 <= j < inner.len() implies (#[trigger] inner[j]).1.len() == 0 by {
                        if j < env.len() {
                            assert(inner[j] == env[j]);
                        }
                    }
                }
                lemma_let_free_never_instantiates(inner, target(b), (next + 1) as usize);
            }
        },
        Expression::Let(_, _, _) => {},
        Expression::Number(_) => {},
        Expression::Variable(name) => {
            lemma_lookup_monomorphic(env, name@);
        },
    }
}

/// A let-free program whose inferred type has no variables gets a scheme
/// that quantifies nothing.
pub proof fn lemma_let_free_closed_type_not_generalized(e: Expression)
    requires
        let_free(e),
        inferred(Seq::empty(), e, 0) matches Ok((_, t, _)) && occurrences(t).len() == 0,
    ensures
        inferred_scheme(e) matches Ok((vars, _)) && vars.len() == 0,
{
}

/// A numeric literal has the type `Number`, with nothing quantified.
pub proof fn lemma_number_scheme(k: isize)
    ensures
        inferred_scheme(Expression::Number(k)) == Ok::<(Seq<usize>, Type), InferenceError>(
            (Seq::<usize>::empty(), Type::Number),
        ),
{
    assert(occurrences(Type::Number) =~= Seq::<usize>::empty());
}

/// A variable with no binding in the environment fails to infer, as unbound.
pub proof fn lemma_unbound_variable(env: Seq<Entry>, e: Expression, next: usize)
    requires
        e matches Expression::Variable(name) && lookup(env, name@) is None,
    ensures
        inferred(env, e, next) == Err::<(Seq<(usize, Type)>, Type, usize), InferenceError>(
            InferenceError::UnboundVariable,
        ),
{
}

/// Applying a number to a number fails to infer, as a mismatch.
pub proof fn lemma_number_application_mismatch(env: Seq<Entry>, e: Expression, next: usize)
    requires
        e matches Expression::Application(f, x) && *f matches Expression::Number(_)
            && *x matches Expression::Number(_),
        next < usize::MAX,
    ensures
        inferred(env, e, next) == Err::<(Seq<(usize, Type)>, Type, usize), InferenceError>(
            InferenceError::Mismatch,
        ),
{
    let f = e->Application_0;
    let x = e->Application_1;
    let s: Seq<(usize, Type)> = Seq::empty();
    assert(inferred(env, target(f), next) == Ok::<(Seq<(usize, Type)>, Type, usize), InferenceError>(
        (s, Type::Number, next),
    ));
    assert(inferred(env_apply(env, s), target(x), next)
        == Ok::<(Seq<(usize, Type)>, Type, usize), InferenceError>((s, Type::Number, next)));
    assert(apply_all(s, Type::Number) == Type::Number);
    let b = Type::Variable(next);
    assert(unified(Type::Number, Type::Function(Box::new(Type::Number), Box::new(b)), UNIFY_DEPTH as nat)
        == Err::<Seq<(usize, Type)>, InferenceError>(InferenceError::Mismatch));
}

} // verus!
