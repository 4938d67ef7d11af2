use crate::ast::Expression;
use crate::scheme::{fresh_map, generalizable, generalize, scheme_free, TypeScheme};
use crate::types::{occurrences, substituted, Type};
use crate::unify::{
    apply_all, apply_bindings, apply_bindings_except, apply_except,
    merge_substitutions, unified, unify, UNIFY_DEPTH,
};
use vstd::prelude::*;

verus! {

/// Why inference failed.
#[derive(Clone, Copy, Debug, PartialEq, Eq)]
pub enum InferenceError {
    /// A variable is used where no binding of its name is in scope.
    UnboundVariable,
    /// Two types of incompatible shapes had to be unified.
    Mismatch,
    /// Fresh variable ids or unification depth ran out.
    Exhausted,
}

/// An environment entry as the contracts see it: a name, the quantified
/// variables of its scheme, and the scheme's body.
pub type Entry = (Seq<char>, Seq<usize>, Type);

/// What an environment entry stands for.
pub open spec fn entry_view(p: (String, TypeScheme)) -> Entry {
    (p.0@, p.1.variables@, p.1.body)
}

/// What an environment stands for; later entries shadow earlier ones.
pub open spec fn env_view(env: Seq<(String, TypeScheme)>) -> Seq<Entry> {
    env.map_values(|p: (String, TypeScheme)| entry_view(p))
}

/// The innermost entry for `name`.
pub open spec fn lookup(env: Seq<Entry>, name: Seq<char>) -> Option<Entry>
    decreases env.len(),
{
    if env.len() == 0 {
        None
    } else if env.last().0 == name {
        Some(env.last())
    } else {
        lookup(env.drop_last(), name)
    }
}

/// The substitution `s` applied to every scheme of `env`, sparing the
/// variables that each scheme quantifies.
pub open spec fn env_apply(env: Seq<Entry>, s: Seq<(usize, Type)>) -> Seq<Entry> {
    env.map_values(|en: Entry| (en.0, en.1, apply_except(s, en.1, en.2)))
}

/// The occurrences of the variables that are free in the schemes of `env`.
pub open spec fn env_free(env: Seq<Entry>) -> Seq<usize>
    decreases env.len(),
{
    if env.len() == 0 {
        Seq::empty()
    } else {
        env_free(env.drop_last()) + scheme_free(env.last().1, env.last().2)
    }
}

/// Algorithm W: the substitution and type inferred for `e` under `env`, and
/// the next unused variable id, when fresh ids are drawn from `next` on.
pub open spec fn inferred(env: Seq<Entry>, e: Expression, next: usize) -> Result<
    (Seq<(usize, Type)>, Type, usize),
    InferenceError,
>
    decreases e,
{
    match e {
        Expression::Number(_) => Ok((Seq::empty(), Type::Number, next)),
        Expression::Variable(name) => match lookup(env, name@) {
            None => Err(InferenceError::UnboundVariable),
            Some(en) => if en.1.len() > usize::MAX - next {
                Err(InferenceError::Exhausted)
            } else {
                Ok(
                    (
                        Seq::empty(),
                        substituted(en.2, fresh_map(en.1, next as nat)),
                        (next + en.1.len()) as usize,
                    ),
                )
            },
        },
        Expression::Lambda(x, body) => if next == usize::MAX {
            Err(InferenceError::Exhausted)
        } else {
            let a = Type::Variable(next);
            match inferred(env.push((x@, Seq::empty(), a)), *body, (next + 1) as usize) {
                Err(err) => Err(err),
                Ok((s, tb, n)) => Ok((s, Type::Function(Box::new(apply_all(s, a)), Box::new(tb)), n)),
            }
        },
        Expression::Application(f, x) => match inferred(env, *f, next) {
            Err(err) => Err(err),
            Ok((s1, tf, n1)) => match inferred(env_apply(env, s1), *x, n1) {
                Err(err) => Err(err),
                Ok((s2, tx, n2)) => if n2 == usize::MAX {
                    Err(InferenceError::Exhausted)
                } else {
                    let b = Type::Variable(n2);
                    match unified(
                        apply_all(s2, tf),
                        Type::Function(Box::new(tx), Box::new(b)),
                        UNIFY_DEPTH as nat,
                    ) {
                        Err(err) => Err(err),
                        Ok(s3) => Ok((s1 + s2 + s3, apply_all(s3, b), (n2 + 1) as usize)),
                    }
                },
            },
        },
        Expression::Let(x, e1, e2) => match inferred(env, *e1, next) {
            Err(err) => Err(err),
            Ok((s1, t1, n1)) => {
                let env1 = env_apply(env, s1);
                let vars = generalizable(occurrences(t1), env_free(env1));
                match inferred(env1.push((x@, vars, t1)), *e2, n1) {
                    Err(err) => Err(err),
                    Ok((s2, t2, n2)) => Ok((s1 + s2, t2, n2)),
                }
            },
        },
    }
}

/// The type scheme of a whole program: its inferred type under the empty
/// environment, with every variable in it quantified.
pub open spec fn inferred_scheme(e: Expression) -> Result<(Seq<usize>, Type), InferenceError> {
    match inferred(Seq::empty(), e, 0) {
        Err(err) => Err(err),
        Ok((_, t, _)) => Ok((generalizable(occurrences(t), Seq::empty()), t)),
    }
}

/// The position of the innermost entry for `name`, if any.
fn find(env: &Vec<(String, TypeScheme)>, name: &String) -> (r: Option<usize>)
    ensures
        match lookup(env_view(env@), name@) {
            None => r is None,
            Some(en) => r matches Some(i) && i < env@.len() && entry_view(env@[i as int]) == en,
        },
{
    let ghost full = env_view(env@);
    let mut i: usize = env.len();
    assert(full.take(i as int) =~= full);
    while i > 0
        invariant
            i <= env.len(),
            full == env_view(env@),
            lookup(full, name@) == lookup(full.take(i as int), name@),
        decreases i,
    {
        proof {
            assert(full.take(i as int).drop_last() =~= full.take(i - 1));
        }
        if env[i - 1].0 == *name {
            return Some(i - 1);
        }
        i = i - 1;
    }
    None
}

/// A copy of `env`.
fn copy_env(env: &Vec<(String, TypeScheme)>) -> (r: Vec<(String, TypeScheme)>)
    ensures
        env_view(r@) == env_view(env@),
{
    let mut r: Vec<(String, TypeScheme)> = Vec::new();
    let mut i: usize = 0;
    while i < env.len()
        invariant
            0 <= i <= env.len(),
            r@.len() == i,
            forall|j: int| 0 <= j < i ==> entry_view(#[trigger] r@[j]) == entry_view(env@[j]),
        decreases env.len() - i,
    {
        r.push((env[i].0.clone(), env[i].1.duplicate()));
        i = i + 1;
    }
    assert(env_view(r@) =~= env_view(env@));
    r
}

/// `env` with `name` bound to `scheme` innermost.
fn extend(env: &Vec<(String, TypeScheme)>, name: &String, scheme: TypeScheme) -> (r: Vec<
    (String, TypeScheme),
>)
    ensures
        env_view(r@) == env_view(env@).push((name@, scheme.variables@, scheme.body)),
{
    let mut r = copy_env(env);
    let ghost before = r@;
    r.push((name.clone(), scheme));
    assert(env_view(r@) =~= env_view(before).push((name@, scheme.variables@, scheme.body)));
    r
}

/// `env` with the substitution `s` applied to every scheme.
fn substitute_env(env: &Vec<(String, TypeScheme)>, s: &Vec<(usize, Type)>) -> (r: Vec<
    (String, TypeScheme),
>)
    ensures
        env_view(r@) == env_apply(env_view(env@), s@),
{
    let mut r: Vec<(String, TypeScheme)> = Vec::new();
    let mut i: usize = 0;
    while i < env.len()
        invariant
            0 <= i <= env.len(),
            r@.len() == i,
            forall|j: int|
                0 <= j < i ==> entry_view(#[trigger] r@[j]) == (
                    env@[j].0@,
                    env@[j].1.variables@,
                    apply_except(s@, env@[j].1.variables@, env@[j].1.body),
                ),
        decreases env.len() - i,
    {
        let body = apply_bindings_except(s, &env[i].1.variables, &env[i].1.body);
        r.push((env[i].0.clone(), TypeScheme { variables: env[i].1.variables.clone(), body }));
        i = i + 1;
    }
    assert(env_view(r@) =~= env_apply(env_view(env@), s@));
    r
}

/// The occurrences of the variables free in the schemes of `env`.
fn env_free_variables(env: &Vec<(String, TypeScheme)>) -> (r: Vec<usize>)
    ensures
        r@ == env_free(env_view(env@)),
{
    let ghost full = env_view(env@);
    let mut r: Vec<usize> = Vec::new();
    let mut i: usize = 0;
    while i < env.len()
        invariant
            0 <= i <= env.len(),
            full == env_view(env@),
            r@ == env_free(full.take(i as int)),
        decreases env.len() - i,
    {
        proof {
            assert(full.take(i + 1).drop_last() =~= full.take(i as int));
        }
        let mut f = env[i].1.free_occurrences();
        r.append(&mut f);
        i = i + 1;
    }
    assert(full.take(env.len() as int) =~= full);
    r
}

/// Algorithm W with let-polymorphism: the substitution and the type inferred
/// for `expression` under `env`. Fresh variables are drawn from `next`, which
/// ends past every id handed out.
pub fn infer(
    env: &Vec<(String, TypeScheme)>,
    expression: &Expression,
    next: &mut usize,
) -> (r: Result<(Vec<(usize, Type)>, Type), InferenceError>)
    ensures
        match inferred(env_view(env@), *expression, *old(next)) {
            Ok((s, t, n)) => r matches Ok((rs, rt)) && rs@ == s && rt == t && *final(next) == n,
            Err(err) => r == Err::<(Vec<(usize, Type)>, Type), InferenceError>(err),
        },
    decreases expression,
{
    match expression {
        Expression::Number(_) => Ok((Vec::new(), Type::Number)),
        Expression::Variable(name) => match find(env, name) {
            None => Err(InferenceError::UnboundVariable),
            Some(i) => {
                let scheme = &env[i].1;
                if scheme.variables.len() > usize::MAX - *next {
                    return Err(InferenceError::Exhausted);
                }
                let t = scheme.instantiate(next);
                Ok((Vec::new(), t))
            },
        },
        Expression::Lambda(x, body) => {
            if *next == usize::MAX {
                return Err(InferenceError::Exhausted);
            }
            let a = Type::variable(next);
            let inner = extend(env, x, TypeScheme::monomorphic(a.duplicate()));
            let (s, tb) = infer(&inner, &**body, next)?;
            let ta = apply_bindings(&s, &a);
            Ok((s, Type::Function(Box::new(ta), Box::new(tb))))
        },
        Expression::Application(f, x) => {
            let (s1, tf) = infer(env, &**f, next)?;
            let env1 = substitute_env(env, &s1);
            let (s2, tx) = infer(&env1, &**x, next)?;
            if *next == usize::MAX {
                return Err(InferenceError::Exhausted);
            }
            let b = Type::variable(next);
            let lhs = apply_bindings(&s2, &tf);
            let rhs = Type::Function(Box::new(tx), Box::new(b.duplicate()));
            let s3 = unify(&lhs, &rhs, UNIFY_DEPTH)?;
            let t = apply_bindings(&s3, &b);
            Ok((merge_substitutions(merge_substitutions(s1, s2), s3), t))
        },
        Expression::Let(x, e1, e2) => {
            let (s1, t1) = infer(env, &**e1, next)?;
            let env1 = substitute_env(env, &s1);
            let avoid = env_free_variables(&env1);
            let vars = generalize(&t1, &avoid);
            let inner = extend(&env1, x, TypeScheme { variables: vars, body: t1 });
            let (s2, t2) = infer(&inner, &**e2, next)?;
            Ok((merge_substitutions(s1, s2), t2))
        },
    }
}

/// The type inferred for a whole program, under the empty environment.
pub fn infer_type(expression: &Expression) -> (r: Result<Type, InferenceError>)
    ensures
        match inferred(Seq::empty(), *expression, 0) {
            Ok((_, t, _)) => r == Ok::<Type, InferenceError>(t),
            Err(err) => r == Err::<Type, InferenceError>(err),
        },
{
    let env: Vec<(String, TypeScheme)> = Vec::new();
    assert(env_view(env@) =~= Seq::empty());
    let mut next: usize = 0;
    let (_, t) = infer(&env, expression, &mut next)?;
    Ok(t)
}

/// The type scheme of a whole program: its type under the empty environment
/// with every variable in it quantified, in the order of first occurrence.
pub fn infer_type_scheme(expression: &Expression) -> (r: Result<TypeScheme, InferenceError>)
    ensures
        match inferred_scheme(*expression) {
            Ok((vars, t)) => r matches Ok(sc) && sc.variables@ == vars && sc.body == t,
            Err(err) => r matches Err(e) && e == err,
        },
{
    let t = infer_type(expression)?;
    let none: Vec<usize> = Vec::new();
    assert(none@ =~= Seq::<usize>::empty());
    let vars = generalize(&t, &none);
    Ok(TypeScheme { variables: vars, body: t })
}

} // verus!
