use crate::infer::InferenceError;
use crate::types::{substituted, Type};
use std::collections::HashMap;
use vstd::prelude::*;

verus! {

/// The nesting depth that unification may reach before it gives up.
pub const UNIFY_DEPTH: u64 = 0xffff_ffff_ffff_ffff;

/// A substitution of one variable.
pub open spec fn single(b: (usize, Type)) -> Map<usize, Type> {
    Map::empty().insert(b.0, b.1)
}

/// Applies the bindings of `s` one after the other, first to last, to `t`,
/// skipping those whose variable is in `bound`.
pub open spec fn apply_except(s: Seq<(usize, Type)>, bound: Seq<usize>, t: Type) -> Type
    decreases s.len(),
{
    if s.len() == 0 {
        t
    } else {
        let u = apply_except(s.drop_last(), bound, t);
        if bound.contains(s.last().0) {
            u
        } else {
            substituted(u, single(s.last()))
        }
    }
}

/// Applies the bindings of `s` one after the other, first to last, to `t`.
/// A sequence of bindings is a substitution; the concatenation of two of them
/// is their composition.
pub open spec fn apply_all(s: Seq<(usize, Type)>, t: Type) -> Type {
    apply_except(s, Seq::empty(), t)
}

/// The bindings that unify `a` with `b`, searching no deeper than `depth`.
pub open spec fn unified(a: Type, b: Type, depth: nat) -> Result<Seq<(usize, Type)>, InferenceError>
    decreases depth,
{
    match (a, b) {
        (Type::Variable(id), _) => Ok(seq![(id, b)]),
        (_, Type::Variable(id)) => Ok(seq![(id, a)]),
        (Type::Function(a1, r1), Type::Function(a2, r2)) => if depth == 0 {
            Err(InferenceError::Exhausted)
        } else {
            match unified(*a1, *a2, (depth - 1) as nat) {
                Err(e) => Err(e),
                Ok(s1) => match unified(apply_all(s1, *r1), apply_all(s1, *r2), (depth - 1) as nat) {
                    Err(e) => Err(e),
                    Ok(s2) => Ok(s1 + s2),
                },
            }
        },
        (Type::Number, Type::Number) => Ok(Seq::empty()),
        _ => Err(InferenceError::Mismatch),
    }
}

/// Applying a composition is applying its parts in turn.
pub proof fn lemma_apply_concat(s1: Seq<(usize, Type)>, s2: Seq<(usize, Type)>, bound: Seq<usize>, t: Type)
    ensures
        apply_except(s1 + s2, bound, t) == apply_except(s2, bound, apply_except(s1, bound, t)),
    decreases s2.len(),
{
    if s2.len() == 0 {
        assert(s1 + s2 =~= s1);
    } else {
        lemma_apply_concat(s1, s2.drop_last(), bound, t);
        assert((s1 + s2).drop_last() =~= s1 + s2.drop_last());
        assert((s1 + s2).last() == s2.last());
    }
}

/// Whether `x` is among the elements of `v`.
pub fn contains_id(v: &Vec<usize>, x: usize) -> (r: bool)
    ensures
        r == v@.contains(x),
{
    let mut i: usize = 0;
    while i < v.len()
        invariant
            0 <= i <= v.len(),
            forall|j: int| 0 <= j < i ==> v@[j] != x,
        decreases v.len() - i,
    {
        if v[i] == x {
            return true;
        }
        i = i + 1;
    }
    false
}

/// Applies the bindings of `bindings` in order to `t`, skipping those whose
/// variable is in `bound`.
pub fn apply_bindings_except(bindings: &Vec<(usize, Type)>, bound: &Vec<usize>, t: &Type) -> (r: Type)
    ensures
        r == apply_except(bindings@, bound@, *t),
{
    let mut cur = t.duplicate();
    let mut i: usize = 0;
    while i < bindings.len()
        invariant
            0 <= i <= bindings.len(),
            cur == apply_except(bindings@.take(i as int), bound@, *t),
        decreases bindings.len() - i,
    {
        let b = &bindings[i];
        proof {
            assert(bindings@.take(i + 1).drop_last() =~= bindings@.take(i as int));
            assert(bindings@.take(i + 1).last() == bindings@[i as int]);
        }
        if !contains_id(bound, b.0) {
            let mut m: HashMap<usize, Type> = HashMap::new();
            m.insert(b.0, b.1.duplicate());
            proof {
                assert(m@ =~= single(bindings@[i as int]));
            }
            cur = cur.substitute(&m);
        }
        i = i + 1;
    }
    proof {
        assert(bindings@.take(bindings.len() as int) =~= bindings@);
    }
    cur
}

/// Applies the bindings of `bindings` in order to `t`.
pub fn apply_bindings(bindings: &Vec<(usize, Type)>, t: &Type) -> (r: Type)
    ensures
        r == apply_all(bindings@, *t),
{
    let none: Vec<usize> = Vec::new();
    proof {
        assert(none@ =~= Seq::<usize>::empty());
    }
    apply_bindings_except(bindings, &none, t)
}

/// The composition of the given substitutions, earliest first: applying
/// the result is applying each of them in turn.
pub fn merge_substitutions(first: Vec<(usize, Type)>, second: Vec<(usize, Type)>) -> (r: Vec<(usize, Type)>)
    ensures
        r@ == first@ + second@,
{
    let mut r = first;
    let mut rest = second;
    r.append(&mut rest);
    r
}

/// Unifies `lower` with `upper`: the bindings after which both are the same
/// type, or the reason there are none.
pub fn unify(lower: &Type, upper: &Type, depth: u64) -> (r: Result<Vec<(usize, Type)>, InferenceError>)
    ensures
        match (r, unified(*lower, *upper, depth as nat)) {
            (Ok(s), Ok(t)) => s@ == t,
            (Err(e), Err(f)) => e == f,
            _ => false,
        },
    decreases depth,
{
    match (lower, upper) {
        (Type::Variable(id), _) => Ok(vec![(*id, upper.duplicate())]),
        (_, Type::Variable(id)) => Ok(vec![(*id, lower.duplicate())]),
        (Type::Function(a1, r1), Type::Function(a2, r2)) => {
            if depth == 0 {
                return Err(InferenceError::Exhausted);
            }
            let s1 = unify(a1, a2, depth - 1)?;
            let l = apply_bindings(&s1, r1);
            let u = apply_bindings(&s1, r2);
            let s2 = unify(&l, &u, depth - 1)?;
            Ok(merge_substitutions(s1, s2))
        },
        (Type::Number, Type::Number) => Ok(Vec::new()),
        _ => Err(InferenceError::Mismatch),
    }
}

} // verus!
