use crate::types::{free_vars, occurrences, substituted, Type};
use crate::unify::contains_id;
use std::collections::HashMap;
use std::collections::HashSet;
use vstd::prelude::*;

verus! {

/// A type scheme: `body` with the ids in `variables` quantified.
#[derive(Debug, PartialEq, Eq)]
pub struct TypeScheme {
    pub variables: Vec<usize>,
    pub body: Type,
}

/// The elements of `s`, in order, that are not in `bound`.
pub open spec fn without(s: Seq<usize>, bound: Seq<usize>) -> Seq<usize>
    decreases s.len(),
{
    if s.len() == 0 {
        s
    } else if bound.contains(s.last()) {
        without(s.drop_last(), bound)
    } else {
        without(s.drop_last(), bound).push(s.last())
    }
}

/// The variables to quantify in a type with occurrences `occ`: each id that
/// is not in `avoid`, once, in the order of its first occurrence.
pub open spec fn generalizable(occ: Seq<usize>, avoid: Seq<usize>) -> Seq<usize>
    decreases occ.len(),
{
    if occ.len() == 0 {
        occ
    } else {
        let p = generalizable(occ.drop_last(), avoid);
        if avoid.contains(occ.last()) || p.contains(occ.last()) {
            p
        } else {
            p.push(occ.last())
        }
    }
}

/// Maps the `i`-th of `vars` to the variable `next + i`.
pub open spec fn fresh_map(vars: Seq<usize>, next: nat) -> Map<usize, Type>
    decreases vars.len(),
{
    if vars.len() == 0 {
        Map::empty()
    } else {
        fresh_map(vars.drop_last(), next).insert(
            vars.last(),
            Type::Variable((next + vars.len() - 1) as usize),
        )
    }
}

/// The occurrences, in order, of the variables that `vars` does not quantify.
pub open spec fn scheme_free(vars: Seq<usize>, body: Type) -> Seq<usize> {
    without(occurrences(body), vars)
}

/// The elements of `s` that are not in `bound`, in order.
pub fn filter_out(s: &Vec<usize>, bound: &Vec<usize>) -> (r: Vec<usize>)
    ensures
        r@ == without(s@, bound@),
{
    let mut r: Vec<usize> = Vec::new();
    let mut i: usize = 0;
    while i < s.len()
        invariant
            0 <= i <= s.len(),
            r@ == without(s@.take(i as int), bound@),
        decreases s.len() - i,
    {
        proof {
            assert(s@.take(i + 1).drop_last() =~= s@.take(i as int));
            assert(s@.take(i + 1).last() == s@[i as int]);
        }
        if !contains_id(bound, s[i]) {
            r.push(s[i]);
        }
        i = i + 1;
    }
    proof {
        assert(s@.take(s.len() as int) =~= s@);
    }
    r
}

/// The variables of `t` that are not in `avoid`, each once, in the order of
/// their first occurrence.
pub fn generalize(t: &Type, avoid: &Vec<usize>) -> (r: Vec<usize>)
    ensures
        r@ == generalizable(occurrences(*t), avoid@),
{
    let mut occ: Vec<usize> = Vec::new();
    t.collect_occurrences(&mut occ);
    assert(occ@ =~= occurrences(*t));
    let mut r: Vec<usize> = Vec::new();
    let mut i: usize = 0;
    while i < occ.len()
        invariant
            0 <= i <= occ.len(),
            r@ == generalizable(occ@.take(i as int), avoid@),
        decreases occ.len() - i,
    {
        proof {
            assert(occ@.take(i + 1).drop_last() =~= occ@.take(i as int));
            assert(occ@.take(i + 1).last() == occ@[i as int]);
        }
        let v = occ[i];
        if !contains_id(avoid, v) && !contains_id(&r, v) {
            r.push(v);
        }
        i = i + 1;
    }
    proof {
        assert(occ@.take(occ.len() as int) =~= occ@);
    }
    r
}

impl TypeScheme {
    /// A scheme that quantifies nothing.
    pub fn monomorphic(body: Type) -> (r: TypeScheme)
        ensures
            r.variables@ == Seq::<usize>::empty(),
            r.body == body,
    {
        TypeScheme { variables: Vec::new(), body }
    }

    /// A copy of this scheme.
    pub fn duplicate(&self) -> (r: TypeScheme)
        ensures
            r.variables@ == self.variables@,
            r.body == self.body,
    {
        TypeScheme { variables: self.variables.clone(), body: self.body.duplicate() }
    }

    /// The variables of the body that the scheme does not quantify.
    pub fn free_variables(&self) -> (r: HashSet<usize>)
        ensures
            r@ == free_vars(self.body) - self.variables@.to_set(),
    {
        let mut r = self.body.variables();
        let mut i: usize = 0;
        while i < self.variables.len()
            invariant
                0 <= i <= self.variables.len(),
                r@ == free_vars(self.body) - self.variables@.take(i as int).to_set(),
            decreases self.variables.len() - i,
        {
            let ghost before = r@;
            r.remove(&self.variables[i]);
            proof {
                let p = self.variables@.take(i as int);
                assert(self.variables@.take(i + 1) =~= p.push(self.variables@[i as int]));
                assert(p.push(self.variables@[i as int]).to_set() =~= p.to_set().insert(
                    self.variables@[i as int],
                )) by {
                    assert forall|x: usize| #[trigger]
                        p.push(self.variables@[i as int]).contains(x) == p.to_set().insert(
                            self.variables@[i as int],
                        ).contains(x) by {
                        if p.contains(x) {
                            let k = choose|k: int| 0 <= k < p.len() && p[k] == x;
                            assert(p.push(self.variables@[i as int])[k] == x);
                        }
                        if x == self.variables@[i as int] {
                            assert(p.push(self.variables@[i as int])[p.len() as int] == x);
                        }
                    }
                }
                assert(r@ =~= free_vars(self.body) - self.variables@.take(i + 1).to_set());
            }
            i = i + 1;
        }
        proof {
            assert(self.variables@.take(self.variables.len() as int) =~= self.variables@);
        }
        r
    }

    /// The occurrences, in order, of the variables of the body that the
    /// scheme does not quantify.
    pub fn free_occurrences(&self) -> (r: Vec<usize>)
        ensures
            r@ == scheme_free(self.variables@, self.body),
    {
        let mut occ: Vec<usize> = Vec::new();
        self.body.collect_occurrences(&mut occ);
        assert(occ@ =~= occurrences(self.body));
        filter_out(&occ, &self.variables)
    }

    /// The body with each quantified variable replaced by a fresh one: the
    /// `i`-th by the variable `*next + i`. The counter moves past them.
    pub fn instantiate(&self, next: &mut usize) -> (r: Type)
        requires
            *old(next) + self.variables@.len() <= usize::MAX,
        ensures
            r == substituted(self.body, fresh_map(self.variables@, *old(next) as nat)),
            *final(next) == *old(next) + self.variables@.len(),
    {
        let mut m: HashMap<usize, Type> = HashMap::new();
        let mut i: usize = 0;
        while i < self.variables.len()
            invariant
                0 <= i <= self.variables.len(),
                *next + self.variables@.len() <= usize::MAX,
                m@ == fresh_map(self.variables@.take(i as int), *next as nat),
            decreases self.variables.len() - i,
        {
            proof {
                assert(self.variables@.take(i + 1).drop_last() =~= self.variables@.take(i as int));
            }
            m.insert(self.variables[i], Type::Variable(*next + i));
            i = i + 1;
        }
        proof {
            assert(self.variables@.take(self.variables.len() as int) =~= self.variables@);
        }
        let r = self.body.substitute(&m);
        *next = *next + self.variables.len();
        r
    }
}

} // verus!
