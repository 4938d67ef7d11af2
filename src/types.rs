use std::collections::HashMap;
use std::collections::HashSet;
use vstd::prelude::*;

verus! {

/// A type: functions, the base type of numbers, and type variables
/// identified by an integer id.
#[derive(Debug, PartialEq, Eq)]
pub enum Type {
    Function(Box<Type>, Box<Type>),
    Number,
    Variable(usize),
}

/// The type obtained by replacing, all at once, every variable of `t` that
/// is a key of `m` with the type that `m` maps it to.
pub open spec fn substituted(t: Type, m: Map<usize, Type>) -> Type
    decreases t,
{
    match t {
        Type::Function(a, r) => Type::Function(
            Box::new(substituted(*a, m)),
            Box::new(substituted(*r, m)),
        ),
        Type::Number => Type::Number,
        Type::Variable(id) => if m.contains_key(id) {
            m[id]
        } else {
            t
        },
    }
}

/// The ids of the variables that occur in `t`.
pub open spec fn free_vars(t: Type) -> Set<usize>
    decreases t,
{
    match t {
        Type::Function(a, r) => free_vars(*a) + free_vars(*r),
        Type::Number => Set::empty(),
        Type::Variable(id) => set![id],
    }
}

/// The variable ids of `t` in the order in which they occur, left to right,
/// with repetitions.
pub open spec fn occurrences(t: Type) -> Seq<usize>
    decreases t,
{
    match t {
        Type::Function(a, r) => occurrences(*a) + occurrences(*r),
        Type::Number => Seq::empty(),
        Type::Variable(id) => seq![id],
    }
}

/// No type in the range of `m` mentions a key of `m`.
pub open spec fn range_avoids_keys(m: Map<usize, Type>) -> bool {
    forall|k: usize, j: usize|
        #![trigger m[k], m.contains_key(j)]
        m.contains_key(k) && m.contains_key(j) ==> !free_vars(m[k]).contains(j)
}

impl Type {
    /// A fresh type variable: its id is the counter's value, and the counter
    /// moves on, so that ids handed out from one counter never repeat.
    pub fn variable(next: &mut usize) -> (r: Type)
        requires
            *old(next) < usize::MAX,
        ensures
            r == Type::Variable(*old(next)),
            *final(next) == *old(next) + 1,
    {
        let id = *next;
        *next = id + 1;
        Type::Variable(id)
    }

    /// A structural copy of this type.
    pub fn duplicate(&self) -> (r: Type)
        ensures
            r == *self,
        decreases self,
    {
        match self {
            Type::Function(a, r) => Type::Function(Box::new(a.duplicate()), Box::new(r.duplicate())),
            Type::Number => Type::Number,
            Type::Variable(id) => Type::Variable(*id),
        }
    }

    /// Replaces every variable that is a key of `substitutions` with the type
    /// it maps to; other variables stay as they are.
    pub fn substitute(&self, substitutions: &HashMap<usize, Type>) -> (r: Type)
        ensures
            r == substituted(*self, substitutions@),
        decreases self,
    {
        match self {
            Type::Function(a, r) => Type::Function(
                Box::new(a.substitute(substitutions)),
                Box::new(r.substitute(substitutions)),
            ),
            Type::Number => Type::Number,
            Type::Variable(id) => match substitutions.get(id) {
                Some(t) => t.duplicate(),
                None => Type::Variable(*id),
            },
        }
    }

    /// The set of variable ids that occur in this type.
    pub fn variables(&self) -> (r: HashSet<usize>)
        ensures
            r@ == free_vars(*self),
    {
        let mut acc: HashSet<usize> = HashSet::new();
        self.collect_variables(&mut acc);
        proof {
            assert(acc@ =~= free_vars(*self));
        }
        acc
    }

    fn collect_variables(&self, acc: &mut HashSet<usize>)
        ensures
            final(acc)@ == old(acc)@ + free_vars(*self),
        decreases self,
    {
        match self {
            Type::Function(a, r) => {
                a.collect_variables(acc);
                r.collect_variables(acc);
                proof {
                    assert(final(acc)@ =~= old(acc)@ + free_vars(*self));
                }
            },
            Type::Number => {
                proof {
                    assert(acc@ =~= old(acc)@ + free_vars(*self));
                }
            },
            Type::Variable(id) => {
                acc.insert(*id);
                proof {
                    assert(acc@ =~= old(acc)@ + free_vars(*self));
                }
            },
        }
    }

    /// Appends the variable ids of this type to `acc`, left to right.
    pub fn collect_occurrences(&self, acc: &mut Vec<usize>)
        ensures
            final(acc)@ == old(acc)@ + occurrences(*self),
        decreases self,
    {
        match self {
            Type::Function(a, r) => {
                a.collect_occurrences(acc);
                r.collect_occurrences(acc);
                proof {
                    assert(acc@ =~= old(acc)@ + occurrences(*self));
                }
            },
            Type::Number => {
                proof {
                    assert(acc@ =~= old(acc)@ + occurrences(*self));
                }
            },
            Type::Variable(id) => {
                acc.push(*id);
                proof {
                    assert(acc@ =~= old(acc)@ + occurrences(*self));
                }
            },
        }
    }
}

/// A substitution leaves alone a type that mentions none of its keys.
pub proof fn lemma_substitute_untouched(t: Type, m: Map<usize, Type>)
    requires
        forall|j: usize| m.contains_key(j) ==> !free_vars(t).contains(j),
    ensures
        substituted(t, m) == t,
    decreases t,
{
    match t {
        Type::Function(a, r) => {
            lemma_substitute_untouched(*a, m);
            lemma_substitute_untouched(*r, m);
        },
        Type::Number => {},
        Type::Variable(id) => {
            assert(free_vars(t).contains(id));
        },
    }
}

/// Substituting twice with a mapping whose range mentions none of its keys
/// gives what substituting once gives.
pub proof fn lemma_substitute_idempotent(t: Type, m: Map<usize, Type>)
    requires
        range_avoids_keys(m),
    ensures
        substituted(substituted(t, m), m) == substituted(t, m),
    decreases t,
{
    match t {
        Type::Function(a, r) => {
            lemma_substitute_idempotent(*a, m);
            lemma_substitute_idempotent(*r, m);
        },
        Type::Number => {},
        Type::Variable(id) => {
            if m.contains_key(id) {
                assert forall|j: usize| m.contains_key(j) implies !free_vars(m[id]).contains(j) by {}
                lemma_substitute_untouched(m[id], m);
            }
        },
    }
}

} // verus!
