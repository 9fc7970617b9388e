//! The values of environment variables, as the caller hands them over.

use vstd::prelude::*;
use crate::coercer::semantics::insert_entry;
use crate::lookup::{first_from, first_index, is_under, key_index, lemma_key_index};
use crate::text::str_eq;

verus! {

/// The views of a sequence of pairs of strings.
pub open spec fn pairs_view(pairs: Seq<(String, String)>) -> Seq<(Seq<char>, Seq<char>)> {
    Seq::new(pairs.len(), |i: int| (pairs[i].0@, pairs[i].1@))
}

/// The value that `vars` holds under `name`, if it holds one.
pub open spec fn env_get(vars: Seq<(Seq<char>, Seq<char>)>, name: Seq<char>) -> Option<Seq<char>> {
    match key_index(vars, name) {
        Some(i) => Some(vars[i].1),
        None => None,
    }
}

/// Whether no two of the named values have the same name.
pub open spec fn has_distinct_names(vars: Seq<(Seq<char>, Seq<char>)>) -> bool {
    forall|i: int, j: int|
        0 <= i < vars.len() && 0 <= j < vars.len() && i != j ==> (#[trigger] vars[i]).0 != (
        #[trigger] vars[j]).0
}

/// Named values, each name at most once, in the order in which the names
/// first came.
#[derive(Debug, PartialEq, Eq)]
pub struct EnvValues {
    vars: Vec<(String, String)>,
}

impl View for EnvValues {
    type V = Seq<(Seq<char>, Seq<char>)>;

    closed spec fn view(&self) -> Seq<(Seq<char>, Seq<char>)> {
        pairs_view(self.vars@)
    }
}

impl EnvValues {
    /// What holds of every value of this type: each name is there once.
    #[verifier::type_invariant]
    closed spec fn names_are_distinct(self) -> bool {
        has_distinct_names(pairs_view(self.vars@))
    }

    /// No values.
    pub fn new() -> (r: EnvValues)
        ensures
            r@ == Seq::<(Seq<char>, Seq<char>)>::empty(),
    {
        let r = EnvValues { vars: Vec::new() };
        assert(r@ =~= Seq::<(Seq<char>, Seq<char>)>::empty());
        r
    }

    /// The position of `name`, if it is there.
    fn position(&self, name: &str) -> (r: Option<usize>)
        ensures
            match r {
                Some(i) => i < self.vars.len() && key_index(self@, name@) == Some(i as int),
                None => key_index(self@, name@) is None,
            },
    {
        let ghost wanted = is_under::<Seq<char>>(name@);
        let mut i: usize = 0;
        while i < self.vars.len()
            invariant
                i <= self.vars.len(),
                wanted == is_under::<Seq<char>>(name@),
                first_index(self@, wanted) == first_from(self@, wanted, i as int),
            decreases self.vars.len() - i,
        {
            assert(self@[i as int].0 == self.vars@[i as int].0@);
            if str_eq(self.vars[i].0.as_str(), name) {
                return Some(i);
            }
            i += 1;
        }
        None
    }

    /// Puts `value` under `name`, in the place of the value that was there,
    /// if one was.
    pub fn insert(&mut self, name: String, value: String)
        ensures
            final(self)@ == insert_entry(old(self)@, name@, value@),
            has_distinct_names(final(self)@),
    {
        proof {
            use_type_invariant(&*self);
            lemma_key_index(old(self)@, name@);
        }
        let ghost before = self@;
        let found = self.position(name.as_str());
        let mut taken = EnvValues::new();
        std::mem::swap(self, &mut taken);
        let mut vars = taken.vars;
        match found {
            Some(i) => {
                vars.set(i, (name, value));
                assert(pairs_view(vars@) =~= before.update(i as int, (name@, value@)));
            },
            None => {
                vars.push((name, value));
                assert(pairs_view(vars@) =~= before.push((name@, value@)));
            },
        }
        let ghost after = pairs_view(vars@);
        assert(has_distinct_names(after)) by {
            assert forall|a: int, b: int|
                0 <= a < after.len() && 0 <= b < after.len() && a != b implies (
            #[trigger] after[a]).0 != (#[trigger] after[b]).0 by {
                if a < before.len() {
                    assert(after[a].0 == before[a].0);
                }
                if b < before.len() {
                    assert(after[b].0 == before[b].0);
                }
            }
        }
        *self = EnvValues { vars };
    }

    /// The value under `name`, if there is one.
    pub fn get(&self, name: &str) -> (r: Option<&String>)
        ensures
            match r {
                Some(value) => env_get(self@, name@) == Some(value@),
                None => env_get(self@, name@) is None,
            },
    {
        match self.position(name) {
            Some(i) => {
                assert(self@[i as int].1 == self.vars@[i as int].1@);
                Some(&self.vars[i].1)
            },
            None => None,
        }
    }

    /// Whether there is a value under `name`.
    pub fn contains_key(&self, name: &str) -> (r: bool)
        ensures
            r == env_get(self@, name@).is_some(),
    {
        self.position(name).is_some()
    }

    /// The names and values, in order, each name once.
    pub fn pairs(&self) -> (r: &Vec<(String, String)>)
        ensures
            pairs_view(r@) == self@,
            has_distinct_names(pairs_view(r@)),
    {
        proof {
            use_type_invariant(self);
        }
        &self.vars
    }

    /// The number of names.
    pub fn len(&self) -> (r: usize)
        ensures
            r == self@.len(),
    {
        self.vars.len()
    }
}

} // verus!
