//! The planner's remediation memory: the last action taken for each problem.

use vstd::prelude::*;
use crate::keyed::{
    distinct, first_index, lemma_distinct_position, lemma_first_index_exists, lemma_push_fresh,
};
use crate::planner::problem::{Action, ProblemInfo, ProblemInfoView};

verus! {

#[derive(Debug)]
struct MemoryEntry {
    problem: ProblemInfo,
    action: Action,
}

/// A map from problems to the last action that was taken for each. It lives
/// as long as the planner and only grows.
#[derive(Debug)]
pub struct RemediationMemory {
    entries: Vec<MemoryEntry>,
}

impl View for RemediationMemory {
    type V = Map<ProblemInfoView, Action>;

    closed spec fn view(&self) -> Map<ProblemInfoView, Action> {
        Map::new(
            |k: ProblemInfoView| self.keys().contains(k),
            |k: ProblemInfoView| self.entries@[first_index(self.keys(), k)].action,
        )
    }
}

impl RemediationMemory {
    spec fn keys(self) -> Seq<ProblemInfoView> {
        Seq::new(self.entries@.len(), |i: int| self.entries@[i].problem@)
    }

    #[verifier::type_invariant]
    spec fn no_problem_twice(self) -> bool {
        distinct(self.keys())
    }

    /// The memory with nothing in it.
    pub fn new() -> (r: Self)
        ensures
            r@ == Map::<ProblemInfoView, Action>::empty(),
    {
        let r = RemediationMemory { entries: Vec::new() };
        assert(r@ =~= Map::<ProblemInfoView, Action>::empty());
        r
    }

    fn position(&self, problem: &ProblemInfo) -> (r: Option<usize>)
        ensures
            match r {
                Some(i) => i < self.entries@.len() && self.keys()[i as int] == problem@,
                None => !self.keys().contains(problem@),
            },
    {
        let mut i: usize = 0;
        while i < self.entries.len()
            invariant
                i <= self.entries@.len(),
                forall|j: int| 0 <= j < i ==> self.keys()[j] != problem@,
            decreases self.entries@.len() - i,
        {
            if self.entries[i].problem.same_as(problem) {
                return Some(i);
            }
            i += 1;
        }
        None
    }

    /// The last action taken for `problem`, if any was.
    pub fn get(&self, problem: &ProblemInfo) -> (r: Option<Action>)
        ensures
            r == (if self@.contains_key(problem@) {
                Some(self@[problem@])
            } else {
                None
            }),
    {
        proof {
            use_type_invariant(self);
        }
        match self.position(problem) {
            Some(i) => {
                proof {
                    lemma_distinct_position(self.keys(), i as int);
                }
                Some(self.entries[i].action)
            },
            None => None,
        }
    }

    /// Remembers `action` as the last one taken for `problem`.
    pub fn insert(&mut self, problem: ProblemInfo, action: Action)
        ensures
            final(self)@ == old(self)@.insert(problem@, action),
    {
        proof {
            use_type_invariant(&*self);
        }
        let ghost before = *self;
        let found = self.position(&problem);
        let mut entries: Vec<MemoryEntry> = Vec::new();
        core::mem::swap(&mut self.entries, &mut entries);
        match found {
            Some(i) => {
                entries.set(i, MemoryEntry { problem, action });
            },
            None => {
                entries.push(MemoryEntry { problem, action });
            },
        }
        proof {
            let after = RemediationMemory { entries };
            match found {
                Some(i) => {
                    lemma_distinct_position(before.keys(), i as int);
                    assert(after.keys() =~= before.keys());
                    assert forall|k: ProblemInfoView| before.keys().contains(k) implies (
                    #[trigger] after@[k]) == before@.insert(problem@, action)[k] by {
                        lemma_first_index_exists(before.keys(), k);
                    }
                },
                None => {
                    assert(after.keys() =~= before.keys().push(problem@));
                    lemma_push_fresh(before.keys(), problem@);
                    assert forall|k: ProblemInfoView| after.keys().contains(k) implies (
                    #[trigger] after@[k]) == before@.insert(problem@, action)[k] by {
                        if k != problem@ {
                            lemma_first_index_exists(before.keys(), k);
                        }
                    }
                },
            }
            assert(after@ =~= before@.insert(problem@, action));
        }
        core::mem::swap(&mut self.entries, &mut entries);
    }
}

} // verus!
