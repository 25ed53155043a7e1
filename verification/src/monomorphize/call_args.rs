use vstd::prelude::*;
use crate::assoc::{assoc_keys_unique, assoc_map, lemma_assoc_map};
use crate::types::{ExprId, HirType};

verus! {

/// The first entry for `id`, if any.
fn find_id(entries: &Vec<(ExprId, Vec<HirType>)>, id: ExprId) -> (r: Option<usize>)
    ensures
        r matches Some(i) ==> i < entries@.len() && entries@[i as int].0 == id,
        r is None ==> forall|j: int| 0 <= j < entries@.len() ==> entries@[j].0 != id,
{
    let mut i: usize = 0;
    while i < entries.len()
        invariant
            0 <= i <= entries@.len(),
            forall|j: int| 0 <= j < i ==> entries@[j].0 != id,
        decreases entries@.len() - i,
    {
        if entries[i].0 == id {
            return Some(i);
        }
        i = i + 1;
    }
    None
}

/// The type arguments that type checking inferred for generic calls, by the id of
/// the call expression.
pub struct CallTypeArgs {
    entries: Vec<(ExprId, Vec<HirType>)>,
}

impl View for CallTypeArgs {
    type V = Map<ExprId, Vec<HirType>>;

    closed spec fn view(&self) -> Map<ExprId, Vec<HirType>> {
        assoc_map(self.entries@)
    }
}

impl CallTypeArgs {
    #[verifier::type_invariant]
    spec fn inv(&self) -> bool {
        assoc_keys_unique(self.entries@)
    }

    /// No call has recorded type arguments.
    pub fn new() -> (r: CallTypeArgs)
        ensures
            r@ == Map::<ExprId, Vec<HirType>>::empty(),
    {
        CallTypeArgs { entries: Vec::new() }
    }

    /// The type arguments recorded for the call `id`, if any.
    pub fn get(&self, id: &ExprId) -> (r: Option<&Vec<HirType>>)
        ensures
            match r {
                Some(v) => self@.contains_key(*id) && self@[*id] == *v,
                None => !self@.contains_key(*id),
            },
    {
        proof {
            use_type_invariant(self);
            lemma_assoc_map(self.entries@);
        }
        match find_id(&self.entries, *id) {
            Some(i) => {
                assert(assoc_map(self.entries@).contains_key(self.entries@[i as int].0));
                Some(&self.entries[i].1)
            },
            None => None,
        }
    }

    /// Records `args` for the call `id`, replacing what was recorded for it before.
    pub fn insert(&mut self, id: ExprId, args: Vec<HirType>)
        ensures
            final(self)@ == old(self)@.insert(id, args),
    {
        proof {
            use_type_invariant(&*self);
            lemma_assoc_map(self.entries@);
        }
        let mut entries: Vec<(ExprId, Vec<HirType>)> = Vec::new();
        std::mem::swap(&mut entries, &mut self.entries);
        let ghost old_entries = entries@;
        match find_id(&entries, id) {
            Some(i) => {
                entries.set(i, (id, args));
                proof {
                    assert(assoc_keys_unique(entries@));
                    lemma_assoc_map(entries@);
                    assert(assoc_map(entries@) =~= assoc_map(old_entries).insert(id, args)) by {
                        assert forall|q: ExprId| assoc_map(entries@).contains_key(q) <==> assoc_map(old_entries).insert(id, args).contains_key(q) by {
                            if assoc_map(old_entries).contains_key(q) {
                                let j = choose|j: int| 0 <= j < old_entries.len() && old_entries[j].0 == q;
                                assert(entries@[j].0 == q);
                            }
                            if assoc_map(entries@).contains_key(q) {
                                let j = choose|j: int| 0 <= j < entries@.len() && entries@[j].0 == q;
                                if j != i {
                                    assert(old_entries[j].0 == q);
                                }
                            }
                        }
                        assert forall|q: ExprId| #[trigger] assoc_map(entries@).contains_key(q) implies assoc_map(entries@)[q] == assoc_map(old_entries).insert(id, args)[q] by {
                            let j = choose|j: int| 0 <= j < entries@.len() && entries@[j].0 == q;
                            if j != i {
                                assert(old_entries[j] == entries@[j]);
                            }
                        }
                    }
                }
            },
            None => {
                entries.push((id, args));
                proof {
                    assert(entries@.drop_last() == old_entries);
                    assert(assoc_keys_unique(entries@));
                }
            },
        }
        self.entries = entries;
    }

    /// Number of calls with recorded type arguments.
    pub fn len(&self) -> (r: usize)
        ensures
            r == self@.dom().len(),
    {
        proof {
            use_type_invariant(self);
            lemma_assoc_map(self.entries@);
        }
        self.entries.len()
    }
}

} // verus!
