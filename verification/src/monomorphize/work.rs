use vstd::prelude::*;
use std::collections::VecDeque;
use crate::symbol::Symbol;
use crate::types::{copy_types, tys_eq, type_list_eq, HirType};

verus! {

broadcast use vstd::std_specs::vec::group_vec_axioms;

/// What a unit of monomorphization work does with its item.
#[derive(Clone, Copy, Debug, Hash, Eq, PartialEq, Structural)]
pub enum ItemKind {
    /// Specialize a generic function with the given type arguments.
    FnSpecialize,
    /// Walk a non-generic function to rewrite its call targets.
    FnPassthrough,
    /// Specialize a generic struct with the given type arguments.
    StructSpecialize,
    /// Emit a non-generic struct unchanged.
    StructPassthrough,
    /// Specialize a generic enum with the given type arguments.
    EnumSpecialize,
    /// Emit a non-generic enum unchanged.
    EnumPassthrough,
}

/// One unit of monomorphization work: a definition, what to do with it, and the
/// concrete type arguments (empty for passthrough items).
#[derive(Debug, PartialEq)]
pub struct WorkItem {
    pub def_id: Symbol,
    pub kind: ItemKind,
    pub type_args: Vec<HirType>,
}

/// Two work items are the same unit of work: all three fields agree.
pub open spec fn item_eq(a: WorkItem, b: WorkItem) -> bool {
    &&& a.def_id == b.def_id
    &&& a.kind == b.kind
    &&& tys_eq(a.type_args, b.type_args)
}

/// Decides `item_eq`.
pub fn work_item_eq(a: &WorkItem, b: &WorkItem) -> (r: bool)
    ensures
        r == item_eq(*a, *b),
{
    a.def_id == b.def_id && a.kind == b.kind && type_list_eq(&a.type_args, &b.type_args)
}

impl Clone for WorkItem {
    fn clone(&self) -> (r: Self)
        ensures
            item_eq(r, *self),
    {
        WorkItem { def_id: self.def_id, kind: self.kind, type_args: copy_types(&self.type_args) }
    }
}

impl WorkItem {
    pub fn fn_specialize(id: Symbol, args: Vec<HirType>) -> (r: Self)
        ensures
            r == (WorkItem { def_id: id, kind: ItemKind::FnSpecialize, type_args: args }),
    {
        Self { def_id: id, kind: ItemKind::FnSpecialize, type_args: args }
    }

    pub fn fn_passthrough(id: Symbol) -> (r: Self)
        ensures
            r.def_id == id,
            r.kind == ItemKind::FnPassthrough,
            r.type_args@.len() == 0,
    {
        Self { def_id: id, kind: ItemKind::FnPassthrough, type_args: Vec::new() }
    }

    pub fn struct_specialize(id: Symbol, args: Vec<HirType>) -> (r: Self)
        ensures
            r == (WorkItem { def_id: id, kind: ItemKind::StructSpecialize, type_args: args }),
    {
        Self { def_id: id, kind: ItemKind::StructSpecialize, type_args: args }
    }

    pub fn struct_passthrough(id: Symbol) -> (r: Self)
        ensures
            r.def_id == id,
            r.kind == ItemKind::StructPassthrough,
            r.type_args@.len() == 0,
    {
        Self { def_id: id, kind: ItemKind::StructPassthrough, type_args: Vec::new() }
    }

    pub fn enum_specialize(id: Symbol, args: Vec<HirType>) -> (r: Self)
        ensures
            r == (WorkItem { def_id: id, kind: ItemKind::EnumSpecialize, type_args: args }),
    {
        Self { def_id: id, kind: ItemKind::EnumSpecialize, type_args: args }
    }

    pub fn enum_passthrough(id: Symbol) -> (r: Self)
        ensures
            r.def_id == id,
            r.kind == ItemKind::EnumPassthrough,
            r.type_args@.len() == 0,
    {
        Self { def_id: id, kind: ItemKind::EnumPassthrough, type_args: Vec::new() }
    }
}

/// Some item of `s` is the same unit of work as `item`.
pub open spec fn seen_has(s: Seq<WorkItem>, item: WorkItem) -> bool {
    exists|i: int| 0 <= i < s.len() && item_eq(#[trigger] s[i], item)
}

/// A first-in first-out queue of work items that accepts each unit of work once:
/// an item equal to one pushed before is dropped.
pub struct WorkQueue {
    queue: VecDeque<WorkItem>,
    seen: Vec<WorkItem>,
}

impl WorkQueue {
    /// The items waiting, front first.
    pub closed spec fn pending(&self) -> Seq<WorkItem> {
        self.queue@
    }

    /// Every item ever accepted, in the order of acceptance.
    pub closed spec fn history(&self) -> Seq<WorkItem> {
        self.seen@
    }

    #[verifier::type_invariant]
    spec fn inv(&self) -> bool {
        &&& self.queue@.len() <= self.seen@.len()
        &&& forall|k: int| 0 <= k < self.queue@.len() ==>
            item_eq(#[trigger] self.queue@[k], self.seen@[self.seen@.len() - self.queue@.len() + k])
        &&& forall|i: int, j: int| 0 <= i < j < self.seen@.len() ==> !item_eq(#[trigger] self.seen@[i], #[trigger] self.seen@[j])
    }

    /// No two accepted items are the same unit of work, and the waiting items are the
    /// most recently accepted ones, in the order of acceptance.
    pub open spec fn accepted_once(&self) -> bool {
        &&& forall|i: int, j: int| 0 <= i < j < self.history().len() ==> !item_eq(#[trigger] self.history()[i], #[trigger] self.history()[j])
        &&& self.pending().len() <= self.history().len()
        &&& forall|k: int| 0 <= k < self.pending().len() ==>
                item_eq(#[trigger] self.pending()[k], self.history()[self.history().len() - self.pending().len() + k])
    }

    pub fn new() -> (r: WorkQueue)
        ensures
            r.pending().len() == 0,
            r.history().len() == 0,
            r.accepted_once(),
    {
        WorkQueue { queue: VecDeque::new(), seen: Vec::new() }
    }

    /// Accepts `item` unless the same unit of work was accepted before.
    pub fn push(&mut self, item: WorkItem)
        ensures
            final(self).accepted_once(),
            seen_has(old(self).history(), item) ==> final(self).pending() == old(self).pending()
                && final(self).history() == old(self).history(),
            !seen_has(old(self).history(), item) ==> final(self).pending() == old(self).pending().push(item)
                && final(self).history().drop_last() == old(self).history()
                && final(self).history().len() == old(self).history().len() + 1
                && item_eq(final(self).history().last(), item),
    {
        proof {
            use_type_invariant(&*self);
        }
        let mut i: usize = 0;
        while i < self.seen.len()
            invariant
                0 <= i <= self.seen@.len(),
                forall|j: int| 0 <= j < i ==> !item_eq(#[trigger] self.seen@[j], item),
            decreases self.seen@.len() - i,
        {
            if work_item_eq(&self.seen[i], &item) {
                assert(item_eq(self.seen@[i as int], item));
                proof {
                    use_type_invariant(&*self);
                }
                return;
            }
            i = i + 1;
        }
        let copy = item.clone();
        let mut tmp = WorkQueue::new();
        std::mem::swap(&mut tmp, self);
        proof {
            use_type_invariant(&tmp);
        }
        let WorkQueue { mut queue, mut seen } = tmp;
        let ghost old_seen = seen@;
        let ghost old_queue = queue@;
        seen.push(copy);
        queue.push_back(item);
        proof {
            assert(seen@.drop_last() == old_seen);
            assert forall|j: int| 0 <= j < old_seen.len() implies !item_eq(#[trigger] seen@[j], copy) by {
                assert(seen@[j] == old_seen[j]);
                if item_eq(seen@[j], copy) {
                    lemma_item_eq_trans(seen@[j], copy, item);
                }
            }
            assert forall|k: int| 0 <= k < queue@.len() implies
                item_eq(#[trigger] queue@[k], seen@[seen@.len() - queue@.len() + k]) by {
                if k < old_queue.len() {
                    assert(queue@[k] == old_queue[k]);
                    assert(seen@[seen@.len() - queue@.len() + k] == old_seen[old_seen.len() - old_queue.len() + k]);
                } else {
                    lemma_item_eq_symm(copy, item);
                }
            }
        }
        *self = WorkQueue { queue, seen };
    }

    /// Accepts each item of `items` in turn, as `push` does.
    pub fn extend(&mut self, items: Vec<WorkItem>)
        ensures
            final(self).accepted_once(),
            final(self).history().len() >= old(self).history().len(),
            final(self).history().subrange(0, old(self).history().len() as int) == old(self).history(),
            forall|k: int| 0 <= k < items@.len() ==> seen_has(final(self).history(), #[trigger] items@[k]),
            forall|k: int| old(self).history().len() <= k < final(self).history().len() ==>
                seen_has(items@, #[trigger] final(self).history()[k]),
    {
        let ghost all = items@;
        proof {
            use_type_invariant(&*self);
        }
        let ghost h0 = self.history();
        let mut rest = items;
        let mut n: usize = 0;
        assert(all.len() == rest@.len());
        assert(rest.len() == rest@.len());
        while rest.len() > 0
            invariant
                0 <= n <= all.len(),
                all.len() <= usize::MAX,
                n + rest@.len() == all.len(),
                rest@ == all.skip(n as int),
                self.history().len() >= h0.len(),
                self.accepted_once(),
                self.history().subrange(0, h0.len() as int) == h0,
                forall|k: int| 0 <= k < n ==> seen_has(self.history(), #[trigger] all[k]),
                forall|k: int| h0.len() <= k < self.history().len() ==>
                    seen_has(all, #[trigger] self.history()[k]),
            decreases rest@.len(),
        {
            let item = rest.remove(0);
            proof {
                assert(all[n as int] == item);
                assert(rest@ == all.skip(n + 1));
            }
            let ghost before = self.history();
            self.push(item);
            proof {
                let after = self.history();
                if !seen_has(before, item) {
                    assert(after.subrange(0, before.len() as int) == before);
                    assert(after.subrange(0, h0.len() as int) == before.subrange(0, h0.len() as int));
                    assert(item_eq(after[after.len() - 1], item));
                    assert(seen_has(after, all[n as int]));
                    assert forall|k: int| 0 <= k < n + 1 implies seen_has(after, #[trigger] all[k]) by {
                        if k < n {
                            let w = choose|w: int| 0 <= w < before.len() && item_eq(#[trigger] before[w], all[k]);
                            assert(after[w] == before[w]);
                        }
                    }
                    assert forall|k: int| h0.len() <= k < after.len() implies
                        seen_has(all, #[trigger] after[k]) by {
                        if k < before.len() {
                            assert(after[k] == before[k]);
                        } else {
                            lemma_item_eq_symm(after[k], all[n as int]);
                            assert(item_eq(all[n as int], after[k]));
                        }
                    }
                } else {
                    assert(seen_has(after, all[n as int]));
                }
            }
            n = n + 1;
        }
        assert(all == items@);
        assert(h0 == old(self).history());
    }

    /// Takes the item at the front of the queue.
    pub fn pop(&mut self) -> (r: Option<WorkItem>)
        ensures
            final(self).accepted_once(),
            old(self).pending().len() == 0 ==> r is None && final(self).pending() == old(self).pending(),
            old(self).pending().len() > 0 ==> r == Some(old(self).pending()[0])
                && final(self).pending() == old(self).pending().drop_first(),
            final(self).history() == old(self).history(),
    {
        proof {
            use_type_invariant(&*self);
        }
        let mut tmp = WorkQueue::new();
        std::mem::swap(&mut tmp, self);
        proof {
            use_type_invariant(&tmp);
        }
        let WorkQueue { mut queue, seen } = tmp;
        let ghost old_queue = queue@;
        let r = queue.pop_front();
        proof {
            if old_queue.len() > 0 {
                assert forall|k: int| 0 <= k < queue@.len() implies
                    item_eq(#[trigger] queue@[k], seen@[seen@.len() - queue@.len() + k]) by {
                    assert(queue@[k] == old_queue[k + 1]);
                }
            }
        }
        *self = WorkQueue { queue, seen };
        r
    }

    /// No item is waiting.
    pub fn is_empty(&self) -> (r: bool)
        ensures
            r == (self.pending().len() == 0),
    {
        self.queue.len() == 0
    }

    /// Number of items waiting.
    pub fn len(&self) -> (r: usize)
        ensures
            r == self.pending().len(),
    {
        self.queue.len()
    }

    /// Number of distinct items ever accepted.
    pub fn total_seen(&self) -> (r: usize)
        ensures
            r == self.history().len(),
    {
        self.seen.len()
    }
}

/// `item_eq` is transitive.
pub proof fn lemma_item_eq_trans(a: WorkItem, b: WorkItem, c: WorkItem)
    requires
        item_eq(a, b),
        item_eq(b, c),
    ensures
        item_eq(a, c),
{
    assert forall|i: int| 0 <= i < a.type_args@.len() implies crate::types::ty_eq(#[trigger] a.type_args@[i], c.type_args@[i]) by {
        crate::types::lemma_ty_eq_trans(a.type_args@[i], b.type_args@[i], c.type_args@[i]);
    }
}

/// `item_eq` is symmetric.
pub proof fn lemma_item_eq_symm(a: WorkItem, b: WorkItem)
    requires
        item_eq(a, b),
    ensures
        item_eq(b, a),
{
    assert forall|i: int| 0 <= i < b.type_args@.len() implies crate::types::ty_eq(#[trigger] b.type_args@[i], a.type_args@[i]) by {
        crate::types::lemma_ty_eq_symm(a.type_args@[i], b.type_args@[i]);
    }
}

} // verus!
