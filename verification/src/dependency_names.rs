use vstd::prelude::*;
use crate::symbol::Symbol;

verus! {

broadcast use {vstd::std_specs::vec::group_vec_axioms, vstd::seq_lib::lemma_seq_contains_after_push};

/// One step of dependence from `x` to `y`: `y` references `x`, or references a name
/// that `x` defines.
pub open spec fn dep_step(d: Seq<(Symbol, Symbol)>, r: Seq<(Symbol, Symbol)>, x: Symbol, y: Symbol) -> bool {
    r.contains((y, x)) || exists|n: Symbol| d.contains((x, n)) && r.contains((y, n))
}

/// `p` is a chain of dependence that starts at a changed name and whose first step goes
/// to an item referencing it.
pub open spec fn is_dep_path(d: Seq<(Symbol, Symbol)>, r: Seq<(Symbol, Symbol)>, changed: Seq<Symbol>, p: Seq<Symbol>) -> bool {
    &&& p.len() >= 2
    &&& changed.contains(p[0])
    &&& r.contains((p[1], p[0]))
    &&& forall|i: int| 1 <= i < p.len() - 1 ==> dep_step(d, r, #[trigger] p[i], p[i + 1])
}

/// `p` is a chain of references that starts at a changed name: each element references
/// the one before it.
pub open spec fn is_ref_path(r: Seq<(Symbol, Symbol)>, changed: Seq<Symbol>, p: Seq<Symbol>) -> bool {
    &&& p.len() >= 2
    &&& changed.contains(p[0])
    &&& forall|i: int| 0 <= i < p.len() - 1 ==> r.contains((p[i + 1], #[trigger] p[i]))
}

/// `y` depends, through references and definitions, on a changed name.
pub open spec fn may_be_affected(d: Seq<(Symbol, Symbol)>, r: Seq<(Symbol, Symbol)>, changed: Seq<Symbol>, y: Symbol) -> bool {
    exists|p: Seq<Symbol>| is_dep_path(d, r, changed, p) && p.last() == y
}

/// `y` depends, through references alone, on a changed name.
pub open spec fn must_be_affected(r: Seq<(Symbol, Symbol)>, changed: Seq<Symbol>, y: Symbol) -> bool {
    exists|p: Seq<Symbol>| is_ref_path(r, changed, p) && p.last() == y
}

/// The first affected item `a[0]`, if any, references a changed name, and every item
/// that references a name it defines (other than a changed name) is affected, or the
/// name itself is.
pub open spec fn first_closed(d: Seq<(Symbol, Symbol)>, r: Seq<(Symbol, Symbol)>, changed: Seq<Symbol>, a: Seq<Symbol>) -> bool {
    a.len() > 0 ==> {
        &&& exists|c: Symbol| changed.contains(c) && #[trigger] r.contains((a[0], c))
        &&& forall|n: Symbol, z: Symbol| #![trigger d.contains((a[0], n)), r.contains((z, n))]
            d.contains((a[0], n)) && !changed.contains(n) && r.contains((z, n)) ==> a.contains(n) || a.contains(z)
    }
}

/// The first components of a list of pairs.
pub open spec fn firsts(r: Seq<(Symbol, Symbol)>) -> Seq<Symbol> {
    r.map_values(|p: (Symbol, Symbol)| p.0)
}

/// A list without repeats whose elements all occur in `u` is no longer than `u`.
pub proof fn lemma_distinct_subset_len(a: Seq<Symbol>, u: Seq<Symbol>)
    requires
        a.no_duplicates(),
        forall|x: Symbol| a.contains(x) ==> u.contains(x),
    ensures
        a.len() <= u.len(),
{
    a.unique_seq_to_set();
    u.lemma_cardinality_of_set();
    assert(a.to_set().subset_of(u.to_set()));
    vstd::set_lib::lemma_len_subset(a.to_set(), u.to_set());
}

/// Symbol membership in a slice.
fn slice_has(s: &[Symbol], x: Symbol) -> (r: bool)
    ensures
        r == s@.contains(x),
{
    let mut i: usize = 0;
    while i < s.len()
        invariant
            0 <= i <= s@.len(),
            forall|j: int| 0 <= j < i ==> s@[j] != x,
        decreases s@.len() - i,
    {
        if s[i] == x {
            assert(s@[i as int] == x);
            return true;
        }
        i = i + 1;
    }
    false
}

/// Pair membership in a list of pairs.
fn pairs_has(s: &Vec<(Symbol, Symbol)>, p: (Symbol, Symbol)) -> (r: bool)
    ensures
        r == s@.contains(p),
{
    let mut i: usize = 0;
    while i < s.len()
        invariant
            0 <= i <= s@.len(),
            forall|j: int| 0 <= j < i ==> s@[j] != p,
        decreases s@.len() - i,
    {
        if s[i].0 == p.0 && s[i].1 == p.1 {
            assert(s@[i as int] == p);
            return true;
        }
        i = i + 1;
    }
    false
}

/// The second components of the pairs of `s` whose first component is `key`, or the
/// first components of those whose second is `key`, each once.
fn related(s: &Vec<(Symbol, Symbol)>, key: Symbol, forward: bool) -> (r: Vec<Symbol>)
    ensures
        r@.no_duplicates(),
        forward ==> forall|n: Symbol| r@.contains(n) <==> s@.contains((key, n)),
        !forward ==> forall|n: Symbol| r@.contains(n) <==> s@.contains((n, key)),
{
    broadcast use vstd::seq_lib::group_seq_properties;

    let mut out: Vec<Symbol> = Vec::new();
    let mut i: usize = 0;
    while i < s.len()
        invariant
            0 <= i <= s@.len(),
            out@.no_duplicates(),
            forward ==> forall|n: Symbol| out@.contains(n) <==> s@.subrange(0, i as int).contains((key, n)),
            !forward ==> forall|n: Symbol| out@.contains(n) <==> s@.subrange(0, i as int).contains((n, key)),
        decreases s@.len() - i,
    {
        let (a, b) = s[i];
        let hit = if forward { a == key } else { b == key };
        let other = if forward { b } else { a };
        if hit && !slice_has(out.as_slice(), other) {
            out.push(other);
        }
        proof {
            assert(s@.subrange(0, i + 1) == s@.subrange(0, i as int).push(s@[i as int]));
        }
        i = i + 1;
    }
    assert(s@.subrange(0, s@.len() as int) == s@);
    out
}

/// Records, per item, the names it defines and the names it references, and answers
/// which items a change to some names may affect.
pub struct NameDependencyTable {
    definitions: Vec<(Symbol, Symbol)>,
    references: Vec<(Symbol, Symbol)>,
}

impl NameDependencyTable {
    /// The recorded (item, defined name) pairs.
    pub closed spec fn defs(&self) -> Seq<(Symbol, Symbol)> {
        self.definitions@
    }

    /// The recorded (item, referenced name) pairs.
    pub closed spec fn refs(&self) -> Seq<(Symbol, Symbol)> {
        self.references@
    }

    /// An empty table.
    pub fn new() -> (r: Self)
        ensures
            r.defs().len() == 0,
            r.refs().len() == 0,
    {
        Self { definitions: Vec::new(), references: Vec::new() }
    }

    /// Records that `item` defines `name`.
    pub fn add_definition(&mut self, item: Symbol, name: Symbol)
        ensures
            final(self).refs() == old(self).refs(),
            forall|p: (Symbol, Symbol)| final(self).defs().contains(p) <==> (old(self).defs().contains(p) || p == (item, name)),
    {
        if !pairs_has(&self.definitions, (item, name)) {
            self.definitions.push((item, name));
        }
        proof {
            assert forall|p: (Symbol, Symbol)| self.defs().contains(p) <==> (old(self).defs().contains(p) || p == (item, name)) by {
                if old(self).defs().contains(p) {
                    let j = choose|j: int| 0 <= j < old(self).defs().len() && old(self).defs()[j] == p;
                    assert(self.defs()[j] == p);
                }
                if p == (item, name) && !old(self).defs().contains(p) {
                    assert(self.defs()[self.defs().len() - 1] == p);
                }
            }
        }
    }

    /// Records that `item` references `name`.
    pub fn add_reference(&mut self, item: Symbol, name: Symbol)
        ensures
            final(self).defs() == old(self).defs(),
            forall|p: (Symbol, Symbol)| final(self).refs().contains(p) <==> (old(self).refs().contains(p) || p == (item, name)),
    {
        if !pairs_has(&self.references, (item, name)) {
            self.references.push((item, name));
        }
        proof {
            assert forall|p: (Symbol, Symbol)| self.refs().contains(p) <==> (old(self).refs().contains(p) || p == (item, name)) by {
                if old(self).refs().contains(p) {
                    let j = choose|j: int| 0 <= j < old(self).refs().len() && old(self).refs()[j] == p;
                    assert(self.refs()[j] == p);
                }
                if p == (item, name) && !old(self).refs().contains(p) {
                    assert(self.refs()[self.refs().len() - 1] == p);
                }
            }
        }
    }

    /// The names that `item` defines, each once.
    pub fn definitions_for_sym(&self, item: Symbol) -> (r: Vec<Symbol>)
        ensures
            r@.no_duplicates(),
            forall|n: Symbol| r@.contains(n) <==> self.defs().contains((item, n)),
    {
        related(&self.definitions, item, true)
    }

    /// The names that `item` references, each once.
    pub fn references_for_sym(&self, item: Symbol) -> (r: Vec<Symbol>)
        ensures
            r@.no_duplicates(),
            forall|n: Symbol| r@.contains(n) <==> self.refs().contains((item, n)),
    {
        related(&self.references, item, true)
    }

    /// The items that reference `name`, each once.
    pub fn direct_dependents(&self, name: Symbol) -> (r: Vec<Symbol>)
        ensures
            r@.no_duplicates(),
            forall|y: Symbol| r@.contains(y) <==> self.refs().contains((y, name)),
    {
        related(&self.references, name, false)
    }

    /// The items that a change to the names in `changed` may affect, each once.
    ///
    /// Every item that depends on a changed name through a chain of references is
    /// included; an item defining a name is also followed to the items referencing
    /// that name, and nothing outside that wider closure is ever included.
    #[verifier::rlimit(60)]
    pub fn transitive_dependents(&self, changed: &[Symbol]) -> (r: Vec<Symbol>)
        ensures
            r@.no_duplicates(),
            forall|y: Symbol| must_be_affected(self.refs(), changed@, y) ==> r@.contains(y),
            forall|y: Symbol| r@.contains(y) ==> may_be_affected(self.defs(), self.refs(), changed@, y),
            r@.len() > 0 ==> exists|c: Symbol| changed@.contains(c) && #[trigger] self.refs().contains((r@[0], c)),
            r@.len() > 0 ==> forall|n: Symbol, z: Symbol| #![trigger self.defs().contains((r@[0], n)), self.refs().contains((z, n))]
                self.defs().contains((r@[0], n)) && !changed@.contains(n) && self.refs().contains((z, n)) ==> r@.contains(z),
    {
        let ghost d = self.defs();
        let ghost rr = self.refs();
        let ghost ch = changed@;
        let ghost u = firsts(rr);
        let refs = &self.references;
        let defs = &self.definitions;
        let mut affected: Vec<Symbol> = Vec::new();
        let mut queue: Vec<Symbol> = Vec::new();
        let mut c: usize = 0;
        while c < changed.len()
            invariant
                0 <= c <= ch.len(),
                ch == changed@,
                queue@ == ch.subrange(0, c as int),
            decreases ch.len() - c,
        {
            queue.push(changed[c]);
            proof {
                assert(ch.subrange(0, c + 1) == ch.subrange(0, c as int).push(ch[c as int]));
            }
            c = c + 1;
        }
        assert(queue@ == ch);
        proof {
            lemma_distinct_subset_len(affected@, u);
        }
        while queue.len() > 0
            invariant
                d == self.defs(),
                rr == self.refs(),
                ch == changed@,
                refs@ == rr,
                defs@ == d,
                u == firsts(rr),
                affected@.no_duplicates(),
                affected@.len() <= rr.len(),
                forall|x: Symbol| affected@.contains(x) ==> u.contains(x),
                forall|x: Symbol| affected@.contains(x) ==> may_be_affected(d, rr, ch, x),
                forall|x: Symbol| queue@.contains(x) ==> ch.contains(x) || affected@.contains(x),
                forall|x: Symbol| (ch.contains(x) || affected@.contains(x)) ==> queue@.contains(x)
                    || (forall|y: Symbol| rr.contains((y, x)) ==> affected@.contains(y)),
                first_closed(d, rr, ch, affected@),
            decreases rr.len() - affected@.len(), queue@.len(),
        {
            let ghost a0 = affected@;
            let ghost q0 = queue@;
            let name = queue.pop().unwrap();
            assert(q0 == queue@.push(name));
            let ghost name_src = ch.contains(name) || a0.contains(name);
            assert(name_src);
            let mut i: usize = 0;
            while i < refs.len()
                invariant
                    d == self.defs(),
                    rr == self.refs(),
                    ch == changed@,
                    refs@ == rr,
                    defs@ == d,
                    u == firsts(rr),
                    0 <= i <= rr.len(),
                    ch.contains(name) || affected@.contains(name),
                    affected@.no_duplicates(),
                    affected@.len() <= rr.len(),
                    a0.len() <= affected@.len(),
                    affected@.subrange(0, a0.len() as int) == a0,
                    affected@.len() > a0.len() ==> q0.len() <= queue@.len() + affected@.len() - a0.len(),
                    affected@.len() == a0.len() ==> queue@ == q0.drop_last(),
                    forall|x: Symbol| affected@.contains(x) ==> u.contains(x),
                    forall|x: Symbol| affected@.contains(x) ==> may_be_affected(d, rr, ch, x),
                    forall|x: Symbol| queue@.contains(x) ==> ch.contains(x) || affected@.contains(x),
                    forall|x: Symbol| (ch.contains(x) || affected@.contains(x)) && x != name ==> queue@.contains(x)
                        || (forall|y: Symbol| rr.contains((y, x)) ==> affected@.contains(y)),
                    forall|j: int| 0 <= j < i && (#[trigger] rr[j]).1 == name ==> affected@.contains(rr[j].0),
                    first_closed(d, rr, ch, affected@),
                decreases rr.len() - i,
            {
                let (dep, target) = refs[i];
                if target == name && !slice_has(affected.as_slice(), dep) {
                    proof {
                        assert(rr.contains((dep, name)));
                        assert(u[i as int] == dep);
                        self.lemma_step_ref(ch, name, dep);
                    }
                    let ghost b0 = affected@;
                    affected.push(dep);
                    let mut j: usize = 0;
                    while j < defs.len()
                        invariant
                            d == self.defs(),
                            rr == self.refs(),
                            ch == changed@,
                            refs@ == rr,
                            defs@ == d,
                            u == firsts(rr),
                            0 <= i < rr.len(),
                            0 <= j <= d.len(),
                            ch.contains(name) || affected@.contains(name),
                            affected@.contains(dep),
                            rr[i as int] == (dep, name),
                            affected@.no_duplicates(),
                            a0.len() < affected@.len(),
                            affected@.subrange(0, a0.len() as int) == a0,
                            q0.len() <= queue@.len() + affected@.len() - a0.len(),
                            forall|x: Symbol| affected@.contains(x) ==> u.contains(x),
                            forall|x: Symbol| affected@.contains(x) ==> may_be_affected(d, rr, ch, x),
                            forall|x: Symbol| queue@.contains(x) ==> ch.contains(x) || affected@.contains(x),
                            forall|x: Symbol| (ch.contains(x) || affected@.contains(x)) && x != name && x != dep ==> queue@.contains(x)
                                || (forall|y: Symbol| rr.contains((y, x)) ==> affected@.contains(y)),
                            forall|jj: int| 0 <= jj < i && (#[trigger] rr[jj]).1 == name ==> affected@.contains(rr[jj].0),
                            b0.len() > 0 ==> first_closed(d, rr, ch, affected@),
                            b0.len() == 0 ==> affected@[0] == dep && ch.contains(name),
                            b0.len() == 0 ==> forall|jj: int, z: Symbol| #![trigger d[jj], rr.contains((z, d[jj].1))]
                                0 <= jj < j && d[jj].0 == dep && !ch.contains(d[jj].1) && rr.contains((z, d[jj].1))
                                ==> affected@.contains(d[jj].1) || affected@.contains(z),
                        decreases d.len() - j,
                    {
                        let (owner, def_name) = defs[j];
                        if owner == dep && !slice_has(changed, def_name) && !slice_has(affected.as_slice(), def_name) {
                            let mut k: usize = 0;
                            while k < refs.len()
                                invariant
                                    d == self.defs(),
                                    rr == self.refs(),
                                    ch == changed@,
                                    refs@ == rr,
                                    defs@ == d,
                                    u == firsts(rr),
                                    0 <= i < rr.len(),
                                    0 <= j < d.len(),
                                    d[j as int] == (dep, def_name),
                                    0 <= k <= rr.len(),
                                    ch.contains(name) || affected@.contains(name),
                                    affected@.contains(dep),
                                    rr[i as int] == (dep, name),
                                    affected@.no_duplicates(),
                                    a0.len() < affected@.len(),
                                    affected@.subrange(0, a0.len() as int) == a0,
                                    q0.len() <= queue@.len() + affected@.len() - a0.len(),
                                    forall|x: Symbol| affected@.contains(x) ==> u.contains(x),
                                    forall|x: Symbol| affected@.contains(x) ==> may_be_affected(d, rr, ch, x),
                                    forall|x: Symbol| queue@.contains(x) ==> ch.contains(x) || affected@.contains(x),
                                    forall|x: Symbol| (ch.contains(x) || affected@.contains(x)) && x != name && x != dep ==> queue@.contains(x)
                                        || (forall|y: Symbol| rr.contains((y, x)) ==> affected@.contains(y)),
                                    forall|jj: int| 0 <= jj < i && (#[trigger] rr[jj]).1 == name ==> affected@.contains(rr[jj].0),
                                    b0.len() > 0 ==> first_closed(d, rr, ch, affected@),
                                    b0.len() == 0 ==> affected@[0] == dep && ch.contains(name),
                                    b0.len() == 0 ==> forall|jj: int, z: Symbol| #![trigger d[jj], rr.contains((z, d[jj].1))]
                                        0 <= jj < j && d[jj].0 == dep && !ch.contains(d[jj].1) && rr.contains((z, d[jj].1))
                                        ==> affected@.contains(d[jj].1) || affected@.contains(z),
                                    forall|kk: int| 0 <= kk < k && (#[trigger] rr[kk]).1 == def_name ==> affected@.contains(rr[kk].0),
                                decreases rr.len() - k,
                            {
                                let (sub, sub_target) = refs[k];
                                if sub_target == def_name && !slice_has(affected.as_slice(), sub) {
                                    proof {
                                        assert(u[k as int] == sub);
                                        assert(rr.contains((sub, def_name)));
                                        assert(d.contains((dep, def_name)));
                                        self.lemma_step_def(ch, dep, def_name, sub);
                                    }
                                    affected.push(sub);
                                    queue.push(sub);
                                }
                                k = k + 1;
                            }
                            proof {
                                assert forall|z: Symbol| rr.contains((z, def_name)) implies affected@.contains(z) by {
                                    let kk = choose|kk: int| 0 <= kk < rr.len() && rr[kk] == (z, def_name);
                                    assert(rr[kk].1 == def_name);
                                }
                            }
                        }
                        j = j + 1;
                    }
                    proof {
                        if b0.len() == 0 {
                            assert(rr.contains((affected@[0], name)));
                            assert forall|n: Symbol, z: Symbol| #![trigger d.contains((affected@[0], n)), rr.contains((z, n))]
                                d.contains((affected@[0], n)) && !ch.contains(n) && rr.contains((z, n))
                                implies affected@.contains(n) || affected@.contains(z) by {
                                let jj = choose|jj: int| 0 <= jj < d.len() && d[jj] == (affected@[0], n);
                                assert(d[jj].0 == dep && d[jj].1 == n);
                            }
                        }
                    }
                    queue.push(dep);
                }
                proof {
                    lemma_distinct_subset_len(affected@, u);
                }
                i = i + 1;
            }
            proof {
                lemma_distinct_subset_len(affected@, u);
                assert forall|y: Symbol| rr.contains((y, name)) implies affected@.contains(y) by {
                    let j = choose|j: int| 0 <= j < rr.len() && rr[j] == (y, name);
                    assert(rr[j].1 == name);
                }
            }
        }
        proof {
            assert forall|x: Symbol, z: Symbol| (ch.contains(x) || affected@.contains(x)) && #[trigger] rr.contains((z, x)) implies affected@.contains(z) by {
                assert(!queue@.contains(x));
            }
            assert forall|y: Symbol| must_be_affected(rr, ch, y) implies affected@.contains(y) by {
                let p = choose|p: Seq<Symbol>| is_ref_path(rr, ch, p) && p.last() == y;
                self.lemma_closed_covers(ch, affected@, p);
            }
            if affected@.len() > 0 {
                assert forall|n: Symbol, z: Symbol| #![trigger d.contains((affected@[0], n)), rr.contains((z, n))]
                    d.contains((affected@[0], n)) && !ch.contains(n) && rr.contains((z, n)) implies affected@.contains(z) by {
                    if affected@.contains(n) {
                        assert(rr.contains((z, n)));
                    }
                }
            }
        }
        affected
    }

    proof fn lemma_step_ref(&self, ch: Seq<Symbol>, name: Symbol, dep: Symbol)
        requires
            ch.contains(name) || may_be_affected(self.defs(), self.refs(), ch, name),
            self.refs().contains((dep, name)),
        ensures
            may_be_affected(self.defs(), self.refs(), ch, dep),
    {
        if ch.contains(name) {
            let p = seq![name, dep];
            assert(is_dep_path(self.defs(), self.refs(), ch, p));
            assert(p.last() == dep);
        } else {
            let p = choose|p: Seq<Symbol>| is_dep_path(self.defs(), self.refs(), ch, p) && p.last() == name;
            let q = p.push(dep);
            assert(dep_step(self.defs(), self.refs(), q[q.len() - 2], q[q.len() - 1]));
            assert forall|i: int| 1 <= i < q.len() - 1 implies dep_step(self.defs(), self.refs(), #[trigger] q[i], q[i + 1]) by {
                if i < q.len() - 2 {
                    assert(q[i] == p[i] && q[i + 1] == p[i + 1]);
                }
            }
            assert(is_dep_path(self.defs(), self.refs(), ch, q));
            assert(q.last() == dep);
        }
    }

    proof fn lemma_step_def(&self, ch: Seq<Symbol>, dep: Symbol, n: Symbol, sub: Symbol)
        requires
            may_be_affected(self.defs(), self.refs(), ch, dep),
            self.defs().contains((dep, n)),
            self.refs().contains((sub, n)),
        ensures
            may_be_affected(self.defs(), self.refs(), ch, sub),
    {
        let p = choose|p: Seq<Symbol>| is_dep_path(self.defs(), self.refs(), ch, p) && p.last() == dep;
        let q = p.push(sub);
        assert(dep_step(self.defs(), self.refs(), q[q.len() - 2], q[q.len() - 1]));
        assert forall|i: int| 1 <= i < q.len() - 1 implies dep_step(self.defs(), self.refs(), #[trigger] q[i], q[i + 1]) by {
            if i < q.len() - 2 {
                assert(q[i] == p[i] && q[i + 1] == p[i + 1]);
            }
        }
        assert(is_dep_path(self.defs(), self.refs(), ch, q));
        assert(q.last() == sub);
    }

    proof fn lemma_closed_covers(&self, ch: Seq<Symbol>, a: Seq<Symbol>, p: Seq<Symbol>)
        requires
            is_ref_path(self.refs(), ch, p),
            forall|x: Symbol, z: Symbol| (ch.contains(x) || a.contains(x)) && #[trigger] self.refs().contains((z, x)) ==> a.contains(z),
        ensures
            a.contains(p.last()),
        decreases p.len(),
    {
        if p.len() == 2 {
            assert(self.refs().contains((p[1], p[0])));
        } else {
            let q = p.drop_last();
            assert forall|i: int| 0 <= i < q.len() - 1 implies self.refs().contains((q[i + 1], #[trigger] q[i])) by {
                assert(q[i] == p[i] && q[i + 1] == p[i + 1]);
            }
            self.lemma_closed_covers(ch, a, q);
            assert(self.refs().contains((p[p.len() - 1], p[p.len() - 2])));
        }
    }
}

} // verus!
