use vstd::prelude::*;
use crate::monomorphize::mangling::{
    extends, lemma_type_short_extends, lemma_types_joined_extends, lemma_types_joined_ty_eq,
    mangle_type_name, mangled_name, short_syms_ok,
};
use crate::symbol::{Interner, Symbol};
use crate::types::{copy_types, lemma_tys_eq_symm, lemma_tys_eq_trans, tys_eq, type_list_eq, HirType};

verus! {

broadcast use vstd::std_specs::vec::group_vec_axioms;

/// Every type of `args` spells out only symbols below `n`.
pub open spec fn args_ok(args: Vec<HirType>, n: nat) -> bool {
    forall|i: int| 0 <= i < args@.len() ==> short_syms_ok(#[trigger] args@[i], n)
}

/// A cache from `(base, type arguments)` to the interned mangled name, so that the same
/// pair always receives the same symbol. Type arguments are compared structurally.
pub struct MangleTable {
    entries: Vec<(Symbol, Vec<HirType>, Symbol)>,
}

/// Every pair that `a` maps, `b` maps to the same symbol.
pub open spec fn keeps(a: MangleTable, b: MangleTable) -> bool {
    forall|base: Symbol, args: Vec<HirType>, q: Symbol| a.maps(base, args, q) ==> #[trigger] b.maps(base, args, q)
}

/// Keeping pairs composes over a run of calls.
pub proof fn lemma_keeps_trans(a: MangleTable, b: MangleTable, c: MangleTable)
    requires
        keeps(a, b),
        keeps(b, c),
    ensures
        keeps(a, c),
{
}

/// The same pair always yields the same symbol: once a table `first` maps `(base,
/// args)` to `s`, any table `later` reached from it through calls of `mangle` and
/// `mangle_fn` (each keeps the pairs it had, so `keeps(first, later)`) still maps it to
/// `s`, and a call for the pair on `later` returns a symbol `r` that equals every symbol
/// `later` maps the pair to (as `mangle` ensures), hence `r == s`.
pub proof fn lemma_same_pair_same_symbol(first: MangleTable, later: MangleTable, base: Symbol, args: Vec<HirType>,
    s: Symbol, r: Symbol)
    requires
        first.maps(base, args, s),
        keeps(first, later),
        forall|q: Symbol| later.maps(base, args, q) ==> r == q,
    ensures
        r == s,
{
    assert(later.maps(base, args, s));
}

impl MangleTable {
    /// The cached entries, oldest first.
    pub closed spec fn entries(&self) -> Seq<(Symbol, Vec<HirType>, Symbol)> {
        self.entries@
    }

    #[verifier::type_invariant]
    spec fn inv(&self) -> bool {
        forall|i: int, j: int| 0 <= i < j < self.entries@.len() ==>
            !(#[trigger] self.entries@[i].0 == #[trigger] self.entries@[j].0
              && tys_eq(self.entries@[i].1, self.entries@[j].1))
    }

    /// The table holds `sym` for `base` applied to `args`.
    pub open spec fn maps(&self, base: Symbol, args: Vec<HirType>, sym: Symbol) -> bool {
        exists|i: int| 0 <= i < self.entries().len() && (#[trigger] self.entries()[i]).0 == base
            && tys_eq(self.entries()[i].1, args) && self.entries()[i].2 == sym
    }

    /// The table holds some symbol for `base` applied to `args`.
    pub open spec fn has_key(&self, base: Symbol, args: Vec<HirType>) -> bool {
        exists|i: int| 0 <= i < self.entries().len() && (#[trigger] self.entries()[i]).0 == base
            && tys_eq(self.entries()[i].1, args)
    }

    /// Each cached symbol names, in `strs`, the mangled name of its pair.
    pub open spec fn agrees_with(&self, strs: Seq<Seq<char>>) -> bool {
        forall|i: int| 0 <= i < self.entries().len() ==> {
            let e = #[trigger] self.entries()[i];
            &&& e.0.index() < strs.len()
            &&& e.2.index() < strs.len()
            &&& args_ok(e.1, strs.len())
            &&& strs[e.2.index() as int] == mangled_name(strs, e.0, e.1)
        }
    }

    /// Agreement with a table of strings survives the table growing.
    pub proof fn lemma_agrees_extends(&self, small: Seq<Seq<char>>, big: Seq<Seq<char>>)
        requires
            self.agrees_with(small),
            extends(small, big),
        ensures
            self.agrees_with(big),
    {
        assert forall|i: int| 0 <= i < self.entries().len() implies {
            let e = #[trigger] self.entries()[i];
            &&& e.0.index() < big.len()
            &&& e.2.index() < big.len()
            &&& args_ok(e.1, big.len())
            &&& big[e.2.index() as int] == mangled_name(big, e.0, e.1)
        } by {
            let e = self.entries()[i];
            lemma_types_joined_extends(e.1, e.1@.len(), small, big);
            assert forall|j: int| 0 <= j < e.1@.len() implies short_syms_ok(#[trigger] e.1@[j], big.len()) by {
                crate::monomorphize::mangling::lemma_short_syms_ok_mono(e.1@[j], small.len(), big.len());
            }
            assert(big[e.0.index() as int] == small[e.0.index() as int]);
            assert(big[e.2.index() as int] == small[e.2.index() as int]);
        }
    }

    /// An empty table.
    pub fn new() -> (r: MangleTable)
        ensures
            r.entries().len() == 0,
    {
        MangleTable { entries: Vec::new() }
    }

    /// The symbol for `base` applied to `args`: the cached one when the pair was seen
    /// before, else the interned mangled name `base__arg1_arg2_...`, which is cached.
    pub fn mangle(&mut self, base: Symbol, args: &Vec<HirType>, interner: &mut Interner) -> (r: Symbol)
        requires
            old(self).agrees_with(old(interner)@),
            base.index() < old(interner)@.len(),
            args_ok(*args, old(interner)@.len()),
            old(interner)@.len() < u32::MAX,
        ensures
            final(self).agrees_with(final(interner)@),
            extends(old(interner)@, final(interner)@),
            final(interner)@.len() <= old(interner)@.len() + 1,
            r.index() < final(interner)@.len(),
            final(interner)@[r.index() as int] == mangled_name(final(interner)@, base, *args),
            final(self).maps(base, *args, r),
            forall|s: Symbol| old(self).maps(base, *args, s) ==> r == s,
            old(self).has_key(base, *args) ==> final(self).entries() == old(self).entries()
                && final(interner)@ == old(interner)@,
            !old(self).has_key(base, *args) ==> final(self).entries().drop_last() == old(self).entries()
                && final(self).entries().len() == old(self).entries().len() + 1,
            keeps(*old(self), *final(self)),
    {
        proof {
            use_type_invariant(&*self);
        }
        let mut i: usize = 0;
        while i < self.entries.len()
            invariant
                0 <= i <= self.entries@.len(),
                *self == *old(self),
                interner@ == old(interner)@,
                self.agrees_with(interner@),
                forall|j: int| 0 <= j < i ==> !(#[trigger] self.entries@[j].0 == base
                    && tys_eq(self.entries@[j].1, *args)),
            decreases self.entries@.len() - i,
        {
            if self.entries[i].0 == base && type_list_eq(&self.entries[i].1, args) {
                let r = self.entries[i].2;
                proof {
                    use_type_invariant(&*self);
                    let e = self.entries@[i as int];
                    lemma_types_joined_ty_eq(e.1, *args, e.1@.len(), interner@);
                    assert(self.entries()[i as int] == e);
                    assert(self.maps(base, *args, r));
                    assert forall|s: Symbol| old(self).maps(base, *args, s) implies r == s by {
                        let k = choose|k: int| 0 <= k < self.entries().len() && (#[trigger] self.entries()[k]).0 == base
                            && tys_eq(self.entries()[k].1, *args) && self.entries()[k].2 == s;
                        if k != i {
                            lemma_tys_eq_symm(self.entries@[k].1, *args);
                            lemma_tys_eq_trans(e.1, *args, self.entries@[k].1);
                            if k < i {
                                lemma_tys_eq_symm(e.1, self.entries@[k].1);
                            }
                        }
                    }
                }
                return r;
            }
            i = i + 1;
        }
        let ghost strs0 = interner@;
        let r = mangle_type_name(interner, base, args);
        let key = copy_types(args);
        let mut entries: Vec<(Symbol, Vec<HirType>, Symbol)> = Vec::new();
        std::mem::swap(&mut entries, &mut self.entries);
        let ghost old_entries = entries@;
        entries.push((base, key, r));
        proof {
            let strs1 = interner@;
            lemma_tys_eq_symm(key, *args);
            lemma_types_joined_ty_eq(*args, key, args@.len(), strs1);
            assert(old_entries == old(self).entries());
            assert(old(self).agrees_with(strs0));
            assert forall|k: int| 0 <= k < entries@.len() implies {
                let e = #[trigger] entries@[k];
                &&& e.0.index() < strs1.len()
                &&& e.2.index() < strs1.len()
                &&& args_ok(e.1, strs1.len())
                &&& strs1[e.2.index() as int] == mangled_name(strs1, e.0, e.1)
            } by {
                let e = entries@[k];
                if k < old_entries.len() {
                    assert(e == old_entries[k]);
                    assert(old(self).entries()[k] == e);
                    assert(args_ok(e.1, strs0.len()));
                    lemma_types_joined_extends(e.1, e.1@.len(), strs0, strs1);
                    assert forall|j: int| 0 <= j < e.1@.len() implies short_syms_ok(#[trigger] e.1@[j], strs1.len()) by {
                        crate::monomorphize::mangling::lemma_short_syms_ok_mono(e.1@[j], strs0.len(), strs1.len());
                    }
                    assert(strs1[e.0.index() as int] == strs0[e.0.index() as int]);
                    assert(strs1[e.2.index() as int] == strs0[e.2.index() as int]);
                    assert(strs1[e.2.index() as int] == mangled_name(strs1, e.0, e.1));
                } else {
                    assert(e == (base, key, r));
                    assert(mangled_name(strs1, base, key) == mangled_name(strs1, base, *args));
                    lemma_types_joined_extends(*args, args@.len(), strs0, strs1);
                    assert(strs1[base.index() as int] == strs0[base.index() as int]);
                    assert(strs1[r.index() as int] == mangled_name(strs1, base, *args));
                    assert(base.index() < strs1.len());
                    assert forall|j: int| 0 <= j < e.1@.len() implies short_syms_ok(#[trigger] e.1@[j], strs1.len()) by {
                        crate::monomorphize::mangling::lemma_ty_eq_short_syms_ok(args@[j], key@[j], strs0.len());
                        crate::monomorphize::mangling::lemma_short_syms_ok_mono(e.1@[j], strs0.len(), strs1.len());
                    }
                }
            }
            assert forall|a: int, b: int| 0 <= a < b < entries@.len() implies
                !(#[trigger] entries@[a].0 == #[trigger] entries@[b].0 && tys_eq(entries@[a].1, entries@[b].1)) by {
                if b == old_entries.len() && entries@[a].0 == base && tys_eq(entries@[a].1, key) {
                    lemma_tys_eq_trans(entries@[a].1, key, *args);
                    assert(old_entries[a] == entries@[a]);
                }
            }
            assert(entries@.drop_last() == old_entries);
            assert(entries@[old_entries.len() as int] == (base, key, r));
        }
        self.entries = entries;
        proof {
            assert(self.entries()[old_entries.len() as int] == (base, key, r));
            assert(self.maps(base, *args, r));
        }
        r
    }

    /// `mangle` for a function name: a function without type arguments keeps its name.
    pub fn mangle_fn(&mut self, base: Symbol, args: &Vec<HirType>, interner: &mut Interner) -> (r: Symbol)
        requires
            old(self).agrees_with(old(interner)@),
            base.index() < old(interner)@.len(),
            args_ok(*args, old(interner)@.len()),
            old(interner)@.len() < u32::MAX,
        ensures
            final(self).agrees_with(final(interner)@),
            extends(old(interner)@, final(interner)@),
            final(interner)@.len() <= old(interner)@.len() + 1,
            args@.len() == 0 ==> r == base && final(self).entries() == old(self).entries()
                && final(interner)@ == old(interner)@,
            args@.len() > 0 ==> final(interner)@[r.index() as int] == mangled_name(final(interner)@, base, *args)
                && final(self).maps(base, *args, r)
                && forall|s: Symbol| old(self).maps(base, *args, s) ==> r == s,
            keeps(*old(self), *final(self)),
    {
        if args.len() == 0 {
            return base;
        }
        self.mangle(base, args, interner)
    }

    /// Number of cached names.
    pub fn len(&self) -> (r: usize)
        ensures
            r == self.entries().len(),
    {
        self.entries.len()
    }

    /// No name is cached.
    pub fn is_empty(&self) -> (r: bool)
        ensures
            r == (self.entries().len() == 0),
    {
        self.entries.len() == 0
    }
}

} // verus!
