use vstd::prelude::*;
use crate::assoc::{assoc_find, assoc_keys, assoc_keys_unique, assoc_map, assoc_upsert, lemma_assoc_map};
use crate::item::{EnumDef, Hir, HirImplDef, HirItem, StructDef};
use crate::node::HirFn;
use crate::symbol::Symbol;

verus! {

broadcast use vstd::std_specs::vec::group_vec_axioms;

/// Name to position of the last struct among the first `n` items.
pub open spec fn struct_at(items: Seq<HirItem>, n: nat) -> Map<Symbol, usize>
    decreases n,
{
    if n == 0 || n > items.len() {
        Map::empty()
    } else {
        let m = struct_at(items, (n - 1) as nat);
        match items[n - 1] {
            HirItem::Struct(s) => m.insert(s.name, (n - 1) as usize),
            _ => m,
        }
    }
}

/// Name to position of the last enum among the first `n` items.
pub open spec fn enum_at(items: Seq<HirItem>, n: nat) -> Map<Symbol, usize>
    decreases n,
{
    if n == 0 || n > items.len() {
        Map::empty()
    } else {
        let m = enum_at(items, (n - 1) as nat);
        match items[n - 1] {
            HirItem::Enum(e) => m.insert(e.name, (n - 1) as usize),
            _ => m,
        }
    }
}

/// Name to position of the last top-level function among the first `n` items.
pub open spec fn fn_at(items: Seq<HirItem>, n: nat) -> Map<Symbol, usize>
    decreases n,
{
    if n == 0 || n > items.len() {
        Map::empty()
    } else {
        let m = fn_at(items, (n - 1) as nat);
        match items[n - 1] {
            HirItem::Fn(f) => m.insert(f.name, (n - 1) as usize),
            _ => m,
        }
    }
}

/// Target type name to position of the last impl block among the first `n` items.
pub open spec fn impl_at(items: Seq<HirItem>, n: nat) -> Map<Symbol, usize>
    decreases n,
{
    if n == 0 || n > items.len() {
        Map::empty()
    } else {
        let m = impl_at(items, (n - 1) as nat);
        match items[n - 1] {
            HirItem::Impl(imp) => m.insert(imp.target_name, (n - 1) as usize),
            _ => m,
        }
    }
}

/// `m` updated with the first `k` methods of the impl block at position `i`, a later
/// method of a name replacing an earlier one.
pub open spec fn methods_into(m: Map<Symbol, (usize, usize)>, ms: Seq<HirFn>, i: usize, k: nat) -> Map<Symbol, (usize, usize)>
    decreases k,
{
    if k == 0 || k > ms.len() {
        m
    } else {
        methods_into(m, ms, i, (k - 1) as nat).insert(ms[k - 1].name, (i, (k - 1) as usize))
    }
}

/// Method name to (item position, method position) of the last impl method of that
/// name among the first `n` items.
pub open spec fn method_at(items: Seq<HirItem>, n: nat) -> Map<Symbol, (usize, usize)>
    decreases n,
{
    if n == 0 || n > items.len() {
        Map::empty()
    } else {
        let m = method_at(items, (n - 1) as nat);
        match items[n - 1] {
            HirItem::Impl(imp) => methods_into(m, imp.methods@, (n - 1) as usize, imp.methods@.len()),
            _ => m,
        }
    }
}

/// The impl block `imp` is for a generic type: it has type parameters, or the struct
/// or enum of its target (wherever it stands among `items`) has.
pub open spec fn generic_target(items: Seq<HirItem>, imp: HirImplDef) -> bool {
    let sm = struct_at(items, items.len());
    let em = enum_at(items, items.len());
    ||| sm.contains_key(imp.target_name) && items[sm[imp.target_name] as int]->Struct_0.type_params@.len() > 0
    ||| em.contains_key(imp.target_name) && items[em[imp.target_name] as int]->Enum_0.type_params@.len() > 0
    ||| imp.type_params@.len() > 0
}

/// The names of the first `k` methods of `ms`.
pub open spec fn method_names(ms: Seq<HirFn>, k: nat) -> Set<Symbol> {
    Set::new(|x: Symbol| exists|j: int| 0 <= j < k && j < ms.len() && (#[trigger] ms[j]).name == x)
}

/// Names of the methods of impl blocks for generic types among the first `n` items.
pub open spec fn generic_methods(items: Seq<HirItem>, n: nat) -> Set<Symbol>
    decreases n,
{
    if n == 0 || n > items.len() {
        Set::empty()
    } else {
        let s = generic_methods(items, (n - 1) as nat);
        match items[n - 1] {
            HirItem::Impl(imp) => if generic_target(items, imp) {
                s.union(method_names(imp.methods@, imp.methods@.len()))
            } else {
                s
            },
            _ => s,
        }
    }
}

/// Lookup tables over the items of a program, built in one pass. A later definition
/// of a name replaces an earlier one.
pub struct MonoIndex<'a> {
    hir: &'a Hir,
    structs: Vec<(Symbol, usize)>,
    enums: Vec<(Symbol, usize)>,
    fns: Vec<(Symbol, usize)>,
    impl_methods: Vec<(Symbol, (usize, usize))>,
    impls: Vec<(Symbol, usize)>,
    needs_specialization: Vec<Symbol>,
}

/// Every entry points at a struct item of its name.
pub open spec fn struct_entries_ok(items: Seq<HirItem>, v: Seq<(Symbol, usize)>) -> bool {
    forall|k: int| 0 <= k < v.len() ==> (#[trigger] v[k]).1 < items.len()
        && items[v[k].1 as int] is Struct && items[v[k].1 as int]->Struct_0.name == v[k].0
}

/// Every entry points at an enum item of its name.
pub open spec fn enum_entries_ok(items: Seq<HirItem>, v: Seq<(Symbol, usize)>) -> bool {
    forall|k: int| 0 <= k < v.len() ==> (#[trigger] v[k]).1 < items.len()
        && items[v[k].1 as int] is Enum && items[v[k].1 as int]->Enum_0.name == v[k].0
}

/// Every entry points at a function item of its name.
pub open spec fn fn_entries_ok(items: Seq<HirItem>, v: Seq<(Symbol, usize)>) -> bool {
    forall|k: int| 0 <= k < v.len() ==> (#[trigger] v[k]).1 < items.len()
        && items[v[k].1 as int] is Fn && items[v[k].1 as int]->Fn_0.name == v[k].0
}

/// Every entry points at an impl item for its target name.
pub open spec fn impl_entries_ok(items: Seq<HirItem>, v: Seq<(Symbol, usize)>) -> bool {
    forall|k: int| 0 <= k < v.len() ==> (#[trigger] v[k]).1 < items.len()
        && items[v[k].1 as int] is Impl && items[v[k].1 as int]->Impl_0.target_name == v[k].0
}

/// Every entry points at a method of its name inside an impl item.
pub open spec fn method_entries_ok(items: Seq<HirItem>, v: Seq<(Symbol, (usize, usize))>) -> bool {
    forall|k: int| 0 <= k < v.len() ==> {
        let e = #[trigger] v[k];
        &&& e.1.0 < items.len()
        &&& items[e.1.0 as int] is Impl
        &&& e.1.1 < items[e.1.0 as int]->Impl_0.methods@.len()
        &&& items[e.1.0 as int]->Impl_0.methods@[e.1.1 as int].name == e.0
    }
}

/// The method at `(i, j)` of `items`.
pub open spec fn method_of(items: Seq<HirItem>, p: (usize, usize)) -> HirFn {
    items[p.0 as int]->Impl_0.methods@[p.1 as int]
}

impl<'a> MonoIndex<'a> {
    /// The items that the index was built over.
    pub closed spec fn items(&self) -> Seq<HirItem> {
        self.hir.items@
    }

    #[verifier::type_invariant]
    spec fn inv(&self) -> bool {
        let items = self.hir.items@;
        let n = items.len();
        &&& assoc_keys_unique(self.structs@) && assoc_map(self.structs@) == struct_at(items, n)
        &&& assoc_keys_unique(self.enums@) && assoc_map(self.enums@) == enum_at(items, n)
        &&& assoc_keys_unique(self.fns@) && assoc_map(self.fns@) == fn_at(items, n)
        &&& assoc_keys_unique(self.impls@) && assoc_map(self.impls@) == impl_at(items, n)
        &&& assoc_keys_unique(self.impl_methods@) && assoc_map(self.impl_methods@) == method_at(items, n)
        &&& self.needs_specialization@.no_duplicates()
        &&& self.needs_specialization@.to_set() == generic_methods(items, n)
        &&& struct_entries_ok(items, self.structs@)
        &&& enum_entries_ok(items, self.enums@)
        &&& fn_entries_ok(items, self.fns@)
        &&& impl_entries_ok(items, self.impls@)
        &&& method_entries_ok(items, self.impl_methods@)
    }

    /// Builds the index over the items of `hir`.
    pub fn build(hir: &'a Hir) -> (r: MonoIndex<'a>)
        ensures
            r.items() == hir.items@,
    {
        let ghost items = hir.items@;
        let mut structs: Vec<(Symbol, usize)> = Vec::new();
        let mut enums: Vec<(Symbol, usize)> = Vec::new();
        let mut fns: Vec<(Symbol, usize)> = Vec::new();
        let mut impl_methods: Vec<(Symbol, (usize, usize))> = Vec::new();
        let mut impls: Vec<(Symbol, usize)> = Vec::new();
        let mut needs: Vec<Symbol> = Vec::new();
        proof {
            assert(assoc_map(structs@) =~= struct_at(items, 0));
            assert(assoc_map(enums@) =~= enum_at(items, 0));
            assert(assoc_map(fns@) =~= fn_at(items, 0));
            assert(assoc_map(impls@) =~= impl_at(items, 0));
            assert(assoc_map(impl_methods@) =~= method_at(items, 0));
            assert(needs@.to_set() =~= generic_methods(items, 0));
        }
        let mut i: usize = 0;
        while i < hir.items.len()
            invariant
                items == hir.items@,
                0 <= i <= items.len(),
                assoc_keys_unique(structs@) && assoc_map(structs@) == struct_at(items, i as nat),
                assoc_keys_unique(enums@) && assoc_map(enums@) == enum_at(items, i as nat),
                struct_entries_ok(items, structs@),
                enum_entries_ok(items, enums@),
            decreases items.len() - i,
        {
            match &hir.items[i] {
                HirItem::Struct(s) => {
                    let ghost v0 = structs@;
                    assoc_upsert(&mut structs, s.name, i);
                    proof {
                        assert forall|k: int| 0 <= k < structs@.len() implies (#[trigger] structs@[k]).1 < items.len()
                            && items[structs@[k].1 as int] is Struct && items[structs@[k].1 as int]->Struct_0.name == structs@[k].0 by {
                            if k < v0.len() && v0[k].0 != s.name {
                                assert(structs@[k] == v0[k]);
                            } else {
                                assert(structs@[k] == (s.name, i));
                                assert(items[i as int] == HirItem::Struct(*s));
                            }
                        }
                    }
                },
                HirItem::Enum(e) => {
                    let ghost v0 = enums@;
                    assoc_upsert(&mut enums, e.name, i);
                    proof {
                        assert forall|k: int| 0 <= k < enums@.len() implies (#[trigger] enums@[k]).1 < items.len()
                            && items[enums@[k].1 as int] is Enum && items[enums@[k].1 as int]->Enum_0.name == enums@[k].0 by {
                            if k < v0.len() && v0[k].0 != e.name {
                                assert(enums@[k] == v0[k]);
                            } else {
                                assert(enums@[k] == (e.name, i));
                                assert(items[i as int] == HirItem::Enum(*e));
                            }
                        }
                    }
                },
                _ => {},
            }
            i = i + 1;
        }
        let mut i: usize = 0;
        while i < hir.items.len()
            invariant
                items == hir.items@,
                0 <= i <= items.len(),
                assoc_keys_unique(structs@) && assoc_map(structs@) == struct_at(items, items.len()),
                assoc_keys_unique(enums@) && assoc_map(enums@) == enum_at(items, items.len()),
                assoc_keys_unique(fns@) && assoc_map(fns@) == fn_at(items, i as nat),
                assoc_keys_unique(impls@) && assoc_map(impls@) == impl_at(items, i as nat),
                assoc_keys_unique(impl_methods@) && assoc_map(impl_methods@) == method_at(items, i as nat),
                needs@.no_duplicates(),
                needs@.to_set() == generic_methods(items, i as nat),
                struct_entries_ok(items, structs@),
                enum_entries_ok(items, enums@),
                fn_entries_ok(items, fns@),
                impl_entries_ok(items, impls@),
                method_entries_ok(items, impl_methods@),
            decreases items.len() - i,
        {
            let ghost before = i as nat;
            match &hir.items[i] {
                HirItem::Struct(_) | HirItem::Enum(_) => {},
                HirItem::Fn(f) => {
                    let ghost v0 = fns@;
                    assoc_upsert(&mut fns, f.name, i);
                    proof {
                        assert forall|k: int| 0 <= k < fns@.len() implies (#[trigger] fns@[k]).1 < items.len()
                            && items[fns@[k].1 as int] is Fn && items[fns@[k].1 as int]->Fn_0.name == fns@[k].0 by {
                            if k < v0.len() && v0[k].0 != f.name {
                                assert(fns@[k] == v0[k]);
                            } else {
                                assert(fns@[k] == (f.name, i));
                                assert(items[i as int] == HirItem::Fn(*f));
                            }
                        }
                    }
                },
                HirItem::Impl(imp) => {
                    proof {
                        lemma_assoc_map(structs@);
                        lemma_assoc_map(enums@);
                        assert forall|x: Symbol| #[trigger] assoc_map(structs@).contains_key(x) implies assoc_map(structs@)[x] < items.len() by {
                            let w = choose|w: int| 0 <= w < structs@.len() && structs@[w].0 == x;
                            assert(structs@[w].1 < items.len());
                        }
                        assert forall|x: Symbol| #[trigger] assoc_map(enums@).contains_key(x) implies assoc_map(enums@)[x] < items.len() by {
                            let w = choose|w: int| 0 <= w < enums@.len() && enums@[w].0 == x;
                            assert(enums@[w].1 < items.len());
                        }
                    }
                    let generic_struct = match assoc_find(&structs, imp.target_name) {
                        Some(k) => match &hir.items[k] {
                            HirItem::Struct(sd) => sd.type_params.len() > 0,
                            _ => false,
                        },
                        None => false,
                    };
                    let generic_enum = match assoc_find(&enums, imp.target_name) {
                        Some(k) => match &hir.items[k] {
                            HirItem::Enum(ed) => ed.type_params.len() > 0,
                            _ => false,
                        },
                        None => false,
                    };
                    let is_generic_target = generic_struct || generic_enum || imp.type_params.len() > 0;
                    assert(is_generic_target == generic_target(items, *imp));
                    let ghost m0 = method_at(items, before);
                    let ghost g0 = generic_methods(items, before);
                    let mut j: usize = 0;
                    while j < imp.methods.len()
                        invariant
                            items == hir.items@,
                            i < items.len(),
                            items[i as int] == HirItem::Impl(*imp),
                            0 <= j <= imp.methods@.len(),
                            assoc_keys_unique(impl_methods@),
                            assoc_map(impl_methods@) == methods_into(m0, imp.methods@, i, j as nat),
                            method_entries_ok(items, impl_methods@),
                            needs@.no_duplicates(),
                            is_generic_target ==> needs@.to_set() == g0.union(method_names(imp.methods@, j as nat)),
                            !is_generic_target ==> needs@.to_set() == g0,
                        decreases imp.methods@.len() - j,
                    {
                        let name = imp.methods[j].name;
                        let ghost v0 = impl_methods@;
                        assoc_upsert(&mut impl_methods, name, (i, j));
                        proof {
                            assert forall|k: int| 0 <= k < impl_methods@.len() implies {
                                let e = #[trigger] impl_methods@[k];
                                &&& e.1.0 < items.len()
                                &&& items[e.1.0 as int] is Impl
                                &&& e.1.1 < items[e.1.0 as int]->Impl_0.methods@.len()
                                &&& items[e.1.0 as int]->Impl_0.methods@[e.1.1 as int].name == e.0
                            } by {
                                if k < v0.len() && v0[k].0 != name {
                                    assert(impl_methods@[k] == v0[k]);
                                } else {
                                    assert(impl_methods@[k] == (name, (i, j)));
                                    assert(imp.methods@[j as int].name == name);
                                }
                            }
                        }
                        if is_generic_target {
                            let ghost n0 = needs@;
                            if !vec_contains_sym(&needs, name) {
                                needs.push(name);
                                proof {
                                    assert(needs@.no_duplicates()) by {
                                        assert forall|a: int, b: int| 0 <= a < b < needs@.len() implies needs@[a] != needs@[b] by {
                                            if b == n0.len() {
                                                assert(needs@[a] == n0[a]);
                                            }
                                        }
                                    }
                                    assert(needs@ == n0.push(name));
                                    assert forall|x: Symbol| needs@.to_set().contains(x) <==> n0.to_set().insert(name).contains(x) by {
                                        if needs@.contains(x) {
                                            let w = choose|w: int| 0 <= w < needs@.len() && needs@[w] == x;
                                            if w < n0.len() {
                                                assert(n0[w] == x);
                                            }
                                        }
                                        if n0.contains(x) {
                                            let w = choose|w: int| 0 <= w < n0.len() && n0[w] == x;
                                            assert(needs@[w] == x);
                                        }
                                        if x == name {
                                            assert(needs@[n0.len() as int] == x);
                                        }
                                    }
                                    assert(needs@.to_set() =~= n0.to_set().insert(name));
                                }
                            } else {
                                proof {
                                    assert(n0.to_set().contains(name));
                                }
                            }
                            proof {
                                assert(needs@.to_set() =~= g0.union(method_names(imp.methods@, (j + 1) as nat))) by {
                                    assert forall|x: Symbol| method_names(imp.methods@, (j + 1) as nat).contains(x)
                                        <==> (method_names(imp.methods@, j as nat).contains(x) || x == name) by {
                                        if method_names(imp.methods@, (j + 1) as nat).contains(x) {
                                            let w = choose|w: int| 0 <= w < j + 1 && w < imp.methods@.len() && (#[trigger] imp.methods@[w]).name == x;
                                            if w < j {
                                                assert(method_names(imp.methods@, j as nat).contains(x));
                                            }
                                        }
                                        if x == name {
                                            assert(imp.methods@[j as int].name == x);
                                        }
                                        if method_names(imp.methods@, j as nat).contains(x) {
                                            let w = choose|w: int| 0 <= w < j && w < imp.methods@.len() && (#[trigger] imp.methods@[w]).name == x;
                                            assert(imp.methods@[w].name == x);
                                        }
                                    }
                                }
                            }
                        }
                        j = j + 1;
                    }
                    proof {
                        if is_generic_target {
                            assert(generic_methods(items, before + 1) == g0.union(method_names(imp.methods@, imp.methods@.len())));
                        }
                    }
                    let ghost v0 = impls@;
                    assoc_upsert(&mut impls, imp.target_name, i);
                    proof {
                        assert forall|k: int| 0 <= k < impls@.len() implies (#[trigger] impls@[k]).1 < items.len()
                            && items[impls@[k].1 as int] is Impl && items[impls@[k].1 as int]->Impl_0.target_name == impls@[k].0 by {
                            if k < v0.len() && v0[k].0 != imp.target_name {
                                assert(impls@[k] == v0[k]);
                            }
                        }
                    }
                },
                HirItem::Extern(_) => {},
            }
            i = i + 1;
        }
        MonoIndex { hir, structs, enums, fns, impl_methods, impls, needs_specialization: needs }
    }
}

impl<'a> MonoIndex<'a> {
    /// The last struct of the given name.
    pub open spec fn struct_named(&self, name: Symbol) -> Option<StructDef> {
        let m = struct_at(self.items(), self.items().len());
        if m.contains_key(name) { Some(self.items()[m[name] as int]->Struct_0) } else { None }
    }

    /// The last enum of the given name.
    pub open spec fn enum_named(&self, name: Symbol) -> Option<EnumDef> {
        let m = enum_at(self.items(), self.items().len());
        if m.contains_key(name) { Some(self.items()[m[name] as int]->Enum_0) } else { None }
    }

    /// The last impl block for the given target type.
    pub open spec fn impl_named(&self, name: Symbol) -> Option<HirImplDef> {
        let m = impl_at(self.items(), self.items().len());
        if m.contains_key(name) { Some(self.items()[m[name] as int]->Impl_0) } else { None }
    }

    /// The last top-level function of the given name, else the last impl method of it.
    pub open spec fn fn_named(&self, name: Symbol) -> Option<HirFn> {
        let f = fn_at(self.items(), self.items().len());
        let m = method_at(self.items(), self.items().len());
        if f.contains_key(name) {
            Some(self.items()[f[name] as int]->Fn_0)
        } else if m.contains_key(name) {
            Some(method_of(self.items(), m[name]))
        } else {
            None
        }
    }

    /// Looks up a struct definition by name.
    pub fn find_struct(&self, name: Symbol) -> (r: Option<&'a StructDef>)
        ensures
            match r {
                Some(s) => self.struct_named(name) == Some(*s),
                None => self.struct_named(name) is None,
            },
    {
        proof {
            use_type_invariant(self);
            lemma_assoc_map(self.structs@);
        }
        let hir: &'a Hir = self.hir;
        match assoc_find(&self.structs, name) {
            Some(k) => {
                proof {
                    let w = choose|w: int| 0 <= w < self.structs@.len() && self.structs@[w].0 == name;
                    assert(self.structs@[w].1 == k);
                }
                match &hir.items[k] {
                    HirItem::Struct(sd) => Some(sd),
                    _ => None,
                }
            },
            None => None,
        }
    }

    /// Looks up an enum definition by name.
    pub fn find_enum(&self, name: Symbol) -> (r: Option<&'a EnumDef>)
        ensures
            match r {
                Some(e) => self.enum_named(name) == Some(*e),
                None => self.enum_named(name) is None,
            },
    {
        proof {
            use_type_invariant(self);
            lemma_assoc_map(self.enums@);
        }
        let hir: &'a Hir = self.hir;
        match assoc_find(&self.enums, name) {
            Some(k) => {
                proof {
                    let w = choose|w: int| 0 <= w < self.enums@.len() && self.enums@[w].0 == name;
                    assert(self.enums@[w].1 == k);
                }
                match &hir.items[k] {
                    HirItem::Enum(ed) => Some(ed),
                    _ => None,
                }
            },
            None => None,
        }
    }

    /// Looks up a function by name: top-level functions first, then impl methods.
    pub fn find_fn(&self, name: Symbol) -> (r: Option<&'a HirFn>)
        ensures
            match r {
                Some(f) => self.fn_named(name) == Some(*f),
                None => self.fn_named(name) is None,
            },
    {
        proof {
            use_type_invariant(self);
            lemma_assoc_map(self.fns@);
            lemma_assoc_map(self.impl_methods@);
        }
        let hir: &'a Hir = self.hir;
        match assoc_find(&self.fns, name) {
            Some(k) => {
                proof {
                    let w = choose|w: int| 0 <= w < self.fns@.len() && self.fns@[w].0 == name;
                    assert(self.fns@[w].1 == k);
                }
                match &hir.items[k] {
                    HirItem::Fn(f) => Some(f),
                    _ => None,
                }
            },
            None => match assoc_find(&self.impl_methods, name) {
                Some(p) => {
                    proof {
                        let w = choose|w: int| 0 <= w < self.impl_methods@.len() && self.impl_methods@[w].0 == name;
                        assert(self.impl_methods@[w].1 == p);
                    }
                    match &hir.items[p.0] {
                        HirItem::Impl(imp) => Some(&imp.methods[p.1]),
                        _ => None,
                    }
                },
                None => None,
            },
        }
    }

    /// Looks up an impl block by the name of its target type.
    pub fn find_impl(&self, target: Symbol) -> (r: Option<&'a HirImplDef>)
        ensures
            match r {
                Some(imp) => self.impl_named(target) == Some(*imp),
                None => self.impl_named(target) is None,
            },
    {
        proof {
            use_type_invariant(self);
            lemma_assoc_map(self.impls@);
        }
        let hir: &'a Hir = self.hir;
        match assoc_find(&self.impls, target) {
            Some(k) => {
                proof {
                    let w = choose|w: int| 0 <= w < self.impls@.len() && self.impls@[w].0 == target;
                    assert(self.impls@[w].1 == k);
                }
                match &hir.items[k] {
                    HirItem::Impl(imp) => Some(imp),
                    _ => None,
                }
            },
            None => None,
        }
    }

    /// The function needs specialization: it has type parameters of its own, or it is
    /// a method of an impl block for a generic type.
    pub fn is_generic_fn(&self, name: Symbol) -> (r: bool)
        ensures
            r == ((self.fn_named(name) matches Some(f) && f.type_params@.len() > 0)
                || generic_methods(self.items(), self.items().len()).contains(name)),
    {
        proof {
            use_type_invariant(self);
        }
        let own = match self.find_fn(name) {
            Some(f) => f.type_params.len() > 0,
            None => false,
        };
        own || vec_contains_sym(&self.needs_specialization, name)
    }

    /// The named struct exists and has type parameters.
    pub fn is_generic_struct(&self, name: Symbol) -> (r: bool)
        ensures
            r == (self.struct_named(name) matches Some(s) && s.type_params@.len() > 0),
    {
        match self.find_struct(name) {
            Some(s) => s.type_params.len() > 0,
            None => false,
        }
    }

    /// The named enum exists and has type parameters.
    pub fn is_generic_enum(&self, name: Symbol) -> (r: bool)
        ensures
            r == (self.enum_named(name) matches Some(e) && e.type_params@.len() > 0),
    {
        match self.find_enum(name) {
            Some(e) => e.type_params.len() > 0,
            None => false,
        }
    }

    /// The names of all top-level functions, each once.
    pub fn fn_names(&self) -> (r: Vec<Symbol>)
        ensures
            r@.no_duplicates(),
            r@.to_set() == fn_at(self.items(), self.items().len()).dom(),
    {
        proof {
            use_type_invariant(self);
        }
        let r = assoc_keys(&self.fns);
        proof {
            lemma_keys_set(self.fns@, r@);
        }
        r
    }

    /// The names of all impl methods, each once.
    pub fn impl_method_names(&self) -> (r: Vec<Symbol>)
        ensures
            r@.no_duplicates(),
            r@.to_set() == method_at(self.items(), self.items().len()).dom(),
    {
        proof {
            use_type_invariant(self);
        }
        let r = assoc_keys(&self.impl_methods);
        proof {
            lemma_keys_set(self.impl_methods@, r@);
        }
        r
    }

    /// The names of all structs, each once.
    pub fn struct_names(&self) -> (r: Vec<Symbol>)
        ensures
            r@.no_duplicates(),
            r@.to_set() == struct_at(self.items(), self.items().len()).dom(),
    {
        proof {
            use_type_invariant(self);
        }
        let r = assoc_keys(&self.structs);
        proof {
            lemma_keys_set(self.structs@, r@);
        }
        r
    }

    /// The names of all enums, each once.
    pub fn enum_names(&self) -> (r: Vec<Symbol>)
        ensures
            r@.no_duplicates(),
            r@.to_set() == enum_at(self.items(), self.items().len()).dom(),
    {
        proof {
            use_type_invariant(self);
        }
        let r = assoc_keys(&self.enums);
        proof {
            lemma_keys_set(self.enums@, r@);
        }
        r
    }
}

/// The keys of a list of entries with unique keys are the domain of its map, each once.
proof fn lemma_keys_set<V>(v: Seq<(Symbol, V)>, keys: Seq<Symbol>)
    requires
        assoc_keys_unique(v),
        keys.len() == v.len(),
        forall|i: int| 0 <= i < v.len() ==> keys[i] == v[i].0,
    ensures
        keys.no_duplicates(),
        keys.to_set() == assoc_map(v).dom(),
{
    lemma_assoc_map(v);
    assert forall|x: Symbol| keys.to_set().contains(x) <==> assoc_map(v).dom().contains(x) by {
        if keys.contains(x) {
            let w = choose|w: int| 0 <= w < keys.len() && keys[w] == x;
            assert(assoc_map(v).contains_key(v[w].0));
        }
        if assoc_map(v).contains_key(x) {
            let w = choose|w: int| 0 <= w < v.len() && v[w].0 == x;
            assert(keys[w] == x);
        }
    }
    assert(keys.to_set() =~= assoc_map(v).dom());
}

/// `v` holds `x`.
fn vec_contains_sym(v: &Vec<Symbol>, x: Symbol) -> (r: bool)
    ensures
        r == v@.contains(x),
{
    let mut i: usize = 0;
    while i < v.len()
        invariant
            0 <= i <= v@.len(),
            forall|j: int| 0 <= j < i ==> v@[j] != x,
        decreases v@.len() - i,
    {
        if v[i] == x {
            assert(v@[i as int] == x);
            return true;
        }
        i = i + 1;
    }
    false
}

} // verus!
