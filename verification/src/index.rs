use vstd::prelude::*;
use crate::assoc::{assoc_find, assoc_keys_unique, assoc_map, assoc_upsert, lemma_assoc_map};
use crate::item::{EnumDef, ExternFn, Hir, HirImplDef, HirItem, HirVariant, StructDef, StructField};
use crate::node::HirFn;
use crate::symbol::Symbol;
use crate::types::{copy_type, copy_types, ty_eq, tys_eq, HirType};

verus! {

broadcast use vstd::std_specs::vec::group_vec_axioms;

/// Why an index could not be built: a name declared twice.
#[derive(Clone, Copy, Debug, PartialEq, Eq, Structural)]
pub enum IndexError {
    DuplicateStruct { name: Symbol },
    DuplicateEnum { name: Symbol },
    DuplicateFn { name: Symbol },
    DuplicateMethod { target: Symbol, method: Symbol },
}

/// What scanning items has seen: struct names, enum names, function names (impl methods
/// included) and, per impl target, its method names.
pub open spec fn empty_scan() -> (Set<Symbol>, Set<Symbol>, Set<Symbol>, Map<Symbol, Set<Symbol>>) {
    (Set::empty(), Set::empty(), Set::empty(), Map::empty())
}

/// The method names recorded for `target`.
pub open spec fn methods_of(m: Map<Symbol, Set<Symbol>>, target: Symbol) -> Set<Symbol> {
    if m.contains_key(target) { m[target] } else { Set::empty() }
}

/// Records the names of the first `k` methods for one target, failing on the first name
/// recorded before.
pub open spec fn record_methods(ms: Seq<HirFn>, seen: Set<Symbol>, target: Symbol, k: nat) -> Result<Set<Symbol>, IndexError>
    decreases k,
{
    if k == 0 || k > ms.len() {
        Ok(seen)
    } else {
        match record_methods(ms, seen, target, (k - 1) as nat) {
            Err(e) => Err(e),
            Ok(s) => if s.contains(ms[k - 1].name) {
                Err(IndexError::DuplicateMethod { target, method: ms[k - 1].name })
            } else {
                Ok(s.insert(ms[k - 1].name))
            },
        }
    }
}

/// Registers the first `k` methods as functions, failing on the first name registered
/// before.
pub open spec fn record_fns(ms: Seq<HirFn>, fns: Set<Symbol>, k: nat) -> Result<Set<Symbol>, IndexError>
    decreases k,
{
    if k == 0 || k > ms.len() {
        Ok(fns)
    } else {
        match record_fns(ms, fns, (k - 1) as nat) {
            Err(e) => Err(e),
            Ok(s) => if s.contains(ms[k - 1].name) {
                Err(IndexError::DuplicateFn { name: ms[k - 1].name })
            } else {
                Ok(s.insert(ms[k - 1].name))
            },
        }
    }
}

/// Scans one item: a second struct, enum or function of a name is an error, and so is a
/// second method of a name for the same impl target.
pub open spec fn scan_item(
    st: (Set<Symbol>, Set<Symbol>, Set<Symbol>, Map<Symbol, Set<Symbol>>),
    item: HirItem,
) -> Result<(Set<Symbol>, Set<Symbol>, Set<Symbol>, Map<Symbol, Set<Symbol>>), IndexError> {
    match item {
        HirItem::Struct(s) => if st.0.contains(s.name) {
            Err(IndexError::DuplicateStruct { name: s.name })
        } else {
            Ok((st.0.insert(s.name), st.1, st.2, st.3))
        },
        HirItem::Enum(e) => if st.1.contains(e.name) {
            Err(IndexError::DuplicateEnum { name: e.name })
        } else {
            Ok((st.0, st.1.insert(e.name), st.2, st.3))
        },
        HirItem::Fn(f) => if st.2.contains(f.name) {
            Err(IndexError::DuplicateFn { name: f.name })
        } else {
            Ok((st.0, st.1, st.2.insert(f.name), st.3))
        },
        HirItem::Extern(_) => Ok(st),
        HirItem::Impl(imp) => match record_methods(imp.methods@, methods_of(st.3, imp.target_name), imp.target_name, imp.methods@.len()) {
            Err(e) => Err(e),
            Ok(ms) => match record_fns(imp.methods@, st.2, imp.methods@.len()) {
                Err(e) => Err(e),
                Ok(fs) => Ok((st.0, st.1, fs, st.3.insert(imp.target_name, ms))),
            },
        },
    }
}

/// Scans the first `n` items, stopping at the first error.
pub open spec fn scan(items: Seq<HirItem>, n: nat) -> Result<(Set<Symbol>, Set<Symbol>, Set<Symbol>, Map<Symbol, Set<Symbol>>), IndexError>
    decreases n,
{
    if n == 0 || n > items.len() {
        Ok(empty_scan())
    } else {
        match scan(items, (n - 1) as nat) {
            Err(e) => Err(e),
            Ok(st) => scan_item(st, items[n - 1]),
        }
    }
}

/// Name to last position among the first `n` fields.
pub open spec fn field_positions(fs: Seq<StructField>, n: nat) -> Map<Symbol, usize>
    decreases n,
{
    if n == 0 || n > fs.len() { Map::empty() } else { field_positions(fs, (n - 1) as nat).insert(fs[n - 1].name, (n - 1) as usize) }
}

/// Name to last position among the first `n` variants.
pub open spec fn variant_positions(vs: Seq<HirVariant>, n: nat) -> Map<Symbol, usize>
    decreases n,
{
    if n == 0 || n > vs.len() { Map::empty() } else { variant_positions(vs, (n - 1) as nat).insert(vs[n - 1].name, (n - 1) as usize) }
}

/// What the index knows of a struct.
pub struct StructInfo {
    pub name: Symbol,
    pub fields: Vec<(Symbol, HirType)>,
    pub field_map: Vec<(Symbol, usize)>,
    pub type_params: Vec<Symbol>,
}

/// What the index knows of an enum.
pub struct EnumInfo {
    pub name: Symbol,
    pub variants: Vec<HirVariant>,
    pub variant_map: Vec<(Symbol, usize)>,
    pub type_params: Vec<Symbol>,
}

/// What the index knows of a function.
pub struct FnInfo {
    pub name: Symbol,
    pub type_params: Vec<Symbol>,
    pub params: Vec<(Symbol, HirType)>,
    pub ret: Option<HirType>,
    pub is_generic: bool,
}

/// `info` records the struct `s`: its name, type parameters, fields (types compared
/// structurally) and the position of each field name.
pub open spec fn struct_describes(info: StructInfo, s: StructDef) -> bool {
    &&& info.name == s.name
    &&& info.type_params@ == s.type_params@
    &&& info.fields@.len() == s.fields@.len()
    &&& forall|i: int| 0 <= i < s.fields@.len() ==> (#[trigger] info.fields@[i]).0 == s.fields@[i].name
        && ty_eq(info.fields@[i].1, s.fields@[i].ty)
    &&& assoc_keys_unique(info.field_map@)
    &&& assoc_map(info.field_map@) == field_positions(s.fields@, s.fields@.len())
}

/// Two variants agree: name, tag, doc, and fields (types compared structurally).
pub open spec fn variant_eq(a: HirVariant, b: HirVariant) -> bool {
    &&& a.name == b.name
    &&& a.tag == b.tag
    &&& a.doc == b.doc
    &&& a.fields@.len() == b.fields@.len()
    &&& forall|i: int| 0 <= i < a.fields@.len() ==> (#[trigger] a.fields@[i]).name == b.fields@[i].name
        && a.fields@[i].doc == b.fields@[i].doc && ty_eq(a.fields@[i].ty, b.fields@[i].ty)
}

/// `info` records the enum `e`: its name, type parameters, variants and the position of
/// each variant name.
pub open spec fn enum_describes(info: EnumInfo, e: EnumDef) -> bool {
    &&& info.name == e.name
    &&& info.type_params@ == e.type_params@
    &&& info.variants@.len() == e.variants@.len()
    &&& forall|i: int| 0 <= i < e.variants@.len() ==> variant_eq(#[trigger] info.variants@[i], e.variants@[i])
    &&& assoc_keys_unique(info.variant_map@)
    &&& assoc_map(info.variant_map@) == variant_positions(e.variants@, e.variants@.len())
}

/// `info` records the function `f`: its name, type parameters, parameters and return type
/// (types compared structurally), and whether it is generic.
pub open spec fn fn_describes(info: FnInfo, f: HirFn) -> bool {
    &&& info.name == f.name
    &&& info.type_params@ == f.type_params@
    &&& info.params@.len() == f.params@.len()
    &&& forall|i: int| 0 <= i < f.params@.len() ==> (#[trigger] info.params@[i]).0 == f.params@[i].0
        && ty_eq(info.params@[i].1, f.params@[i].1)
    &&& match f.ret {
        Some(t) => info.ret matches Some(u) && ty_eq(u, t),
        None => info.ret is None,
    }
    &&& info.is_generic == (f.type_params@.len() > 0)
}

/// A function of the program, top-level or impl method, that `info` records.
pub open spec fn fn_in_items(info: FnInfo, items: Seq<HirItem>) -> bool {
    ||| exists|i: int| 0 <= i < items.len() && items[i] is Fn && #[trigger] fn_describes(info, items[i]->Fn_0)
    ||| exists|i: int, j: int| 0 <= i < items.len() && items[i] is Impl && 0 <= j < items[i]->Impl_0.methods@.len()
        && #[trigger] fn_describes(info, items[i]->Impl_0.methods@[j])
}

/// A struct of the program that `info` records.
pub open spec fn struct_in_items(info: StructInfo, items: Seq<HirItem>) -> bool {
    exists|j: int| 0 <= j < items.len() && items[j] is Struct && #[trigger] struct_describes(info, items[j]->Struct_0)
}

/// An enum of the program that `info` records.
pub open spec fn enum_in_items(info: EnumInfo, items: Seq<HirItem>) -> bool {
    exists|j: int| 0 <= j < items.len() && items[j] is Enum && #[trigger] enum_describes(info, items[j]->Enum_0)
}

/// Copies a list of symbols.
fn copy_syms(v: &Vec<Symbol>) -> (r: Vec<Symbol>)
    ensures
        r@ == v@,
{
    let mut out: Vec<Symbol> = Vec::new();
    let mut i: usize = 0;
    while i < v.len()
        invariant
            0 <= i <= v@.len(),
            out@ == v@.subrange(0, i as int),
        decreases v@.len() - i,
    {
        out.push(v[i]);
        assert(out@ =~= v@.subrange(0, i as int + 1));
        i = i + 1;
    }
    assert(v@.subrange(0, v@.len() as int) =~= v@);
    out
}

/// The index's record of a struct.
fn struct_info(s: &StructDef) -> (r: StructInfo)
    ensures
        struct_describes(r, *s),
{
    let mut fields: Vec<(Symbol, HirType)> = Vec::new();
    let mut field_map: Vec<(Symbol, usize)> = Vec::new();
    let mut i: usize = 0;
    assert(assoc_map(field_map@) =~= field_positions(s.fields@, 0));
    while i < s.fields.len()
        invariant
            0 <= i <= s.fields@.len(),
            fields@.len() == i,
            forall|k: int| 0 <= k < i ==> (#[trigger] fields@[k]).0 == s.fields@[k].name && ty_eq(fields@[k].1, s.fields@[k].ty),
            assoc_keys_unique(field_map@),
            assoc_map(field_map@) == field_positions(s.fields@, i as nat),
        decreases s.fields@.len() - i,
    {
        let f = &s.fields[i];
        fields.push((f.name, copy_type(&f.ty)));
        assoc_upsert(&mut field_map, f.name, i);
        i = i + 1;
    }
    StructInfo { name: s.name, fields, field_map, type_params: copy_syms(&s.type_params) }
}

/// A copy of a variant.
fn copy_variant(v: &HirVariant) -> (r: HirVariant)
    ensures
        variant_eq(r, *v),
{
    let mut fields: Vec<StructField> = Vec::new();
    let mut i: usize = 0;
    while i < v.fields.len()
        invariant
            0 <= i <= v.fields@.len(),
            fields@.len() == i,
            forall|k: int| 0 <= k < i ==> (#[trigger] fields@[k]).name == v.fields@[k].name
                && fields@[k].doc == v.fields@[k].doc && ty_eq(fields@[k].ty, v.fields@[k].ty),
        decreases v.fields@.len() - i,
    {
        let f = &v.fields[i];
        let doc = match &f.doc {
            Some(d) => Some(d.clone()),
            None => None,
        };
        fields.push(StructField { name: f.name, ty: copy_type(&f.ty), doc });
        i = i + 1;
    }
    let doc = match &v.doc {
        Some(d) => Some(d.clone()),
        None => None,
    };
    HirVariant { name: v.name, fields, tag: v.tag, doc }
}

/// The index's record of an enum.
fn enum_info(e: &EnumDef) -> (r: EnumInfo)
    ensures
        enum_describes(r, *e),
{
    let mut variants: Vec<HirVariant> = Vec::new();
    let mut variant_map: Vec<(Symbol, usize)> = Vec::new();
    let mut i: usize = 0;
    assert(assoc_map(variant_map@) =~= variant_positions(e.variants@, 0));
    while i < e.variants.len()
        invariant
            0 <= i <= e.variants@.len(),
            variants@.len() == i,
            forall|k: int| 0 <= k < i ==> variant_eq(#[trigger] variants@[k], e.variants@[k]),
            assoc_keys_unique(variant_map@),
            assoc_map(variant_map@) == variant_positions(e.variants@, i as nat),
        decreases e.variants@.len() - i,
    {
        let v = &e.variants[i];
        variants.push(copy_variant(v));
        assoc_upsert(&mut variant_map, v.name, i);
        i = i + 1;
    }
    EnumInfo { name: e.name, variants, variant_map, type_params: copy_syms(&e.type_params) }
}

/// The index's record of a function.
fn fn_info(f: &HirFn) -> (r: FnInfo)
    ensures
        fn_describes(r, *f),
{
    let mut params: Vec<(Symbol, HirType)> = Vec::new();
    let mut i: usize = 0;
    while i < f.params.len()
        invariant
            0 <= i <= f.params@.len(),
            params@.len() == i,
            forall|k: int| 0 <= k < i ==> (#[trigger] params@[k]).0 == f.params@[k].0 && ty_eq(params@[k].1, f.params@[k].1),
        decreases f.params@.len() - i,
    {
        params.push((f.params[i].0, copy_type(&f.params[i].1)));
        i = i + 1;
    }
    let ret = match &f.ret {
        Some(t) => Some(copy_type(t)),
        None => None,
    };
    FnInfo { name: f.name, type_params: copy_syms(&f.type_params), params, ret, is_generic: f.type_params.len() > 0 }
}

/// An index of a program's declarations, each name declared once.
pub struct HirIndex {
    structs: Vec<StructInfo>,
    enums: Vec<EnumInfo>,
    fns: Vec<FnInfo>,
    impl_methods: Vec<(Symbol, Vec<Symbol>)>,
}

/// The names of the first `n` records.
pub open spec fn struct_names(v: Seq<StructInfo>) -> Set<Symbol> {
    Set::new(|x: Symbol| exists|k: int| 0 <= k < v.len() && (#[trigger] v[k]).name == x)
}

/// The names of the records.
pub open spec fn enum_names(v: Seq<EnumInfo>) -> Set<Symbol> {
    Set::new(|x: Symbol| exists|k: int| 0 <= k < v.len() && (#[trigger] v[k]).name == x)
}

/// The names of the records.
pub open spec fn fn_names(v: Seq<FnInfo>) -> Set<Symbol> {
    Set::new(|x: Symbol| exists|k: int| 0 <= k < v.len() && (#[trigger] v[k]).name == x)
}

/// The method sets per target.
pub open spec fn method_sets(v: Seq<(Symbol, Vec<Symbol>)>) -> Map<Symbol, Set<Symbol>> {
    assoc_map(v).map_values(|ms: Vec<Symbol>| ms@.to_set())
}

impl HirIndex {
    /// The struct records.
    pub closed spec fn structs(&self) -> Seq<StructInfo> {
        self.structs@
    }

    /// The enum records.
    pub closed spec fn enums(&self) -> Seq<EnumInfo> {
        self.enums@
    }

    /// The function records, impl methods included.
    pub closed spec fn fns(&self) -> Seq<FnInfo> {
        self.fns@
    }

    /// The method names of each impl target.
    pub closed spec fn methods(&self) -> Map<Symbol, Set<Symbol>> {
        method_sets(self.impl_methods@)
    }

    #[verifier::type_invariant]
    spec fn inv(&self) -> bool {
        &&& forall|a: int, b: int| 0 <= a < b < self.structs@.len() ==> #[trigger] self.structs@[a].name != #[trigger] self.structs@[b].name
        &&& forall|a: int, b: int| 0 <= a < b < self.enums@.len() ==> #[trigger] self.enums@[a].name != #[trigger] self.enums@[b].name
        &&& forall|a: int, b: int| 0 <= a < b < self.fns@.len() ==> #[trigger] self.fns@[a].name != #[trigger] self.fns@[b].name
        &&& assoc_keys_unique(self.impl_methods@)
        &&& forall|k: int| 0 <= k < self.impl_methods@.len() ==> (#[trigger] self.impl_methods@[k]).1@.no_duplicates()
    }
}

/// Whether a struct record of the name exists.
fn has_struct(v: &Vec<StructInfo>, name: Symbol) -> (r: bool)
    ensures
        r == struct_names(v@).contains(name),
{
    let mut i: usize = 0;
    while i < v.len()
        invariant
            0 <= i <= v@.len(),
            forall|k: int| 0 <= k < i ==> v@[k].name != name,
        decreases v@.len() - i,
    {
        if v[i].name == name {
            assert(v@[i as int].name == name);
            return true;
        }
        i = i + 1;
    }
    false
}

/// Whether an enum record of the name exists.
fn has_enum(v: &Vec<EnumInfo>, name: Symbol) -> (r: bool)
    ensures
        r == enum_names(v@).contains(name),
{
    let mut i: usize = 0;
    while i < v.len()
        invariant
            0 <= i <= v@.len(),
            forall|k: int| 0 <= k < i ==> v@[k].name != name,
        decreases v@.len() - i,
    {
        if v[i].name == name {
            assert(v@[i as int].name == name);
            return true;
        }
        i = i + 1;
    }
    false
}

/// The position of the function record of the name, if any.
fn find_fn_pos(v: &Vec<FnInfo>, name: Symbol) -> (r: Option<usize>)
    ensures
        match r {
            Some(k) => k < v@.len() && v@[k as int].name == name,
            None => !fn_names(v@).contains(name),
        },
{
    let mut i: usize = 0;
    while i < v.len()
        invariant
            0 <= i <= v@.len(),
            forall|k: int| 0 <= k < i ==> v@[k].name != name,
        decreases v@.len() - i,
    {
        if v[i].name == name {
            return Some(i);
        }
        i = i + 1;
    }
    None
}

/// Whether `v` holds `x`.
fn syms_contain(v: &Vec<Symbol>, x: Symbol) -> (r: bool)
    ensures
        r == v@.contains(x),
{
    let mut i: usize = 0;
    while i < v.len()
        invariant
            0 <= i <= v@.len(),
            forall|k: int| 0 <= k < i ==> v@[k] != x,
        decreases v@.len() - i,
    {
        if v[i] == x {
            assert(v@[i as int] == x);
            return true;
        }
        i = i + 1;
    }
    false
}

/// Adding a fresh name to a record list adds it to the names.
proof fn lemma_push_name<T>(names: Set<Symbol>, x: Symbol)
    ensures
        names.insert(x).contains(x),
{
}

impl HirIndex {
    /// Builds the index, failing on the first name declared twice: a second struct, enum
    /// or function (impl methods count as functions) of a name, or a second method of a
    /// name for the same impl target; see `scan`.
    pub fn build(hir: &Hir) -> (r: Result<HirIndex, IndexError>)
        ensures
            match r {
                Err(e) => scan(hir.items@, hir.items@.len()) == Err::<(Set<Symbol>, Set<Symbol>, Set<Symbol>, Map<Symbol, Set<Symbol>>), IndexError>(e),
                Ok(idx) => scan(hir.items@, hir.items@.len()) == Ok::<(Set<Symbol>, Set<Symbol>, Set<Symbol>, Map<Symbol, Set<Symbol>>), IndexError>(
                        (struct_names(idx.structs()), enum_names(idx.enums()), fn_names(idx.fns()), idx.methods()))
                    && (forall|k: int| 0 <= k < idx.structs().len() ==> #[trigger] struct_in_items(idx.structs()[k], hir.items@))
                    && (forall|k: int| 0 <= k < idx.enums().len() ==> #[trigger] enum_in_items(idx.enums()[k], hir.items@))
                    && (forall|k: int| 0 <= k < idx.fns().len() ==> #[trigger] fn_in_items(idx.fns()[k], hir.items@)),
            },
    {
        let ghost items = hir.items@;
        let mut structs: Vec<StructInfo> = Vec::new();
        let mut enums: Vec<EnumInfo> = Vec::new();
        let mut fns: Vec<FnInfo> = Vec::new();
        let mut impl_methods: Vec<(Symbol, Vec<Symbol>)> = Vec::new();
        proof {
            assert(struct_names(structs@) =~= Set::empty());
            assert(enum_names(enums@) =~= Set::empty());
            assert(fn_names(fns@) =~= Set::empty());
            assert(method_sets(impl_methods@) =~= Map::empty());
        }
        let mut i: usize = 0;
        while i < hir.items.len()
            invariant
                items == hir.items@,
                0 <= i <= items.len(),
                scan(items, i as nat) == Ok::<(Set<Symbol>, Set<Symbol>, Set<Symbol>, Map<Symbol, Set<Symbol>>), IndexError>(
                    (struct_names(structs@), enum_names(enums@), fn_names(fns@), method_sets(impl_methods@))),
                forall|a: int, b: int| 0 <= a < b < structs@.len() ==> #[trigger] structs@[a].name != #[trigger] structs@[b].name,
                forall|a: int, b: int| 0 <= a < b < enums@.len() ==> #[trigger] enums@[a].name != #[trigger] enums@[b].name,
                forall|a: int, b: int| 0 <= a < b < fns@.len() ==> #[trigger] fns@[a].name != #[trigger] fns@[b].name,
                assoc_keys_unique(impl_methods@),
                forall|k: int| 0 <= k < impl_methods@.len() ==> (#[trigger] impl_methods@[k]).1@.no_duplicates(),
                forall|k: int| 0 <= k < structs@.len() ==> #[trigger] struct_in_items(structs@[k], items),
                forall|k: int| 0 <= k < enums@.len() ==> #[trigger] enum_in_items(enums@[k], items),
                forall|k: int| 0 <= k < fns@.len() ==> #[trigger] fn_in_items(fns@[k], items),
            decreases items.len() - i,
        {
            let ghost st = (struct_names(structs@), enum_names(enums@), fn_names(fns@), method_sets(impl_methods@));
            match &hir.items[i] {
                HirItem::Struct(sd) => {
                    if has_struct(&structs, sd.name) {
                        proof {
                            lemma_scan_err(items, (i + 1) as nat, items.len(), IndexError::DuplicateStruct { name: sd.name });
                        }
                        return Err(IndexError::DuplicateStruct { name: sd.name });
                    }
                    let ghost old_v = structs@;
                    structs.push(struct_info(sd));
                    proof {
                        assert(struct_names(structs@) =~= struct_names(old_v).insert(sd.name)) by {
                            assert forall|x: Symbol| struct_names(structs@).contains(x) <==> struct_names(old_v).insert(sd.name).contains(x) by {
                                if struct_names(structs@).contains(x) {
                                    let k = choose|k: int| 0 <= k < structs@.len() && (#[trigger] structs@[k]).name == x;
                                    if k < old_v.len() {
                                        assert(old_v[k].name == x);
                                    }
                                }
                                if struct_names(old_v).contains(x) {
                                    let k = choose|k: int| 0 <= k < old_v.len() && (#[trigger] old_v[k]).name == x;
                                    assert(structs@[k].name == x);
                                }
                                if x == sd.name {
                                    assert(structs@[old_v.len() as int].name == x);
                                }
                            }
                        }
                        assert forall|a: int, b: int| 0 <= a < b < structs@.len() implies #[trigger] structs@[a].name != #[trigger] structs@[b].name by {
                            if b == old_v.len() {
                                assert(old_v[a].name == structs@[a].name);
                            }
                        }
                        assert forall|k: int| 0 <= k < structs@.len() implies #[trigger] struct_in_items(structs@[k], items) by {
                            if k == old_v.len() {
                                assert(items[i as int] is Struct && struct_describes(structs@[k], items[i as int]->Struct_0));
                            } else {
                                assert(structs@[k] == old_v[k]);
                            }
                        }
                    }
                },
                HirItem::Enum(ed) => {
                    if has_enum(&enums, ed.name) {
                        proof {
                            lemma_scan_err(items, (i + 1) as nat, items.len(), IndexError::DuplicateEnum { name: ed.name });
                        }
                        return Err(IndexError::DuplicateEnum { name: ed.name });
                    }
                    let ghost old_v = enums@;
                    enums.push(enum_info(ed));
                    proof {
                        assert(enum_names(enums@) =~= enum_names(old_v).insert(ed.name)) by {
                            assert forall|x: Symbol| enum_names(enums@).contains(x) <==> enum_names(old_v).insert(ed.name).contains(x) by {
                                if enum_names(enums@).contains(x) {
                                    let k = choose|k: int| 0 <= k < enums@.len() && (#[trigger] enums@[k]).name == x;
                                    if k < old_v.len() {
                                        assert(old_v[k].name == x);
                                    }
                                }
                                if enum_names(old_v).contains(x) {
                                    let k = choose|k: int| 0 <= k < old_v.len() && (#[trigger] old_v[k]).name == x;
                                    assert(enums@[k].name == x);
                                }
                                if x == ed.name {
                                    assert(enums@[old_v.len() as int].name == x);
                                }
                            }
                        }
                        assert forall|a: int, b: int| 0 <= a < b < enums@.len() implies #[trigger] enums@[a].name != #[trigger] enums@[b].name by {
                            if b == old_v.len() {
                                assert(old_v[a].name == enums@[a].name);
                            }
                        }
                        assert forall|k: int| 0 <= k < enums@.len() implies #[trigger] enum_in_items(enums@[k], items) by {
                            if k == old_v.len() {
                                assert(items[i as int] is Enum && enum_describes(enums@[k], items[i as int]->Enum_0));
                            } else {
                                assert(enums@[k] == old_v[k]);
                            }
                        }
                    }
                },
                HirItem::Fn(f) => {
                    if find_fn_pos(&fns, f.name).is_some() {
                        proof {
                            let k = choose|k: int| 0 <= k < fns@.len() && fns@[k].name == f.name;
                            assert(fn_names(fns@).contains(f.name));
                            lemma_scan_err(items, (i + 1) as nat, items.len(), IndexError::DuplicateFn { name: f.name });
                        }
                        return Err(IndexError::DuplicateFn { name: f.name });
                    }
                    let ghost old_v = fns@;
                    fns.push(fn_info(f));
                    proof {
                        lemma_fn_push(old_v, fns@, f.name);
                        assert forall|k: int| 0 <= k < fns@.len() implies #[trigger] fn_in_items(fns@[k], items) by {
                            if k == old_v.len() {
                                assert(items[i as int] is Fn && fn_describes(fns@[k], items[i as int]->Fn_0));
                            } else {
                                assert(fns@[k] == old_v[k]);
                            }
                        }
                    }
                },
                HirItem::Extern(_) => {},
                HirItem::Impl(imp) => {
                    let existing = find_methods(&impl_methods, imp.target_name);
                    let mut list: Vec<Symbol> = existing;
                    let ghost seen0 = methods_of(st.3, imp.target_name);
                    proof {
                        lemma_methods_of(impl_methods@, imp.target_name);
                    }
                    let mut j: usize = 0;
                    while j < imp.methods.len()
                        invariant
                            0 <= j <= imp.methods@.len(),
                            items == hir.items@,
                            i < items.len(),
                            items[i as int] == HirItem::Impl(*imp),
                            scan(items, i as nat) == Ok::<(Set<Symbol>, Set<Symbol>, Set<Symbol>, Map<Symbol, Set<Symbol>>), IndexError>(st),
                            seen0 == methods_of(st.3, imp.target_name),
                            list@.no_duplicates(),
                            record_methods(imp.methods@, seen0, imp.target_name, j as nat) == Ok::<Set<Symbol>, IndexError>(list@.to_set()),
                        decreases imp.methods@.len() - j,
                    {
                        let name = imp.methods[j].name;
                        if syms_contain(&list, name) {
                            proof {
                                let e = IndexError::DuplicateMethod { target: imp.target_name, method: name };
                                lemma_record_methods_err(imp.methods@, seen0, imp.target_name, (j + 1) as nat, imp.methods@.len(), e);
                                lemma_scan_err(items, (i + 1) as nat, items.len(), e);
                            }
                            return Err(IndexError::DuplicateMethod { target: imp.target_name, method: name });
                        }
                        let ghost l0 = list@;
                        list.push(name);
                        proof {
                            lemma_push_fresh(l0, name);
                        }
                        j = j + 1;
                    }
                    let ghost fns0 = fns@;
                    let mut k: usize = 0;
                    while k < imp.methods.len()
                        invariant
                            0 <= k <= imp.methods@.len(),
                            items == hir.items@,
                            i < items.len(),
                            items[i as int] == HirItem::Impl(*imp),
                            scan(items, i as nat) == Ok::<(Set<Symbol>, Set<Symbol>, Set<Symbol>, Map<Symbol, Set<Symbol>>), IndexError>(st),
                            seen0 == methods_of(st.3, imp.target_name),
                            st.2 == fn_names(fns0),
                            record_methods(imp.methods@, seen0, imp.target_name, imp.methods@.len()) == Ok::<Set<Symbol>, IndexError>(list@.to_set()),
                            record_fns(imp.methods@, fn_names(fns0), k as nat) == Ok::<Set<Symbol>, IndexError>(fn_names(fns@)),
                            forall|a: int, b: int| 0 <= a < b < fns@.len() ==> #[trigger] fns@[a].name != #[trigger] fns@[b].name,
                            forall|q: int| 0 <= q < fns@.len() ==> #[trigger] fn_in_items(fns@[q], items),
                        decreases imp.methods@.len() - k,
                    {
                        let m = &imp.methods[k];
                        if find_fn_pos(&fns, m.name).is_some() {
                            proof {
                                assert(fn_names(fns@).contains(m.name));
                                let e = IndexError::DuplicateFn { name: m.name };
                                lemma_record_fns_err(imp.methods@, fn_names(fns0), (k + 1) as nat, imp.methods@.len(), e);
                                lemma_scan_err(items, (i + 1) as nat, items.len(), e);
                            }
                            return Err(IndexError::DuplicateFn { name: m.name });
                        }
                        let ghost old_v = fns@;
                        fns.push(fn_info(m));
                        proof {
                            lemma_fn_push(old_v, fns@, m.name);
                            assert forall|q: int| 0 <= q < fns@.len() implies #[trigger] fn_in_items(fns@[q], items) by {
                                if q == old_v.len() {
                                    assert(items[i as int] is Impl && fn_describes(fns@[q], items[i as int]->Impl_0.methods@[k as int]));
                                } else {
                                    assert(fns@[q] == old_v[q]);
                                }
                            }
                        }
                        k = k + 1;
                    }
                    let ghost im0 = impl_methods@;
                    let ghost lset = list@.to_set();
                    assoc_upsert(&mut impl_methods, imp.target_name, list);
                    proof {
                        assert(method_sets(impl_methods@) =~= method_sets(im0).insert(imp.target_name, lset));
                        assert forall|q: int| 0 <= q < impl_methods@.len() implies (#[trigger] impl_methods@[q]).1@.no_duplicates() by {
                            if q < im0.len() && im0[q].0 != imp.target_name {
                                assert(impl_methods@[q] == im0[q]);
                            }
                        }
                    }
                },
            }
            i = i + 1;
        }
        Ok(HirIndex { structs, enums, fns, impl_methods })
    }
}

/// Once scanning fails, scanning more items fails the same way.
proof fn lemma_scan_err(items: Seq<HirItem>, n: nat, m: nat, e: IndexError)
    requires
        n <= m <= items.len(),
        scan(items, n) == Err::<(Set<Symbol>, Set<Symbol>, Set<Symbol>, Map<Symbol, Set<Symbol>>), IndexError>(e),
    ensures
        scan(items, m) == Err::<(Set<Symbol>, Set<Symbol>, Set<Symbol>, Map<Symbol, Set<Symbol>>), IndexError>(e),
    decreases m,
{
    if n < m {
        lemma_scan_err(items, n, (m - 1) as nat, e);
    }
}

/// Once recording methods fails, recording more fails the same way.
proof fn lemma_record_methods_err(ms: Seq<HirFn>, seen: Set<Symbol>, t: Symbol, n: nat, m: nat, e: IndexError)
    requires
        n <= m <= ms.len(),
        record_methods(ms, seen, t, n) == Err::<Set<Symbol>, IndexError>(e),
    ensures
        record_methods(ms, seen, t, m) == Err::<Set<Symbol>, IndexError>(e),
    decreases m,
{
    if n < m {
        lemma_record_methods_err(ms, seen, t, n, (m - 1) as nat, e);
    }
}

/// Once registering functions fails, registering more fails the same way.
proof fn lemma_record_fns_err(ms: Seq<HirFn>, fns: Set<Symbol>, n: nat, m: nat, e: IndexError)
    requires
        n <= m <= ms.len(),
        record_fns(ms, fns, n) == Err::<Set<Symbol>, IndexError>(e),
    ensures
        record_fns(ms, fns, m) == Err::<Set<Symbol>, IndexError>(e),
    decreases m,
{
    if n < m {
        lemma_record_fns_err(ms, fns, n, (m - 1) as nat, e);
    }
}

/// Pushing a record of a fresh name adds the name and keeps names distinct.
proof fn lemma_fn_push(old_v: Seq<FnInfo>, new_v: Seq<FnInfo>, x: Symbol)
    requires
        new_v.len() == old_v.len() + 1,
        forall|k: int| 0 <= k < old_v.len() ==> new_v[k] == old_v[k],
        new_v[old_v.len() as int].name == x,
        !fn_names(old_v).contains(x),
        forall|a: int, b: int| 0 <= a < b < old_v.len() ==> #[trigger] old_v[a].name != #[trigger] old_v[b].name,
    ensures
        fn_names(new_v) == fn_names(old_v).insert(x),
        forall|a: int, b: int| 0 <= a < b < new_v.len() ==> #[trigger] new_v[a].name != #[trigger] new_v[b].name,
{
    assert forall|y: Symbol| fn_names(new_v).contains(y) <==> fn_names(old_v).insert(x).contains(y) by {
        if fn_names(new_v).contains(y) {
            let k = choose|k: int| 0 <= k < new_v.len() && (#[trigger] new_v[k]).name == y;
            if k < old_v.len() {
                assert(old_v[k].name == y);
            }
        }
        if fn_names(old_v).contains(y) {
            let k = choose|k: int| 0 <= k < old_v.len() && (#[trigger] old_v[k]).name == y;
            assert(new_v[k].name == y);
        }
        if y == x {
            assert(new_v[old_v.len() as int].name == y);
        }
    }
    assert(fn_names(new_v) =~= fn_names(old_v).insert(x));
    assert forall|a: int, b: int| 0 <= a < b < new_v.len() implies #[trigger] new_v[a].name != #[trigger] new_v[b].name by {
        if b == old_v.len() {
            assert(fn_names(old_v).contains(old_v[a].name));
        } else {
            assert(new_v[a] == old_v[a] && new_v[b] == old_v[b]);
        }
    }
}

/// Pushing a fresh symbol keeps the list free of duplicates and inserts it into its set.
proof fn lemma_push_fresh(l0: Seq<Symbol>, x: Symbol)
    requires
        l0.no_duplicates(),
        !l0.contains(x),
    ensures
        l0.push(x).no_duplicates(),
        l0.push(x).to_set() == l0.to_set().insert(x),
{
    let l1 = l0.push(x);
    assert forall|a: int, b: int| 0 <= a < b < l1.len() implies l1[a] != l1[b] by {
        if b == l0.len() {
            assert(l0.contains(l0[a]));
        } else {
            assert(l1[a] == l0[a] && l1[b] == l0[b]);
        }
    }
    assert forall|y: Symbol| l1.to_set().contains(y) <==> l0.to_set().insert(x).contains(y) by {
        if l1.contains(y) {
            let w = choose|w: int| 0 <= w < l1.len() && l1[w] == y;
            if w < l0.len() {
                assert(l0[w] == y);
            }
        }
        if l0.contains(y) {
            let w = choose|w: int| 0 <= w < l0.len() && l0[w] == y;
            assert(l1[w] == y);
        }
        if y == x {
            assert(l1[l0.len() as int] == y);
        }
    }
    assert(l1.to_set() =~= l0.to_set().insert(x));
}

/// A copy of the method names recorded for `target`, or none.
fn find_methods(v: &Vec<(Symbol, Vec<Symbol>)>, target: Symbol) -> (r: Vec<Symbol>)
    requires
        assoc_keys_unique(v@),
        forall|k: int| 0 <= k < v@.len() ==> (#[trigger] v@[k]).1@.no_duplicates(),
    ensures
        r@.no_duplicates(),
        r@.to_set() == methods_of(method_sets(v@), target),
        assoc_map(v@).contains_key(target) ==> r@ == assoc_map(v@)[target]@,
        !assoc_map(v@).contains_key(target) ==> r@.len() == 0,
{
    proof {
        lemma_assoc_map(v@);
    }
    let mut i: usize = 0;
    while i < v.len()
        invariant
            0 <= i <= v@.len(),
            assoc_keys_unique(v@),
            forall|k: int| 0 <= k < v@.len() ==> (#[trigger] v@[k]).1@.no_duplicates(),
            forall|k: int| 0 <= k < i ==> v@[k].0 != target,
        decreases v@.len() - i,
    {
        if v[i].0 == target {
            proof {
                lemma_assoc_map(v@);
                assert(assoc_map(v@).contains_key(v@[i as int].0));
            }
            return copy_syms(&v[i].1);
        }
        i = i + 1;
    }
    proof {
        lemma_assoc_map(v@);
        if assoc_map(v@).contains_key(target) {
            let w = choose|w: int| 0 <= w < v@.len() && v@[w].0 == target;
        }
    }
    let r: Vec<Symbol> = Vec::new();
    assert(r@.to_set() =~= Set::<Symbol>::empty());
    r
}

/// The method set of a target is the set of its recorded list.
proof fn lemma_methods_of(v: Seq<(Symbol, Vec<Symbol>)>, target: Symbol)
    ensures
        assoc_map(v).contains_key(target) ==> methods_of(method_sets(v), target) == assoc_map(v)[target]@.to_set(),
        !assoc_map(v).contains_key(target) ==> methods_of(method_sets(v), target) == Set::<Symbol>::empty(),
{
}

impl HirIndex {
    /// The function record of the name: a top-level function or an impl method.
    pub fn find_fn(&self, name: Symbol) -> (r: Option<&FnInfo>)
        ensures
            r matches Some(info) ==> info.name == name && self.fns().contains(*info),
            r is None <==> !fn_names(self.fns()).contains(name),
    {
        match find_fn_pos(&self.fns, name) {
            Some(k) => Some(&self.fns[k]),
            None => None,
        }
    }

    /// The struct record of the name.
    pub fn find_struct(&self, name: Symbol) -> (r: Option<&StructInfo>)
        ensures
            r matches Some(info) ==> info.name == name && self.structs().contains(*info),
            r is None <==> !struct_names(self.structs()).contains(name),
    {
        let mut i: usize = 0;
        while i < self.structs.len()
            invariant
                0 <= i <= self.structs@.len(),
                forall|k: int| 0 <= k < i ==> self.structs@[k].name != name,
            decreases self.structs@.len() - i,
        {
            if self.structs[i].name == name {
                assert(self.structs@[i as int] == self.structs@[i as int]);
                return Some(&self.structs[i]);
            }
            i = i + 1;
        }
        None
    }

    /// The enum record of the name.
    pub fn find_enum(&self, name: Symbol) -> (r: Option<&EnumInfo>)
        ensures
            r matches Some(info) ==> info.name == name && self.enums().contains(*info),
            r is None <==> !enum_names(self.enums()).contains(name),
    {
        let mut i: usize = 0;
        while i < self.enums.len()
            invariant
                0 <= i <= self.enums@.len(),
                forall|k: int| 0 <= k < i ==> self.enums@[k].name != name,
            decreases self.enums@.len() - i,
        {
            if self.enums[i].name == name {
                return Some(&self.enums[i]);
            }
            i = i + 1;
        }
        None
    }

    /// The function record of a method declared in an impl block for the type.
    pub fn lookup_method(&self, target: Symbol, method_name: Symbol) -> (r: Option<&FnInfo>)
        ensures
            r matches Some(info) ==> info.name == method_name && self.fns().contains(*info),
            r is Some <==> methods_of(self.methods(), target).contains(method_name) && fn_names(self.fns()).contains(method_name),
    {
        proof {
            use_type_invariant(self);
            lemma_methods_of(self.impl_methods@, target);
        }
        let ms = find_methods(&self.impl_methods, target);
        if syms_contain(&ms, method_name) {
            self.find_fn(method_name)
        } else {
            None
        }
    }
}

} // verus!
