use vstd::prelude::*;
use crate::symbol::Symbol;

verus! {

broadcast use vstd::std_specs::vec::group_vec_axioms;

/// An inference variable, named by its index.
#[derive(Clone, Copy, PartialEq, Eq, PartialOrd, Ord, Debug, Hash, Structural)]
pub struct TypeVar(pub u32);

impl TypeVar {
    /// The variable of index `raw`, with no check that it was allocated.
    pub fn from_raw_unchecked(raw: u32) -> (r: TypeVar)
        ensures
            r.0 == raw,
    {
        TypeVar(raw)
    }

    /// The index of this variable.
    pub fn raw_index(&self) -> (r: u32)
        ensures
            r == self.0,
    {
        self.0
    }
}

/// The identity of an expression node.
#[derive(Clone, Copy, PartialEq, Eq, Debug, Hash, Structural)]
pub struct ExprId(pub u32);

impl ExprId {
    pub fn new(raw: u32) -> (r: ExprId)
        ensures
            r.0 == raw,
    {
        ExprId(raw)
    }

    /// The index of this id, for use as a position in a table of expression types.
    pub fn as_usize(&self) -> (r: usize)
        ensures
            r == self.0,
    {
        self.0 as usize
    }
}

/// A range of source positions.
#[derive(Clone, Copy, PartialEq, Eq, Debug, Hash, Structural)]
pub struct Span {
    pub start: usize,
    pub end: usize,
}

impl Span {
    pub fn new(start: usize, end: usize) -> (r: Span)
        ensures
            r.start == start,
            r.end == end,
    {
        Span { start, end }
    }
}

/// The types of the high-level IR.
#[derive(Debug, PartialEq, Eq, Hash, PartialOrd, Ord)]
pub enum HirType {
    Int,
    Bool,
    Float,
    Str,
    Unit,
    Never,
    Error,
    Named(Symbol),
    Generic(Symbol, Vec<HirType>),
    Tuple(Vec<HirType>),
    RawPtr(Box<HirType>),
    Option(Box<HirType>),
    Result(Box<HirType>, Box<HirType>),
    Func(Vec<HirType>, Box<HirType>),
    Opaque(Symbol),
    Param(Symbol),
    Infer(TypeVar),
}

/// The type has no component types.
pub open spec fn is_leaf_type(t: HirType) -> bool {
    match t {
        HirType::Generic(..) | HirType::Tuple(..) | HirType::RawPtr(..) | HirType::Option(..)
        | HirType::Result(..) | HirType::Func(..) => false,
        _ => true,
    }
}

/// Structural equality of types (what the derived `==` compares).
pub open spec fn ty_eq(a: HirType, b: HirType) -> bool
    decreases a,
{
    match a {
        HirType::Generic(s, xs) => (b matches HirType::Generic(t, ys) && s == t && tys_eq(xs, ys)),
        HirType::Tuple(xs) => (b matches HirType::Tuple(ys) && tys_eq(xs, ys)),
        HirType::RawPtr(x) => (b matches HirType::RawPtr(y) && ty_eq(*x, *y)),
        HirType::Option(x) => (b matches HirType::Option(y) && ty_eq(*x, *y)),
        HirType::Result(x, e) => (b matches HirType::Result(y, f) && ty_eq(*x, *y) && ty_eq(*e, *f)),
        HirType::Func(xs, r) => (b matches HirType::Func(ys, q) && tys_eq(xs, ys) && ty_eq(*r, *q)),
        _ => a == b,
    }
}

/// Element-wise structural equality of two lists of types.
pub open spec fn tys_eq(xs: Vec<HirType>, ys: Vec<HirType>) -> bool
    decreases xs,
{
    &&& xs@.len() == ys@.len()
    &&& forall|i: int| 0 <= i < xs@.len() ==> ty_eq(#[trigger] xs@[i], ys@[i])
}

/// Element-wise structural equality of two sequences of types.
pub open spec fn ty_seq_eq(xs: Seq<HirType>, ys: Seq<HirType>) -> bool {
    &&& xs.len() == ys.len()
    &&& forall|i: int| 0 <= i < xs.len() ==> ty_eq(#[trigger] xs[i], ys[i])
}

/// Structural equality is reflexive.
pub proof fn lemma_ty_eq_refl(a: HirType)
    ensures
        ty_eq(a, a),
    decreases a,
{
    match a {
        HirType::Generic(_, xs) => {
            assert forall|i: int| 0 <= i < xs@.len() implies ty_eq(#[trigger] xs@[i], xs@[i]) by {
                assert(decreases_to!(a => a->Generic_1));
                lemma_ty_eq_refl(xs@[i]);
            }
            assert(tys_eq(xs, xs));
        },
        HirType::Tuple(xs) => {
            assert forall|i: int| 0 <= i < xs@.len() implies ty_eq(#[trigger] xs@[i], xs@[i]) by {
                assert(decreases_to!(a => a->Tuple_0));
                lemma_ty_eq_refl(xs@[i]);
            }
            assert(tys_eq(xs, xs));
        },
        HirType::RawPtr(x) => lemma_ty_eq_refl(*x),
        HirType::Option(x) => lemma_ty_eq_refl(*x),
        HirType::Result(x, e) => {
            lemma_ty_eq_refl(*x);
            lemma_ty_eq_refl(*e);
        },
        HirType::Func(xs, r) => {
            assert forall|i: int| 0 <= i < xs@.len() implies ty_eq(#[trigger] xs@[i], xs@[i]) by {
                assert(decreases_to!(a => a->Func_0));
                lemma_ty_eq_refl(xs@[i]);
            }
            assert(tys_eq(xs, xs));
            lemma_ty_eq_refl(*r);
        },
        _ => {},
    }
}

/// Structural equality is symmetric.
pub proof fn lemma_ty_eq_symm(a: HirType, b: HirType)
    requires
        ty_eq(a, b),
    ensures
        ty_eq(b, a),
    decreases a,
{
    match a {
        HirType::Generic(_, xs) => {
            if let HirType::Generic(_, ys) = b {
                assert(tys_eq(xs, ys));
                assert forall|i: int| 0 <= i < ys@.len() implies ty_eq(#[trigger] ys@[i], xs@[i]) by {
                    assert(decreases_to!(a => a->Generic_1));
                    lemma_ty_eq_symm(xs@[i], ys@[i]);
                }
                assert(tys_eq(ys, xs));
            }
        },
        HirType::Tuple(xs) => {
            if let HirType::Tuple(ys) = b {
                assert(tys_eq(xs, ys));
                assert forall|i: int| 0 <= i < ys@.len() implies ty_eq(#[trigger] ys@[i], xs@[i]) by {
                    assert(decreases_to!(a => a->Tuple_0));
                    lemma_ty_eq_symm(xs@[i], ys@[i]);
                }
                assert(tys_eq(ys, xs));
            }
        },
        HirType::RawPtr(x) => {
            if let HirType::RawPtr(y) = b {
                lemma_ty_eq_symm(*x, *y);
            }
        },
        HirType::Option(x) => {
            if let HirType::Option(y) = b {
                lemma_ty_eq_symm(*x, *y);
            }
        },
        HirType::Result(x, e) => {
            if let HirType::Result(y, f) = b {
                lemma_ty_eq_symm(*x, *y);
                lemma_ty_eq_symm(*e, *f);
            }
        },
        HirType::Func(xs, r) => {
            if let HirType::Func(ys, q) = b {
                assert(tys_eq(xs, ys));
                assert forall|i: int| 0 <= i < ys@.len() implies ty_eq(#[trigger] ys@[i], xs@[i]) by {
                    assert(decreases_to!(a => a->Func_0));
                    lemma_ty_eq_symm(xs@[i], ys@[i]);
                }
                assert(tys_eq(ys, xs));
                lemma_ty_eq_symm(*r, *q);
            }
        },
        _ => {},
    }
}

/// Structural equality is transitive.
pub proof fn lemma_ty_eq_trans(a: HirType, b: HirType, c: HirType)
    requires
        ty_eq(a, b),
        ty_eq(b, c),
    ensures
        ty_eq(a, c),
    decreases a,
{
    match a {
        HirType::Generic(_, xs) => {
            if let HirType::Generic(_, ys) = b {
                if let HirType::Generic(_, zs) = c {
                    assert(tys_eq(xs, ys) && tys_eq(ys, zs));
                    assert forall|i: int| 0 <= i < xs@.len() implies ty_eq(#[trigger] xs@[i], zs@[i]) by {
                        assert(decreases_to!(a => a->Generic_1));
                        lemma_ty_eq_trans(xs@[i], ys@[i], zs@[i]);
                    }
                    assert(tys_eq(xs, zs));
                }
            }
        },
        HirType::Tuple(xs) => {
            if let HirType::Tuple(ys) = b {
                if let HirType::Tuple(zs) = c {
                    assert(tys_eq(xs, ys) && tys_eq(ys, zs));
                    assert forall|i: int| 0 <= i < xs@.len() implies ty_eq(#[trigger] xs@[i], zs@[i]) by {
                        assert(decreases_to!(a => a->Tuple_0));
                        lemma_ty_eq_trans(xs@[i], ys@[i], zs@[i]);
                    }
                    assert(tys_eq(xs, zs));
                }
            }
        },
        HirType::RawPtr(x) => {
            if let HirType::RawPtr(y) = b {
                if let HirType::RawPtr(z) = c {
                    lemma_ty_eq_trans(*x, *y, *z);
                }
            }
        },
        HirType::Option(x) => {
            if let HirType::Option(y) = b {
                if let HirType::Option(z) = c {
                    lemma_ty_eq_trans(*x, *y, *z);
                }
            }
        },
        HirType::Result(x, e) => {
            if let HirType::Result(y, f) = b {
                if let HirType::Result(z, g) = c {
                    lemma_ty_eq_trans(*x, *y, *z);
                    lemma_ty_eq_trans(*e, *f, *g);
                }
            }
        },
        HirType::Func(xs, r) => {
            if let HirType::Func(ys, q) = b {
                if let HirType::Func(zs, p) = c {
                    assert(tys_eq(xs, ys) && tys_eq(ys, zs));
                    assert forall|i: int| 0 <= i < xs@.len() implies ty_eq(#[trigger] xs@[i], zs@[i]) by {
                        assert(decreases_to!(a => a->Func_0));
                        lemma_ty_eq_trans(xs@[i], ys@[i], zs@[i]);
                    }
                    assert(tys_eq(xs, zs));
                    lemma_ty_eq_trans(*r, *q, *p);
                }
            }
        },
        _ => {},
    }
}

/// Element-wise equality of type lists is symmetric.
pub proof fn lemma_tys_eq_symm(xs: Vec<HirType>, ys: Vec<HirType>)
    requires
        tys_eq(xs, ys),
    ensures
        tys_eq(ys, xs),
{
    assert forall|i: int| 0 <= i < ys@.len() implies ty_eq(#[trigger] ys@[i], xs@[i]) by {
        lemma_ty_eq_symm(xs@[i], ys@[i]);
    }
}

/// Element-wise equality of type lists is transitive.
pub proof fn lemma_tys_eq_trans(xs: Vec<HirType>, ys: Vec<HirType>, zs: Vec<HirType>)
    requires
        tys_eq(xs, ys),
        tys_eq(ys, zs),
    ensures
        tys_eq(xs, zs),
{
    assert forall|i: int| 0 <= i < xs@.len() implies ty_eq(#[trigger] xs@[i], zs@[i]) by {
        lemma_ty_eq_trans(xs@[i], ys@[i], zs@[i]);
    }
}

/// Structural equality of two types, decided.
pub fn type_eq(a: &HirType, b: &HirType) -> (r: bool)
    ensures
        r == ty_eq(*a, *b),
    decreases a,
{
    match (a, b) {
        (HirType::Generic(s, xs), HirType::Generic(t, ys)) => {
            proof { assert(decreases_to!(*a => (*a)->Generic_1)); }
            *s == *t && type_list_eq(xs, ys)
        },
        (HirType::Tuple(xs), HirType::Tuple(ys)) => {
            proof { assert(decreases_to!(*a => (*a)->Tuple_0)); }
            type_list_eq(xs, ys)
        },
        (HirType::RawPtr(x), HirType::RawPtr(y)) => type_eq(x, y),
        (HirType::Option(x), HirType::Option(y)) => type_eq(x, y),
        (HirType::Result(x, e), HirType::Result(y, f)) => type_eq(x, y) && type_eq(e, f),
        (HirType::Func(xs, r), HirType::Func(ys, q)) => {
            proof { assert(decreases_to!(*a => (*a)->Func_0)); }
            type_list_eq(xs, ys) && type_eq(r, q)
        },
        (HirType::Int, HirType::Int) => true,
        (HirType::Bool, HirType::Bool) => true,
        (HirType::Float, HirType::Float) => true,
        (HirType::Str, HirType::Str) => true,
        (HirType::Unit, HirType::Unit) => true,
        (HirType::Never, HirType::Never) => true,
        (HirType::Error, HirType::Error) => true,
        (HirType::Named(s), HirType::Named(t)) => *s == *t,
        (HirType::Opaque(s), HirType::Opaque(t)) => *s == *t,
        (HirType::Param(s), HirType::Param(t)) => *s == *t,
        (HirType::Infer(s), HirType::Infer(t)) => *s == *t,
        _ => false,
    }
}

/// Element-wise structural equality of two lists of types, decided.
pub fn type_list_eq(xs: &Vec<HirType>, ys: &Vec<HirType>) -> (r: bool)
    ensures
        r == tys_eq(*xs, *ys),
    decreases xs,
{
    if xs.len() != ys.len() {
        return false;
    }
    let mut i: usize = 0;
    while i < xs.len()
        invariant
            0 <= i <= xs@.len(),
            xs@.len() == ys@.len(),
            forall|j: int| 0 <= j < i ==> ty_eq(#[trigger] xs@[j], ys@[j]),
        decreases xs@.len() - i,
    {
        proof { assert(decreases_to!(*xs => xs[i as int])); }
        if !type_eq(&xs[i], &ys[i]) {
            return false;
        }
        i = i + 1;
    }
    true
}

/// A structurally equal copy of a type.
pub fn copy_type(t: &HirType) -> (r: HirType)
    ensures
        ty_eq(r, *t),
    decreases t,
{
    match t {
        HirType::Generic(s, xs) => {
            proof { assert(decreases_to!(*t => (*t)->Generic_1)); }
            HirType::Generic(*s, copy_types(xs))
        },
        HirType::Tuple(xs) => {
            proof { assert(decreases_to!(*t => (*t)->Tuple_0)); }
            HirType::Tuple(copy_types(xs))
        },
        HirType::RawPtr(x) => HirType::RawPtr(Box::new(copy_type(x))),
        HirType::Option(x) => HirType::Option(Box::new(copy_type(x))),
        HirType::Result(x, e) => HirType::Result(Box::new(copy_type(x)), Box::new(copy_type(e))),
        HirType::Func(xs, r) => {
            proof { assert(decreases_to!(*t => (*t)->Func_0)); }
            HirType::Func(copy_types(xs), Box::new(copy_type(r)))
        },
        HirType::Int => HirType::Int,
        HirType::Bool => HirType::Bool,
        HirType::Float => HirType::Float,
        HirType::Str => HirType::Str,
        HirType::Unit => HirType::Unit,
        HirType::Never => HirType::Never,
        HirType::Error => HirType::Error,
        HirType::Named(s) => HirType::Named(*s),
        HirType::Opaque(s) => HirType::Opaque(*s),
        HirType::Param(s) => HirType::Param(*s),
        HirType::Infer(v) => HirType::Infer(*v),
    }
}

/// A structurally equal copy of a list of types.
pub fn copy_types(xs: &Vec<HirType>) -> (r: Vec<HirType>)
    ensures
        tys_eq(r, *xs),
    decreases xs,
{
    let mut out: Vec<HirType> = Vec::new();
    let mut i: usize = 0;
    while i < xs.len()
        invariant
            0 <= i <= xs@.len(),
            out@.len() == i,
            forall|j: int| 0 <= j < i ==> ty_eq(#[trigger] out@[j], xs@[j]),
        decreases xs@.len() - i,
    {
        proof { assert(decreases_to!(*xs => xs[i as int])); }
        out.push(copy_type(&xs[i]));
        i = i + 1;
    }
    out
}

/// Some node of `t` (including `t` itself) is a type parameter.
pub open spec fn mentions_param(t: HirType) -> bool
    decreases t,
{
    match t {
        HirType::Param(_) => true,
        HirType::Generic(_, xs) => exists|i: int| 0 <= i < xs@.len() && mentions_param(xs@[i]),
        HirType::Tuple(xs) => exists|i: int| 0 <= i < xs@.len() && mentions_param(xs@[i]),
        HirType::RawPtr(x) => mentions_param(*x),
        HirType::Option(x) => mentions_param(*x),
        HirType::Result(x, e) => mentions_param(*x) || mentions_param(*e),
        HirType::Func(xs, r) => (exists|i: int| 0 <= i < xs@.len() && mentions_param(xs@[i])) || mentions_param(*r),
        _ => false,
    }
}

/// Some node of `t` (including `t` itself) is an inference variable.
pub open spec fn mentions_infer(t: HirType) -> bool
    decreases t,
{
    match t {
        HirType::Infer(_) => true,
        HirType::Generic(_, xs) => exists|i: int| 0 <= i < xs@.len() && mentions_infer(xs@[i]),
        HirType::Tuple(xs) => exists|i: int| 0 <= i < xs@.len() && mentions_infer(xs@[i]),
        HirType::RawPtr(x) => mentions_infer(*x),
        HirType::Option(x) => mentions_infer(*x),
        HirType::Result(x, e) => mentions_infer(*x) || mentions_infer(*e),
        HirType::Func(xs, r) => (exists|i: int| 0 <= i < xs@.len() && mentions_infer(xs@[i])) || mentions_infer(*r),
        _ => false,
    }
}

impl HirType {
    /// The type mentions a type parameter somewhere.
    pub fn has_param(&self) -> (r: bool)
        ensures
            r == mentions_param(*self),
        decreases self,
    {
        match self {
            HirType::Param(_) => true,
            HirType::Generic(_, xs) => {
                proof { assert(decreases_to!(*self => (*self)->Generic_1)); }
                let mut i: usize = 0;
                while i < xs.len()
                    invariant
                        0 <= i <= xs@.len(),
                        *self == HirType::Generic(self->Generic_0, *xs),
                        forall|j: int| 0 <= j < i ==> !mentions_param(#[trigger] xs@[j]),
                    decreases xs@.len() - i,
                {
                    proof {
                        assert(decreases_to!(*self => (*self)->Generic_1));
                        assert(decreases_to!(*xs => xs[i as int]));
                    }
                    if xs[i].has_param() {
                        assert(mentions_param(xs@[i as int]));
                        assert(mentions_param(*self));
                        return true;
                    }
                    i = i + 1;
                }
                false
            },
            HirType::Tuple(xs) => {
                proof { assert(decreases_to!(*self => (*self)->Tuple_0)); }
                let mut i: usize = 0;
                while i < xs.len()
                    invariant
                        0 <= i <= xs@.len(),
                        *self == HirType::Tuple(*xs),
                        forall|j: int| 0 <= j < i ==> !mentions_param(#[trigger] xs@[j]),
                    decreases xs@.len() - i,
                {
                    proof {
                        assert(decreases_to!(*self => (*self)->Tuple_0));
                        assert(decreases_to!(*xs => xs[i as int]));
                    }
                    if xs[i].has_param() {
                        assert(mentions_param(xs@[i as int]));
                        assert(mentions_param(*self));
                        return true;
                    }
                    i = i + 1;
                }
                false
            },
            HirType::RawPtr(x) => x.has_param(),
            HirType::Option(x) => x.has_param(),
            HirType::Result(x, e) => x.has_param() || e.has_param(),
            HirType::Func(xs, r) => {
                proof { assert(decreases_to!(*self => (*self)->Func_0)); }
                let mut i: usize = 0;
                while i < xs.len()
                    invariant
                        0 <= i <= xs@.len(),
                        *self == HirType::Func(*xs, self->Func_1),
                        forall|j: int| 0 <= j < i ==> !mentions_param(#[trigger] xs@[j]),
                    decreases xs@.len() - i,
                {
                    proof {
                        assert(decreases_to!(*self => (*self)->Func_0));
                        assert(decreases_to!(*xs => xs[i as int]));
                    }
                    if xs[i].has_param() {
                        assert(mentions_param(xs@[i as int]));
                        assert(mentions_param(*self));
                        return true;
                    }
                    i = i + 1;
                }
                r.has_param()
            },
            _ => false,
        }
    }

    /// The type mentions an inference variable somewhere.
    pub fn has_infer(&self) -> (r: bool)
        ensures
            r == mentions_infer(*self),
        decreases self,
    {
        match self {
            HirType::Infer(_) => true,
            HirType::Generic(_, xs) => {
                proof { assert(decreases_to!(*self => (*self)->Generic_1)); }
                let mut i: usize = 0;
                while i < xs.len()
                    invariant
                        0 <= i <= xs@.len(),
                        *self == HirType::Generic(self->Generic_0, *xs),
                        forall|j: int| 0 <= j < i ==> !mentions_infer(#[trigger] xs@[j]),
                    decreases xs@.len() - i,
                {
                    proof {
                        assert(decreases_to!(*self => (*self)->Generic_1));
                        assert(decreases_to!(*xs => xs[i as int]));
                    }
                    if xs[i].has_infer() {
                        assert(mentions_infer(xs@[i as int]));
                        assert(mentions_infer(*self));
                        return true;
                    }
                    i = i + 1;
                }
                false
            },
            HirType::Tuple(xs) => {
                proof { assert(decreases_to!(*self => (*self)->Tuple_0)); }
                let mut i: usize = 0;
                while i < xs.len()
                    invariant
                        0 <= i <= xs@.len(),
                        *self == HirType::Tuple(*xs),
                        forall|j: int| 0 <= j < i ==> !mentions_infer(#[trigger] xs@[j]),
                    decreases xs@.len() - i,
                {
                    proof {
                        assert(decreases_to!(*self => (*self)->Tuple_0));
                        assert(decreases_to!(*xs => xs[i as int]));
                    }
                    if xs[i].has_infer() {
                        assert(mentions_infer(xs@[i as int]));
                        assert(mentions_infer(*self));
                        return true;
                    }
                    i = i + 1;
                }
                false
            },
            HirType::RawPtr(x) => x.has_infer(),
            HirType::Option(x) => x.has_infer(),
            HirType::Result(x, e) => x.has_infer() || e.has_infer(),
            HirType::Func(xs, r) => {
                proof { assert(decreases_to!(*self => (*self)->Func_0)); }
                let mut i: usize = 0;
                while i < xs.len()
                    invariant
                        0 <= i <= xs@.len(),
                        *self == HirType::Func(*xs, self->Func_1),
                        forall|j: int| 0 <= j < i ==> !mentions_infer(#[trigger] xs@[j]),
                    decreases xs@.len() - i,
                {
                    proof {
                        assert(decreases_to!(*self => (*self)->Func_0));
                        assert(decreases_to!(*xs => xs[i as int]));
                    }
                    if xs[i].has_infer() {
                        assert(mentions_infer(xs@[i as int]));
                        assert(mentions_infer(*self));
                        return true;
                    }
                    i = i + 1;
                }
                r.has_infer()
            },
            _ => false,
        }
    }
}

/// The map that a list of (parameter, type) bindings denotes; a later binding of a
/// parameter replaces an earlier one.
pub open spec fn bindings_map(s: Seq<(Symbol, HirType)>) -> Map<Symbol, HirType>
    decreases s.len(),
{
    if s.len() == 0 {
        Map::empty()
    } else {
        bindings_map(s.drop_last()).insert(s.last().0, s.last().1)
    }
}

/// No parameter is bound twice.
pub open spec fn keys_distinct(s: Seq<(Symbol, HirType)>) -> bool {
    forall|i: int, j: int| 0 <= i < j < s.len() ==> s[i].0 != s[j].0
}

/// With distinct keys, each binding is found in the map, nothing else is, and the
/// map has one entry per binding.
pub proof fn lemma_bindings_map(s: Seq<(Symbol, HirType)>)
    requires
        keys_distinct(s),
    ensures
        forall|i: int| 0 <= i < s.len() ==> #[trigger] bindings_map(s).contains_key(s[i].0) && bindings_map(s)[s[i].0] == s[i].1,
        forall|k: Symbol| bindings_map(s).contains_key(k) ==> exists|i: int| 0 <= i < s.len() && s[i].0 == k,
        bindings_map(s).dom().finite(),
        bindings_map(s).dom().len() == s.len(),
    decreases s.len(),
{
    if s.len() > 0 {
        let p = s.drop_last();
        assert(keys_distinct(p));
        lemma_bindings_map(p);
        let m = bindings_map(p);
        assert(!m.contains_key(s.last().0)) by {
            if m.contains_key(s.last().0) {
                let i = choose|i: int| 0 <= i < p.len() && p[i].0 == s.last().0;
                assert(s[i].0 == s[s.len() - 1].0);
            }
        }
        assert(bindings_map(s).dom() == m.dom().insert(s.last().0));
        assert forall|k: Symbol| bindings_map(s).contains_key(k) implies exists|i: int| 0 <= i < s.len() && s[i].0 == k by {
            if k != s.last().0 {
                let i = choose|i: int| 0 <= i < p.len() && p[i].0 == k;
                assert(s[i].0 == k);
            } else {
                assert(s[s.len() - 1].0 == k);
            }
        }
        assert forall|i: int| 0 <= i < s.len() implies #[trigger] bindings_map(s).contains_key(s[i].0) && bindings_map(s)[s[i].0] == s[i].1 by {
            if i < s.len() - 1 {
                assert(p[i] == s[i]);
            }
        }
    }
}

/// The first position of a binding of `k`, if any.
fn find_key(pairs: &Vec<(Symbol, HirType)>, k: &Symbol) -> (r: Option<usize>)
    ensures
        r matches Some(i) ==> i < pairs@.len() && pairs@[i as int].0 == *k,
        r is None ==> forall|j: int| 0 <= j < pairs@.len() ==> pairs@[j].0 != *k,
{
    let mut i: usize = 0;
    while i < pairs.len()
        invariant
            0 <= i <= pairs@.len(),
            forall|j: int| 0 <= j < i ==> pairs@[j].0 != *k,
        decreases pairs@.len() - i,
    {
        if pairs[i].0 == *k {
            return Some(i);
        }
        i = i + 1;
    }
    None
}

/// A substitution of types for type parameters: a finite map from symbols to types.
pub struct TypeSubst {
    pairs: Vec<(Symbol, HirType)>,
}

impl View for TypeSubst {
    type V = Map<Symbol, HirType>;

    closed spec fn view(&self) -> Map<Symbol, HirType> {
        bindings_map(self.pairs@)
    }
}

impl TypeSubst {
    #[verifier::type_invariant]
    spec fn inv(&self) -> bool {
        keys_distinct(self.pairs@)
    }

    /// The empty substitution.
    pub fn new() -> (r: TypeSubst)
        ensures
            r@ == Map::<Symbol, HirType>::empty(),
    {
        TypeSubst { pairs: Vec::new() }
    }

    /// The binding of `k`, if any.
    pub fn get(&self, k: &Symbol) -> (r: Option<&HirType>)
        ensures
            match r {
                Some(t) => self@.contains_key(*k) && self@[*k] == *t,
                None => !self@.contains_key(*k),
            },
    {
        proof {
            use_type_invariant(self);
            lemma_bindings_map(self.pairs@);
        }
        match find_key(&self.pairs, k) {
            Some(i) => {
                assert(bindings_map(self.pairs@).contains_key(self.pairs@[i as int].0));
                Some(&self.pairs[i].1)
            },
            None => None,
        }
    }

    /// Number of bound parameters.
    pub fn len(&self) -> (r: usize)
        ensures
            r == self@.dom().len(),
    {
        proof {
            use_type_invariant(self);
            lemma_bindings_map(self.pairs@);
        }
        self.pairs.len()
    }

    /// Binds `k` to `v`, replacing an earlier binding of `k`.
    pub fn insert(&mut self, k: Symbol, v: HirType)
        ensures
            final(self)@ == old(self)@.insert(k, v),
    {
        proof {
            use_type_invariant(&*self);
            lemma_bindings_map(self.pairs@);
        }
        let mut pairs: Vec<(Symbol, HirType)> = Vec::new();
        std::mem::swap(&mut pairs, &mut self.pairs);
        let ghost old_pairs = pairs@;
        let pos = find_key(&pairs, &k);
        if let Some(i) = pos {
            pairs.set(i, (k, v));
            proof {
                assert(keys_distinct(pairs@));
                lemma_bindings_map(pairs@);
                assert(bindings_map(pairs@) =~= bindings_map(old_pairs).insert(k, v)) by {
                    assert forall|q: Symbol| bindings_map(pairs@).contains_key(q) <==> bindings_map(old_pairs).insert(k, v).contains_key(q) by {
                        if bindings_map(old_pairs).contains_key(q) {
                            let j = choose|j: int| 0 <= j < old_pairs.len() && old_pairs[j].0 == q;
                            assert(pairs@[j].0 == q);
                        }
                        if bindings_map(pairs@).contains_key(q) {
                            let j = choose|j: int| 0 <= j < pairs@.len() && pairs@[j].0 == q;
                            if j != i {
                                assert(old_pairs[j].0 == q);
                            }
                        }
                    }
                    assert forall|q: Symbol| #[trigger] bindings_map(pairs@).contains_key(q) implies bindings_map(pairs@)[q] == bindings_map(old_pairs).insert(k, v)[q] by {
                        let j = choose|j: int| 0 <= j < pairs@.len() && pairs@[j].0 == q;
                        if j != i {
                            assert(old_pairs[j] == pairs@[j]);
                        }
                    }
                }
            }
        } else {
            pairs.push((k, v));
            proof {
                assert(pairs@.drop_last() == old_pairs);
                assert(keys_distinct(pairs@));
            }
        }
        self.pairs = pairs;
    }

    /// The substitution holding the given bindings; a later binding of a parameter
    /// replaces an earlier one.
    pub fn from_pairs(pairs: Vec<(Symbol, HirType)>) -> (r: TypeSubst)
        ensures
            r@ == bindings_map(pairs@),
    {
        let ghost all = pairs@;
        assert(all.len() == pairs.len());
        let mut rest = pairs;
        let mut r = TypeSubst::new();
        let mut n: usize = 0;
        while rest.len() > 0
            invariant
                0 <= n <= all.len(),
                all.len() <= usize::MAX,
                n + rest@.len() == all.len(),
                rest@ == all.skip(n as int),
                r@ == bindings_map(all.take(n as int)),
            decreases rest@.len(),
        {
            let (k, v) = rest.remove(0);
            proof {
                assert(all[n as int] == (k, v));
                assert(all.take(n + 1).drop_last() == all.take(n as int));
                assert(rest@ == all.skip(n + 1));
            }
            r.insert(k, v);
            n = n + 1;
        }
        assert(all.take(n as int) == all);
        r
    }
}

/// `out` is `t` with every parameter or name bound in `sub` replaced by its binding.
pub open spec fn substituted(t: HirType, sub: Map<Symbol, HirType>, out: HirType) -> bool
    decreases t,
{
    match t {
        HirType::Named(s) => if sub.contains_key(s) { ty_eq(out, sub[s]) } else { out == t },
        HirType::Param(s) => if sub.contains_key(s) { ty_eq(out, sub[s]) } else { out == t },
        HirType::Generic(s, xs) => (out matches HirType::Generic(s2, ys) && s2 == s && substituted_all(xs, sub, ys)),
        HirType::Tuple(xs) => (out matches HirType::Tuple(ys) && substituted_all(xs, sub, ys)),
        HirType::RawPtr(x) => (out matches HirType::RawPtr(y) && substituted(*x, sub, *y)),
        HirType::Option(x) => (out matches HirType::Option(y) && substituted(*x, sub, *y)),
        HirType::Result(x, e) => (out matches HirType::Result(y, f) && substituted(*x, sub, *y) && substituted(*e, sub, *f)),
        HirType::Func(xs, r) => (out matches HirType::Func(ys, q) && substituted_all(xs, sub, ys) && substituted(*r, sub, *q)),
        _ => out == t,
    }
}

/// `ys` is `xs` with `sub` applied to each element.
pub open spec fn substituted_all(xs: Vec<HirType>, sub: Map<Symbol, HirType>, ys: Vec<HirType>) -> bool
    decreases xs,
{
    &&& ys@.len() == xs@.len()
    &&& forall|i: int| 0 <= i < xs@.len() ==> substituted(#[trigger] xs@[i], sub, ys@[i])
}

/// Replaces every type parameter (or name) bound in `sub` by its binding.
pub fn substitute_type(ty: &HirType, sub: &TypeSubst) -> (r: HirType)
    ensures
        substituted(*ty, sub@, r),
    decreases ty,
{
    match ty {
        HirType::Named(s) | HirType::Param(s) => match sub.get(s) {
            Some(b) => copy_type(b),
            None => if let HirType::Named(_) = ty { HirType::Named(*s) } else { HirType::Param(*s) },
        },
        HirType::Generic(s, xs) => {
            proof { assert(decreases_to!(*ty => (*ty)->Generic_1)); }
            HirType::Generic(*s, substitute_types(xs, sub))
        },
        HirType::Tuple(xs) => {
            proof { assert(decreases_to!(*ty => (*ty)->Tuple_0)); }
            HirType::Tuple(substitute_types(xs, sub))
        },
        HirType::RawPtr(x) => HirType::RawPtr(Box::new(substitute_type(x, sub))),
        HirType::Option(x) => HirType::Option(Box::new(substitute_type(x, sub))),
        HirType::Result(x, e) => HirType::Result(Box::new(substitute_type(x, sub)), Box::new(substitute_type(e, sub))),
        HirType::Func(xs, r) => {
            proof { assert(decreases_to!(*ty => (*ty)->Func_0)); }
            HirType::Func(substitute_types(xs, sub), Box::new(substitute_type(r, sub)))
        },
        HirType::Int => HirType::Int,
        HirType::Bool => HirType::Bool,
        HirType::Float => HirType::Float,
        HirType::Str => HirType::Str,
        HirType::Unit => HirType::Unit,
        HirType::Never => HirType::Never,
        HirType::Error => HirType::Error,
        HirType::Opaque(s) => HirType::Opaque(*s),
        HirType::Infer(v) => HirType::Infer(*v),
    }
}

/// Applies `substitute_type` to each element.
pub fn substitute_types(xs: &Vec<HirType>, sub: &TypeSubst) -> (r: Vec<HirType>)
    ensures
        substituted_all(*xs, sub@, r),
    decreases xs,
{
    let mut out: Vec<HirType> = Vec::new();
    let mut i: usize = 0;
    while i < xs.len()
        invariant
            0 <= i <= xs@.len(),
            out@.len() == i,
            forall|j: int| 0 <= j < i ==> substituted(#[trigger] xs@[j], sub@, out@[j]),
        decreases xs@.len() - i,
    {
        proof { assert(decreases_to!(*xs => xs[i as int])); }
        out.push(substitute_type(&xs[i], sub));
        i = i + 1;
    }
    out
}

/// Nesting depth beyond which `substitute_type_safe` refuses a type.
pub const MAX_SUBST_DEPTH: usize = 256;

/// Why a substitution was refused.
#[derive(Clone, Copy, Debug, PartialEq, Eq, Structural)]
pub enum SubstitutionError {
    /// The type is nested more than `MAX_SUBST_DEPTH` levels deep.
    DepthExceeded,
}

/// Some node of `t`, taking `t` itself to stand at level `d`, stands below level `MAX_SUBST_DEPTH`.
pub open spec fn exceeds_depth(t: HirType, d: nat) -> bool
    decreases t,
{
    d > MAX_SUBST_DEPTH || match t {
        HirType::Generic(_, xs) => exists|i: int| 0 <= i < xs@.len() && exceeds_depth(#[trigger] xs@[i], d + 1),
        HirType::Tuple(xs) => exists|i: int| 0 <= i < xs@.len() && exceeds_depth(#[trigger] xs@[i], d + 1),
        HirType::RawPtr(x) => exceeds_depth(*x, d + 1),
        HirType::Option(x) => exceeds_depth(*x, d + 1),
        HirType::Result(x, e) => exceeds_depth(*x, d + 1) || exceeds_depth(*e, d + 1),
        HirType::Func(xs, r) => (exists|i: int| 0 <= i < xs@.len() && exceeds_depth(#[trigger] xs@[i], d + 1)) || exceeds_depth(*r, d + 1),
        _ => false,
    }
}

/// Like `substitute_type`, but refuses types nested more than `MAX_SUBST_DEPTH` levels.
pub fn substitute_type_safe(ty: &HirType, sub: &TypeSubst) -> (r: Result<HirType, SubstitutionError>)
    ensures
        r is Err <==> exceeds_depth(*ty, 0),
        r matches Ok(o) ==> substituted(*ty, sub@, o),
{
    subst_at(ty, sub, 0)
}

fn subst_at(ty: &HirType, sub: &TypeSubst, d: usize) -> (r: Result<HirType, SubstitutionError>)
    requires
        d <= MAX_SUBST_DEPTH + 1,
    ensures
        r is Err <==> exceeds_depth(*ty, d as nat),
        r matches Ok(o) ==> substituted(*ty, sub@, o),
    decreases ty,
{
    if d > MAX_SUBST_DEPTH {
        return Err(SubstitutionError::DepthExceeded);
    }
    match ty {
        HirType::Generic(s, xs) => {
            proof { assert(decreases_to!(*ty => (*ty)->Generic_1)); }
            match subst_all_at(xs, sub, d + 1) {
                Ok(ys) => Ok(HirType::Generic(*s, ys)),
                Err(e) => Err(e),
            }
        },
        HirType::Tuple(xs) => {
            proof { assert(decreases_to!(*ty => (*ty)->Tuple_0)); }
            match subst_all_at(xs, sub, d + 1) {
                Ok(ys) => Ok(HirType::Tuple(ys)),
                Err(e) => Err(e),
            }
        },
        HirType::RawPtr(x) => match subst_at(x, sub, d + 1) {
            Ok(y) => Ok(HirType::RawPtr(Box::new(y))),
            Err(e) => Err(e),
        },
        HirType::Option(x) => match subst_at(x, sub, d + 1) {
            Ok(y) => Ok(HirType::Option(Box::new(y))),
            Err(e) => Err(e),
        },
        HirType::Result(x, e) => match subst_at(x, sub, d + 1) {
            Ok(y) => match subst_at(e, sub, d + 1) {
                Ok(f) => Ok(HirType::Result(Box::new(y), Box::new(f))),
                Err(err) => Err(err),
            },
            Err(err) => Err(err),
        },
        HirType::Func(xs, r) => {
            proof { assert(decreases_to!(*ty => (*ty)->Func_0)); }
            match subst_all_at(xs, sub, d + 1) {
                Ok(ys) => match subst_at(r, sub, d + 1) {
                    Ok(q) => Ok(HirType::Func(ys, Box::new(q))),
                    Err(err) => Err(err),
                },
                Err(err) => Err(err),
            }
        },
        _ => Ok(substitute_type(ty, sub)),
    }
}

fn subst_all_at(xs: &Vec<HirType>, sub: &TypeSubst, d: usize) -> (r: Result<Vec<HirType>, SubstitutionError>)
    requires
        d <= MAX_SUBST_DEPTH + 1,
    ensures
        r is Err <==> exists|i: int| 0 <= i < xs@.len() && exceeds_depth(#[trigger] xs@[i], d as nat),
        r matches Ok(ys) ==> substituted_all(*xs, sub@, ys),
    decreases xs,
{
    let mut out: Vec<HirType> = Vec::new();
    let mut i: usize = 0;
    while i < xs.len()
        invariant
            0 <= i <= xs@.len(),
            d <= MAX_SUBST_DEPTH + 1,
            out@.len() == i,
            forall|j: int| 0 <= j < i ==> substituted(#[trigger] xs@[j], sub@, out@[j]),
            forall|j: int| 0 <= j < i ==> !exceeds_depth(#[trigger] xs@[j], d as nat),
        decreases xs@.len() - i,
    {
        proof { assert(decreases_to!(*xs => xs[i as int])); }
        match subst_at(&xs[i], sub, d) {
            Ok(y) => out.push(y),
            Err(e) => {
                assert(exceeds_depth(xs@[i as int], d as nat));
                return Err(e);
            },
        }
        i = i + 1;
    }
    Ok(out)
}

/// Patterns of `let` bindings, `match` arms and `for` loops.
#[derive(Debug, PartialEq)]
pub enum HirPattern {
    Wild,
    BoolLit(bool),
    IntLit(i64),
    /// A float literal, held as its IEEE-754 bits.
    FloatLit(u64),
    StrLit(String),
    Unit,
    Var(Symbol),
    Struct { name: Symbol, bindings: Vec<(Symbol, HirPattern)>, span: Span },
    EnumVariant { enum_name: Symbol, variant_name: Symbol, bindings: Vec<(Symbol, HirPattern)>, span: Span },
    Tuple { elements: Vec<HirPattern>, span: Span },
    OptionSome(Box<HirPattern>),
    OptionNone,
    ResultOk(Box<HirPattern>),
    ResultErr(Box<HirPattern>),
}

/// Structural equality of patterns (what the derived `==` compares).
pub open spec fn pat_eq(a: HirPattern, b: HirPattern) -> bool
    decreases a,
{
    match a {
        HirPattern::Struct { name, bindings, span } => (b matches HirPattern::Struct { name: n2, bindings: b2, span: s2 }
            && name == n2 && span == s2 && bindings_eq(bindings, b2)),
        HirPattern::EnumVariant { enum_name, variant_name, bindings, span } => (b matches HirPattern::EnumVariant { enum_name: e2, variant_name: v2, bindings: b2, span: s2 }
            && enum_name == e2 && variant_name == v2 && span == s2 && bindings_eq(bindings, b2)),
        HirPattern::Tuple { elements, span } => (b matches HirPattern::Tuple { elements: e2, span: s2 }
            && span == s2 && e2@.len() == elements@.len()
            && forall|i: int| 0 <= i < elements@.len() ==> pat_eq(#[trigger] elements@[i], e2@[i])),
        HirPattern::OptionSome(x) => (b matches HirPattern::OptionSome(y) && pat_eq(*x, *y)),
        HirPattern::ResultOk(x) => (b matches HirPattern::ResultOk(y) && pat_eq(*x, *y)),
        HirPattern::ResultErr(x) => (b matches HirPattern::ResultErr(y) && pat_eq(*x, *y)),
        _ => a == b,
    }
}

/// Element-wise equality of two lists of (field, pattern) bindings.
pub open spec fn bindings_eq(xs: Vec<(Symbol, HirPattern)>, ys: Vec<(Symbol, HirPattern)>) -> bool
    decreases xs,
{
    &&& xs@.len() == ys@.len()
    &&& forall|i: int| 0 <= i < xs@.len() ==> (#[trigger] xs@[i]).0 == ys@[i].0 && pat_eq(xs@[i].1, ys@[i].1)
}

/// A structurally equal copy of a pattern.
pub fn copy_pattern(p: &HirPattern) -> (r: HirPattern)
    ensures
        pat_eq(r, *p),
    decreases p,
{
    match p {
        HirPattern::Wild => HirPattern::Wild,
        HirPattern::BoolLit(b) => HirPattern::BoolLit(*b),
        HirPattern::IntLit(n) => HirPattern::IntLit(*n),
        HirPattern::FloatLit(bits) => HirPattern::FloatLit(*bits),
        HirPattern::StrLit(s) => HirPattern::StrLit(s.clone()),
        HirPattern::Unit => HirPattern::Unit,
        HirPattern::Var(s) => HirPattern::Var(*s),
        HirPattern::Struct { name, bindings, span } => {
            proof { assert(decreases_to!(*p => (*p)->Struct_bindings)); }
            HirPattern::Struct { name: *name, bindings: copy_bindings(bindings), span: *span }
        },
        HirPattern::EnumVariant { enum_name, variant_name, bindings, span } => {
            proof { assert(decreases_to!(*p => (*p)->EnumVariant_bindings)); }
            HirPattern::EnumVariant { enum_name: *enum_name, variant_name: *variant_name, bindings: copy_bindings(bindings), span: *span }
        },
        HirPattern::Tuple { elements, span } => {
            proof { assert(decreases_to!(*p => (*p)->Tuple_elements)); }
            let mut out: Vec<HirPattern> = Vec::new();
            let mut i: usize = 0;
            while i < elements.len()
                invariant
                    0 <= i <= elements@.len(),
                    out@.len() == i,
                    *p == (HirPattern::Tuple { elements: *elements, span: *span }),
                    forall|j: int| 0 <= j < i ==> pat_eq(#[trigger] out@[j], elements@[j]),
                decreases elements@.len() - i,
            {
                proof {
                    assert(decreases_to!(*p => (*p)->Tuple_elements));
                    assert(decreases_to!((*p)->Tuple_elements => elements@[i as int]));
                }
                let c = copy_pattern(&elements[i]);
                out.push(c);
                i = i + 1;
            }
            HirPattern::Tuple { elements: out, span: *span }
        },
        HirPattern::OptionSome(x) => HirPattern::OptionSome(Box::new(copy_pattern(x))),
        HirPattern::OptionNone => HirPattern::OptionNone,
        HirPattern::ResultOk(x) => HirPattern::ResultOk(Box::new(copy_pattern(x))),
        HirPattern::ResultErr(x) => HirPattern::ResultErr(Box::new(copy_pattern(x))),
    }
}

/// A structurally equal copy of a list of (field, pattern) bindings.
pub fn copy_bindings(xs: &Vec<(Symbol, HirPattern)>) -> (r: Vec<(Symbol, HirPattern)>)
    ensures
        bindings_eq(r, *xs),
    decreases xs,
{
    let mut out: Vec<(Symbol, HirPattern)> = Vec::new();
    let mut i: usize = 0;
    while i < xs.len()
        invariant
            0 <= i <= xs@.len(),
            out@.len() == i,
            forall|j: int| 0 <= j < i ==> (#[trigger] out@[j]).0 == xs@[j].0 && pat_eq(out@[j].1, xs@[j].1),
        decreases xs@.len() - i,
    {
        proof {
            assert(decreases_to!(*xs => xs@[i as int]));
            assert(decreases_to!(xs@[i as int] => xs@[i as int].1));
        }
        let c = copy_pattern(&xs[i].1);
        out.push((xs[i].0, c));
        i = i + 1;
    }
    out
}

/// Structural equality of patterns is symmetric.
pub proof fn lemma_pat_eq_symm(a: HirPattern, b: HirPattern)
    requires
        pat_eq(a, b),
    ensures
        pat_eq(b, a),
    decreases a,
{
    match a {
        HirPattern::Struct { bindings, .. } => {
            if let HirPattern::Struct { bindings: b2, .. } = b {
                assert(bindings_eq(bindings, b2));
                assert forall|i: int| 0 <= i < b2@.len() implies (#[trigger] b2@[i]).0 == bindings@[i].0 && pat_eq(b2@[i].1, bindings@[i].1) by {
                    assert(decreases_to!(a => a->Struct_bindings));
                    assert(decreases_to!(a->Struct_bindings => bindings@[i]));
                    lemma_pat_eq_symm(bindings@[i].1, b2@[i].1);
                }
                assert(bindings_eq(b2, bindings));
            }
        },
        HirPattern::EnumVariant { bindings, .. } => {
            if let HirPattern::EnumVariant { bindings: b2, .. } = b {
                assert(bindings_eq(bindings, b2));
                assert forall|i: int| 0 <= i < b2@.len() implies (#[trigger] b2@[i]).0 == bindings@[i].0 && pat_eq(b2@[i].1, bindings@[i].1) by {
                    assert(decreases_to!(a => a->EnumVariant_bindings));
                    assert(decreases_to!(a->EnumVariant_bindings => bindings@[i]));
                    lemma_pat_eq_symm(bindings@[i].1, b2@[i].1);
                }
                assert(bindings_eq(b2, bindings));
            }
        },
        HirPattern::Tuple { elements, .. } => {
            if let HirPattern::Tuple { elements: e2, .. } = b {
                assert forall|i: int| 0 <= i < e2@.len() implies pat_eq(#[trigger] e2@[i], elements@[i]) by {
                    assert(decreases_to!(a => a->Tuple_elements));
                    assert(decreases_to!(a->Tuple_elements => elements@[i]));
                    lemma_pat_eq_symm(elements@[i], e2@[i]);
                }
            }
        },
        HirPattern::OptionSome(x) => {
            if let HirPattern::OptionSome(y) = b {
                lemma_pat_eq_symm(*x, *y);
            }
        },
        HirPattern::ResultOk(x) => {
            if let HirPattern::ResultOk(y) = b {
                lemma_pat_eq_symm(*x, *y);
            }
        },
        HirPattern::ResultErr(x) => {
            if let HirPattern::ResultErr(y) = b {
                lemma_pat_eq_symm(*x, *y);
            }
        },
        _ => {},
    }
}

impl Clone for HirPattern {
    fn clone(&self) -> (r: Self)
        ensures
            pat_eq(r, *self),
    {
        copy_pattern(self)
    }
}

impl Clone for HirType {
    fn clone(&self) -> (r: Self)
        ensures
            ty_eq(r, *self),
    {
        copy_type(self)
    }
}

} // verus!
