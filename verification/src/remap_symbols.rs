use vstd::prelude::*;
use crate::assoc::{assoc_find, assoc_keys_unique, assoc_map, assoc_upsert, lemma_assoc_map};
use crate::item::{ExternBlock, ExternFn, Hir, HirImplDef, HirItem, HirVariant, StructDef, StructField, EnumDef};
use crate::node::{HirExpr, HirFn, HirStmt, MatchArm};
use crate::symbol::Symbol;
use crate::types::{HirPattern, HirType};

verus! {

broadcast use vstd::std_specs::vec::group_vec_axioms;

/// A finite map from symbols to symbols.
pub struct SymbolMap {
    pairs: Vec<(Symbol, Symbol)>,
}

impl View for SymbolMap {
    type V = Map<Symbol, Symbol>;

    closed spec fn view(&self) -> Map<Symbol, Symbol> {
        assoc_map(self.pairs@)
    }
}

impl SymbolMap {
    #[verifier::type_invariant]
    spec fn inv(&self) -> bool {
        assoc_keys_unique(self.pairs@)
    }

    /// The empty map.
    pub fn new() -> (r: SymbolMap)
        ensures
            r@ == Map::<Symbol, Symbol>::empty(),
    {
        let r = SymbolMap { pairs: Vec::new() };
        assert(r@ =~= Map::<Symbol, Symbol>::empty());
        r
    }

    /// Maps `from` to `to`, replacing an earlier entry of `from`.
    pub fn insert(&mut self, from: Symbol, to: Symbol)
        ensures
            final(self)@ == old(self)@.insert(from, to),
    {
        proof {
            use_type_invariant(&*self);
        }
        let mut pairs: Vec<(Symbol, Symbol)> = Vec::new();
        std::mem::swap(&mut pairs, &mut self.pairs);
        assoc_upsert(&mut pairs, from, to);
        self.pairs = pairs;
    }

    /// The symbol that `from` maps to, if any.
    pub fn get(&self, from: Symbol) -> (r: Option<Symbol>)
        ensures
            match r {
                Some(to) => self@.contains_key(from) && self@[from] == to,
                None => !self@.contains_key(from),
            },
    {
        proof {
            use_type_invariant(self);
        }
        assoc_find(&self.pairs, from)
    }
}

/// The image of `s`: what the map sends it to, or `s` itself.
pub open spec fn rsym(s: Symbol, m: Map<Symbol, Symbol>) -> Symbol {
    if m.contains_key(s) { m[s] } else { s }
}

/// The image of a symbol under the mapping.
pub fn remap_sym(sym: Symbol, mapping: &SymbolMap) -> (r: Symbol)
    ensures
        r == rsym(sym, mapping@),
{
    match mapping.get(sym) {
        Some(to) => to,
        None => sym,
    }
}

/// `out` is `t` with every symbol it names (named, generic base, opaque) mapped.
pub open spec fn remapped_type(t: HirType, m: Map<Symbol, Symbol>, out: HirType) -> bool
    decreases t,
{
    match t {
        HirType::Named(s) => out == HirType::Named(rsym(s, m)),
        HirType::Opaque(s) => out == HirType::Opaque(rsym(s, m)),
        HirType::Generic(s, xs) => out matches HirType::Generic(s2, ys) && s2 == rsym(s, m) && ys@.len() == xs@.len()
            && forall|i: int| 0 <= i < xs@.len() ==> remapped_type(#[trigger] xs@[i], m, ys@[i]),
        HirType::Tuple(xs) => out matches HirType::Tuple(ys) && ys@.len() == xs@.len()
            && forall|i: int| 0 <= i < xs@.len() ==> remapped_type(#[trigger] xs@[i], m, ys@[i]),
        HirType::RawPtr(x) => out matches HirType::RawPtr(y) && remapped_type(*x, m, *y),
        HirType::Option(x) => out matches HirType::Option(y) && remapped_type(*x, m, *y),
        HirType::Result(x, e) => out matches HirType::Result(y, f) && remapped_type(*x, m, *y) && remapped_type(*e, m, *f),
        HirType::Func(xs, r) => out matches HirType::Func(ys, q) && ys@.len() == xs@.len()
            && (forall|i: int| 0 <= i < xs@.len() ==> remapped_type(#[trigger] xs@[i], m, ys@[i]))
            && remapped_type(*r, m, *q),
        _ => out == t,
    }
}

/// Applies the mapping to every symbol that a type names.
pub fn remap_type(ty: &HirType, mapping: &SymbolMap) -> (r: HirType)
    ensures
        remapped_type(*ty, mapping@, r),
    decreases ty, 0nat,
{
    match ty {
        HirType::Named(s) => HirType::Named(remap_sym(*s, mapping)),
        HirType::Opaque(s) => HirType::Opaque(remap_sym(*s, mapping)),
        HirType::Generic(s, xs) => {
            proof { assert(decreases_to!(*ty => (*ty)->Generic_1)); }
            HirType::Generic(remap_sym(*s, mapping), remap_types(xs, mapping))
        },
        HirType::Tuple(xs) => {
            proof { assert(decreases_to!(*ty => (*ty)->Tuple_0)); }
            HirType::Tuple(remap_types(xs, mapping))
        },
        HirType::RawPtr(x) => HirType::RawPtr(Box::new(remap_type(x, mapping))),
        HirType::Option(x) => HirType::Option(Box::new(remap_type(x, mapping))),
        HirType::Result(x, e) => HirType::Result(Box::new(remap_type(x, mapping)), Box::new(remap_type(e, mapping))),
        HirType::Func(xs, r) => {
            proof { assert(decreases_to!(*ty => (*ty)->Func_0)); }
            HirType::Func(remap_types(xs, mapping), Box::new(remap_type(r, mapping)))
        },
        HirType::Int => HirType::Int,
        HirType::Bool => HirType::Bool,
        HirType::Float => HirType::Float,
        HirType::Str => HirType::Str,
        HirType::Unit => HirType::Unit,
        HirType::Never => HirType::Never,
        HirType::Error => HirType::Error,
        HirType::Param(s) => HirType::Param(*s),
        HirType::Infer(v) => HirType::Infer(*v),
    }
}

/// `remap_type` applied to each type of `xs`.
fn remap_types(xs: &Vec<HirType>, mapping: &SymbolMap) -> (r: Vec<HirType>)
    ensures
        r@.len() == xs@.len(),
        forall|i: int| 0 <= i < xs@.len() ==> remapped_type(#[trigger] xs@[i], mapping@, r@[i]),
    decreases xs, xs@.len(),
{
    let mut out: Vec<HirType> = Vec::new();
    let mut i: usize = 0;
    while i < xs.len()
        invariant
            0 <= i <= xs@.len(),
            out@.len() == i,
            forall|k: int| 0 <= k < i ==> remapped_type(#[trigger] xs@[k], mapping@, out@[k]),
        decreases xs@.len() - i,
    {
        proof { assert(decreases_to!(*xs => xs@[i as int])); }
        out.push(remap_type(&xs[i], mapping));
        i = i + 1;
    }
    out
}

/// `out` is the expression `e` with every symbol mapped: those that name a variable,
/// function, method, field, struct, enum or variant, and those inside the types it
/// holds (see `remapped_type`); ids, spans and literals are kept.
pub open spec fn remapped_expr(e: HirExpr, m: Map<Symbol, Symbol>, out: HirExpr) -> bool
    decreases e, 0nat,
{
    match e {
        HirExpr::Ident { id, name, span } => out == (HirExpr::Ident { id, name: rsym(name, m), span }),
        HirExpr::AddrOf { id, target, span } => out == (HirExpr::AddrOf { id, target: rsym(target, m), span }),
        HirExpr::Call { id, callee, args, span } => out matches HirExpr::Call { id: i2, callee: c2, args: a2, span: s2 }
            && i2 == id && s2 == span && c2 == rsym(callee, m) && remapped_exprs(args, m, a2),
        HirExpr::MethodCall { id, receiver, method_name, resolved_callee, args, span } =>
            out matches HirExpr::MethodCall { id: i2, receiver: r2, method_name: n2, resolved_callee: c2, args: a2, span: s2 }
            && i2 == id && s2 == span && remapped_expr(*receiver, m, *r2) && n2 == rsym(method_name, m)
            && c2 == (match resolved_callee { Some(c) => Some(rsym(c, m)), None => None })
            && remapped_exprs(args, m, a2),
        HirExpr::FieldAccess { id, object, field, span } => out matches HirExpr::FieldAccess { id: i2, object: o2, field: f2, span: s2 }
            && i2 == id && s2 == span && remapped_expr(*object, m, *o2) && f2 == rsym(field, m),
        HirExpr::StructLit { id, struct_name, fields, span } => out matches HirExpr::StructLit { id: i2, struct_name: n2, fields: f2, span: s2 }
            && i2 == id && s2 == span && n2 == rsym(struct_name, m) && remapped_fields(fields, m, f2),
        HirExpr::EnumVariant { id, enum_name, variant_name, args, span } =>
            out matches HirExpr::EnumVariant { id: i2, enum_name: e2, variant_name: v2, args: a2, span: s2 }
            && i2 == id && s2 == span && e2 == rsym(enum_name, m) && v2 == rsym(variant_name, m) && remapped_exprs(args, m, a2),
        HirExpr::Block { id, stmts, span } => out matches HirExpr::Block { id: i2, stmts: t2, span: s2 }
            && i2 == id && s2 == span && remapped_stmts(stmts, m, t2),
        HirExpr::Binary { id, op, lhs, rhs, span } => out matches HirExpr::Binary { id: i2, op: o2, lhs: l2, rhs: r2, span: s2 }
            && i2 == id && o2 == op && s2 == span && remapped_expr(*lhs, m, *l2) && remapped_expr(*rhs, m, *r2),
        HirExpr::Unary { id, op, operand, span } => out matches HirExpr::Unary { id: i2, op: o2, operand: x2, span: s2 }
            && i2 == id && o2 == op && s2 == span && remapped_expr(*operand, m, *x2),
        HirExpr::Deref { id, expr, span } => out matches HirExpr::Deref { id: i2, expr: x2, span: s2 }
            && i2 == id && s2 == span && remapped_expr(*expr, m, *x2),
        HirExpr::As { id, expr, target_type, span } => out matches HirExpr::As { id: i2, expr: x2, target_type: t2, span: s2 }
            && i2 == id && s2 == span && remapped_type(target_type, m, t2) && remapped_expr(*expr, m, *x2),
        HirExpr::SizeOf { id, target_type, span } => out matches HirExpr::SizeOf { id: i2, target_type: t2, span: s2 }
            && i2 == id && s2 == span && remapped_type(target_type, m, t2),
        HirExpr::Return { id, value, span } => out matches HirExpr::Return { id: i2, value: v2, span: s2 }
            && i2 == id && s2 == span && remapped_opt(value, m, v2),
        HirExpr::Println { id, arg, span } => out matches HirExpr::Println { id: i2, arg: x2, span: s2 }
            && i2 == id && s2 == span && remapped_expr(*arg, m, *x2),
        HirExpr::Assert { id, condition, message, span } => out matches HirExpr::Assert { id: i2, condition: c2, message: g2, span: s2 }
            && i2 == id && s2 == span && remapped_expr(*condition, m, *c2) && remapped_opt(message, m, g2),
        HirExpr::If { id, condition, then_branch, else_branch, span } =>
            out matches HirExpr::If { id: i2, condition: c2, then_branch: t2, else_branch: e2, span: s2 }
            && i2 == id && s2 == span && remapped_expr(*condition, m, *c2) && remapped_expr(*then_branch, m, *t2)
            && remapped_opt(else_branch, m, e2),
        HirExpr::Match { id, scrutinee, arms, span } => out matches HirExpr::Match { id: i2, scrutinee: c2, arms: a2, span: s2 }
            && i2 == id && s2 == span && remapped_expr(*scrutinee, m, *c2) && remapped_arms(arms, m, a2),
        HirExpr::While { id, condition, body, span } => out matches HirExpr::While { id: i2, condition: c2, body: b2, span: s2 }
            && i2 == id && s2 == span && remapped_expr(*condition, m, *c2) && remapped_expr(*body, m, *b2),
        HirExpr::ForIn { id, pattern, iter, body, span } => out matches HirExpr::ForIn { id: i2, pattern: p2, iter: t2, body: b2, span: s2 }
            && i2 == id && s2 == span && remapped_pat(pattern, m, p2) && remapped_expr(*iter, m, *t2) && remapped_expr(*body, m, *b2),
        HirExpr::TupleLit { id, elements, span } => out matches HirExpr::TupleLit { id: i2, elements: x2, span: s2 }
            && i2 == id && s2 == span && remapped_exprs(elements, m, x2),
        _ => out == e,
    }
}

/// An optional boxed expression, remapped.
pub open spec fn remapped_opt(o: Option<Box<HirExpr>>, m: Map<Symbol, Symbol>, out: Option<Box<HirExpr>>) -> bool
    decreases o, 0nat,
{
    match o {
        Some(x) => out matches Some(y) && remapped_expr(*x, m, *y),
        None => out is None,
    }
}

/// Element-wise remapping of expressions.
pub open spec fn remapped_exprs(xs: Vec<HirExpr>, m: Map<Symbol, Symbol>, ys: Vec<HirExpr>) -> bool
    decreases xs, 0nat,
{
    &&& ys@.len() == xs@.len()
    &&& forall|i: int| 0 <= i < xs@.len() ==> remapped_expr(#[trigger] xs@[i], m, ys@[i])
}

/// Element-wise remapping of struct literal fields: names mapped, values remapped.
pub open spec fn remapped_fields(xs: Vec<(Symbol, HirExpr)>, m: Map<Symbol, Symbol>, ys: Vec<(Symbol, HirExpr)>) -> bool
    decreases xs, 0nat,
{
    &&& ys@.len() == xs@.len()
    &&& forall|i: int| 0 <= i < xs@.len() ==> (#[trigger] ys@[i]).0 == rsym(xs@[i].0, m) && remapped_expr(xs@[i].1, m, ys@[i].1)
}

/// Element-wise remapping of statements.
pub open spec fn remapped_stmts(xs: Vec<HirStmt>, m: Map<Symbol, Symbol>, ys: Vec<HirStmt>) -> bool
    decreases xs, 0nat,
{
    &&& ys@.len() == xs@.len()
    &&& forall|i: int| 0 <= i < xs@.len() ==> remapped_stmt(#[trigger] xs@[i], m, ys@[i])
}

/// Element-wise remapping of match arms.
pub open spec fn remapped_arms(xs: Vec<MatchArm>, m: Map<Symbol, Symbol>, ys: Vec<MatchArm>) -> bool
    decreases xs, 0nat,
{
    &&& ys@.len() == xs@.len()
    &&& forall|i: int| 0 <= i < xs@.len() ==> remapped_arm(#[trigger] xs@[i], m, ys@[i])
}

/// A statement, remapped: bound, assigned and field names mapped, and a `let`
/// pattern's declared type.
pub open spec fn remapped_stmt(s: HirStmt, m: Map<Symbol, Symbol>, out: HirStmt) -> bool
    decreases s, 0nat,
{
    match s {
        HirStmt::Let { name, mutable, value, span } => out matches HirStmt::Let { name: n2, mutable: u2, value: v2, span: s2 }
            && n2 == rsym(name, m) && u2 == mutable && s2 == span && remapped_expr(value, m, v2),
        HirStmt::LetPat { pattern, mutable, value, ty, span } => out matches HirStmt::LetPat { pattern: p2, mutable: u2, value: v2, ty: t2, span: s2 }
            && remapped_pat(pattern, m, p2) && u2 == mutable && s2 == span && remapped_expr(value, m, v2)
            && match ty {
                Some(t) => t2 matches Some(u) && remapped_type(t, m, u),
                None => t2 is None,
            },
        HirStmt::AssignDeref { target, value, span } => out matches HirStmt::AssignDeref { target: t2, value: v2, span: s2 }
            && s2 == span && remapped_expr(*target, m, *t2) && remapped_expr(value, m, v2),
        HirStmt::AssignField { object, field, value, span } => out matches HirStmt::AssignField { object: o2, field: f2, value: v2, span: s2 }
            && s2 == span && f2 == rsym(field, m) && remapped_expr(*object, m, *o2) && remapped_expr(value, m, v2),
        HirStmt::Assign { target, value, span } => out matches HirStmt::Assign { target: t2, value: v2, span: s2 }
            && s2 == span && t2 == rsym(target, m) && remapped_expr(value, m, v2),
        HirStmt::Expr(e) => out matches HirStmt::Expr(e2) && remapped_expr(e, m, e2),
    }
}

/// A match arm, remapped.
pub open spec fn remapped_arm(a: MatchArm, m: Map<Symbol, Symbol>, out: MatchArm) -> bool
    decreases a, 0nat,
{
    &&& remapped_pat(a.pattern, m, out.pattern)
    &&& match a.guard {
        Some(g) => out.guard matches Some(g2) && remapped_expr(g, m, g2),
        None => out.guard is None,
    }
    &&& remapped_expr(a.body, m, out.body)
}

/// A pattern, remapped: bound variables and struct, enum, variant and field names mapped.
pub open spec fn remapped_pat(p: HirPattern, m: Map<Symbol, Symbol>, out: HirPattern) -> bool
    decreases p,
{
    match p {
        HirPattern::Var(s) => out == HirPattern::Var(rsym(s, m)),
        HirPattern::Struct { name, bindings, span } => out matches HirPattern::Struct { name: n2, bindings: b2, span: s2 }
            && n2 == rsym(name, m) && s2 == span && b2@.len() == bindings@.len()
            && forall|i: int| 0 <= i < bindings@.len() ==> (#[trigger] b2@[i]).0 == rsym(bindings@[i].0, m)
                && remapped_pat(bindings@[i].1, m, b2@[i].1),
        HirPattern::EnumVariant { enum_name, variant_name, bindings, span } =>
            out matches HirPattern::EnumVariant { enum_name: e2, variant_name: v2, bindings: b2, span: s2 }
            && e2 == rsym(enum_name, m) && v2 == rsym(variant_name, m) && s2 == span && b2@.len() == bindings@.len()
            && forall|i: int| 0 <= i < bindings@.len() ==> (#[trigger] b2@[i]).0 == rsym(bindings@[i].0, m)
                && remapped_pat(bindings@[i].1, m, b2@[i].1),
        HirPattern::Tuple { elements, span } => out matches HirPattern::Tuple { elements: x2, span: s2 }
            && s2 == span && x2@.len() == elements@.len()
            && forall|i: int| 0 <= i < elements@.len() ==> remapped_pat(#[trigger] elements@[i], m, x2@[i]),
        HirPattern::OptionSome(x) => out matches HirPattern::OptionSome(y) && remapped_pat(*x, m, *y),
        HirPattern::ResultOk(x) => out matches HirPattern::ResultOk(y) && remapped_pat(*x, m, *y),
        HirPattern::ResultErr(x) => out matches HirPattern::ResultErr(y) && remapped_pat(*x, m, *y),
        _ => out == p,
    }
}

/// Remaps a pattern; see `remapped_pat`.
fn remap_pattern(pat: HirPattern, mapping: &SymbolMap) -> (r: HirPattern)
    ensures
        remapped_pat(pat, mapping@, r),
    decreases pat,
{
    match pat {
        HirPattern::Var(sym) => HirPattern::Var(remap_sym(sym, mapping)),
        HirPattern::Struct { name, bindings, span } => {
            let ghost all = bindings;
            proof { assert(decreases_to!(pat => pat->Struct_bindings)); }
            let new_name = remap_sym(name, mapping);
            let mut rest = bindings;
            let mut out: Vec<(Symbol, HirPattern)> = Vec::new();
            let total: usize = rest.len();
            assert(total == all@.len());
            let mut n: usize = 0;
            while rest.len() > 0
                invariant
                    decreases_to!(pat => all),
                    all@.len() <= usize::MAX,
                    rest@ == all@.skip(n as int),
                    n + rest@.len() == all@.len(),
                    out@.len() == n,
                    forall|k: int| 0 <= k < n ==> (#[trigger] out@[k]).0 == rsym(all@[k].0, mapping@)
                        && remapped_pat(all@[k].1, mapping@, out@[k].1),
                decreases rest@.len(),
            {
                let (f, sub) = rest.remove(0);
                proof {
                    assert(all@[n as int] == (f, sub));
                    assert(rest@ == all@.skip(n + 1));
                    assert(decreases_to!(all => all@[n as int]));
                    assert(decreases_to!(all@[n as int] => all@[n as int].1));
                }
                let nf = remap_sym(f, mapping);
                let ns = remap_pattern(sub, mapping);
                out.push((nf, ns));
                n = n + 1;
            }
            HirPattern::Struct { name: new_name, bindings: out, span }
        },
        HirPattern::EnumVariant { enum_name, variant_name, bindings, span } => {
            let ghost all = bindings;
            proof { assert(decreases_to!(pat => pat->EnumVariant_bindings)); }
            let new_enum = remap_sym(enum_name, mapping);
            let new_variant = remap_sym(variant_name, mapping);
            let mut rest = bindings;
            let mut out: Vec<(Symbol, HirPattern)> = Vec::new();
            let total: usize = rest.len();
            assert(total == all@.len());
            let mut n: usize = 0;
            while rest.len() > 0
                invariant
                    decreases_to!(pat => all),
                    all@.len() <= usize::MAX,
                    rest@ == all@.skip(n as int),
                    n + rest@.len() == all@.len(),
                    out@.len() == n,
                    forall|k: int| 0 <= k < n ==> (#[trigger] out@[k]).0 == rsym(all@[k].0, mapping@)
                        && remapped_pat(all@[k].1, mapping@, out@[k].1),
                decreases rest@.len(),
            {
                let (f, sub) = rest.remove(0);
                proof {
                    assert(all@[n as int] == (f, sub));
                    assert(rest@ == all@.skip(n + 1));
                    assert(decreases_to!(all => all@[n as int]));
                    assert(decreases_to!(all@[n as int] => all@[n as int].1));
                }
                let nf = remap_sym(f, mapping);
                let ns = remap_pattern(sub, mapping);
                out.push((nf, ns));
                n = n + 1;
            }
            HirPattern::EnumVariant { enum_name: new_enum, variant_name: new_variant, bindings: out, span }
        },
        HirPattern::Tuple { elements, span } => {
            let ghost all = elements;
            proof { assert(decreases_to!(pat => pat->Tuple_elements)); }
            let mut rest = elements;
            let mut out: Vec<HirPattern> = Vec::new();
            let total: usize = rest.len();
            assert(total == all@.len());
            let mut n: usize = 0;
            while rest.len() > 0
                invariant
                    decreases_to!(pat => all),
                    all@.len() <= usize::MAX,
                    rest@ == all@.skip(n as int),
                    n + rest@.len() == all@.len(),
                    out@.len() == n,
                    forall|k: int| 0 <= k < n ==> remapped_pat(#[trigger] all@[k], mapping@, out@[k]),
                decreases rest@.len(),
            {
                let sub = rest.remove(0);
                proof {
                    assert(all@[n as int] == sub);
                    assert(rest@ == all@.skip(n + 1));
                    assert(decreases_to!(all => all@[n as int]));
                }
                out.push(remap_pattern(sub, mapping));
                n = n + 1;
            }
            HirPattern::Tuple { elements: out, span }
        },
        HirPattern::OptionSome(x) => HirPattern::OptionSome(Box::new(remap_pattern(*x, mapping))),
        HirPattern::ResultOk(x) => HirPattern::ResultOk(Box::new(remap_pattern(*x, mapping))),
        HirPattern::ResultErr(x) => HirPattern::ResultErr(Box::new(remap_pattern(*x, mapping))),
        other => other,
    }
}

/// Remaps an expression; see `remapped_expr`.
fn remap_expr(expr: HirExpr, mapping: &SymbolMap) -> (r: HirExpr)
    ensures
        remapped_expr(expr, mapping@, r),
    decreases expr, 0nat,
{
    match expr {
        HirExpr::Ident { id, name, span } => HirExpr::Ident { id, name: remap_sym(name, mapping), span },
        HirExpr::AddrOf { id, target, span } => HirExpr::AddrOf { id, target: remap_sym(target, mapping), span },
        HirExpr::Call { id, callee, args, span } => {
            let c = remap_sym(callee, mapping);
            HirExpr::Call { id, callee: c, args: remap_exprs(args, mapping), span }
        },
        HirExpr::MethodCall { id, receiver, method_name, resolved_callee, args, span } => {
            let r = remap_expr(*receiver, mapping);
            let n = remap_sym(method_name, mapping);
            let c = match resolved_callee {
                Some(c) => Some(remap_sym(c, mapping)),
                None => None,
            };
            HirExpr::MethodCall { id, receiver: Box::new(r), method_name: n, resolved_callee: c, args: remap_exprs(args, mapping), span }
        },
        HirExpr::FieldAccess { id, object, field, span } => {
            let o = remap_expr(*object, mapping);
            HirExpr::FieldAccess { id, object: Box::new(o), field: remap_sym(field, mapping), span }
        },
        HirExpr::StructLit { id, struct_name, fields, span } => {
            let n = remap_sym(struct_name, mapping);
            HirExpr::StructLit { id, struct_name: n, fields: remap_fields(fields, mapping), span }
        },
        HirExpr::EnumVariant { id, enum_name, variant_name, args, span } => {
            let e = remap_sym(enum_name, mapping);
            let v = remap_sym(variant_name, mapping);
            HirExpr::EnumVariant { id, enum_name: e, variant_name: v, args: remap_exprs(args, mapping), span }
        },
        HirExpr::Block { id, stmts, span } => HirExpr::Block { id, stmts: remap_stmts(stmts, mapping), span },
        HirExpr::Binary { id, op, lhs, rhs, span } => {
            let l = remap_expr(*lhs, mapping);
            let r = remap_expr(*rhs, mapping);
            HirExpr::Binary { id, op, lhs: Box::new(l), rhs: Box::new(r), span }
        },
        HirExpr::Unary { id, op, operand, span } => {
            let x = remap_expr(*operand, mapping);
            HirExpr::Unary { id, op, operand: Box::new(x), span }
        },
        HirExpr::Deref { id, expr: inner, span } => {
            let x = remap_expr(*inner, mapping);
            HirExpr::Deref { id, expr: Box::new(x), span }
        },
        HirExpr::As { id, expr: inner, target_type, span } => {
            let x = remap_expr(*inner, mapping);
            let t = remap_type(&target_type, mapping);
            HirExpr::As { id, expr: Box::new(x), target_type: t, span }
        },
        HirExpr::SizeOf { id, target_type, span } => {
            let t = remap_type(&target_type, mapping);
            HirExpr::SizeOf { id, target_type: t, span }
        },
        HirExpr::Return { id, value, span } => HirExpr::Return { id, value: remap_opt(value, mapping), span },
        HirExpr::Println { id, arg, span } => {
            let x = remap_expr(*arg, mapping);
            HirExpr::Println { id, arg: Box::new(x), span }
        },
        HirExpr::Assert { id, condition, message, span } => {
            let c = remap_expr(*condition, mapping);
            HirExpr::Assert { id, condition: Box::new(c), message: remap_opt(message, mapping), span }
        },
        HirExpr::If { id, condition, then_branch, else_branch, span } => {
            let c = remap_expr(*condition, mapping);
            let t = remap_expr(*then_branch, mapping);
            HirExpr::If { id, condition: Box::new(c), then_branch: Box::new(t), else_branch: remap_opt(else_branch, mapping), span }
        },
        HirExpr::Match { id, scrutinee, arms, span } => {
            let c = remap_expr(*scrutinee, mapping);
            HirExpr::Match { id, scrutinee: Box::new(c), arms: remap_arms(arms, mapping), span }
        },
        HirExpr::While { id, condition, body, span } => {
            let c = remap_expr(*condition, mapping);
            let b = remap_expr(*body, mapping);
            HirExpr::While { id, condition: Box::new(c), body: Box::new(b), span }
        },
        HirExpr::ForIn { id, pattern, iter, body, span } => {
            let p = remap_pattern(pattern, mapping);
            let t = remap_expr(*iter, mapping);
            let b = remap_expr(*body, mapping);
            HirExpr::ForIn { id, pattern: p, iter: Box::new(t), body: Box::new(b), span }
        },
        HirExpr::TupleLit { id, elements, span } => HirExpr::TupleLit { id, elements: remap_exprs(elements, mapping), span },
        other => other,
    }
}

/// Remaps an optional boxed expression.
fn remap_opt(o: Option<Box<HirExpr>>, mapping: &SymbolMap) -> (r: Option<Box<HirExpr>>)
    ensures
        remapped_opt(o, mapping@, r),
    decreases o, 0nat,
{
    match o {
        Some(x) => Some(Box::new(remap_expr(*x, mapping))),
        None => None,
    }
}

/// Remaps each expression of `xs`, in order.
fn remap_exprs(xs: Vec<HirExpr>, mapping: &SymbolMap) -> (r: Vec<HirExpr>)
    ensures
        remapped_exprs(xs, mapping@, r),
    decreases xs, 0nat,
{
    let ghost all = xs;
    let mut rest = xs;
    let total: usize = rest.len();
    let mut out: Vec<HirExpr> = Vec::new();
    let mut n: usize = 0;
    while rest.len() > 0
        invariant
            all == xs,
            total == all@.len(),
            rest@ == all@.skip(n as int),
            n + rest@.len() == all@.len(),
            out@.len() == n,
            forall|k: int| 0 <= k < n ==> remapped_expr(#[trigger] all@[k], mapping@, out@[k]),
        decreases rest@.len(),
    {
        let x = rest.remove(0);
        proof {
            assert(all@[n as int] == x);
            assert(rest@ == all@.skip(n + 1));
            assert(decreases_to!(xs => xs@[n as int]));
        }
        out.push(remap_expr(x, mapping));
        n = n + 1;
    }
    out
}

/// Remaps each struct literal field of `xs`, in order.
fn remap_fields(xs: Vec<(Symbol, HirExpr)>, mapping: &SymbolMap) -> (r: Vec<(Symbol, HirExpr)>)
    ensures
        remapped_fields(xs, mapping@, r),
    decreases xs, 0nat,
{
    let ghost all = xs;
    let mut rest = xs;
    let total: usize = rest.len();
    let mut out: Vec<(Symbol, HirExpr)> = Vec::new();
    let mut n: usize = 0;
    while rest.len() > 0
        invariant
            all == xs,
            total == all@.len(),
            rest@ == all@.skip(n as int),
            n + rest@.len() == all@.len(),
            out@.len() == n,
            forall|k: int| 0 <= k < n ==> (#[trigger] out@[k]).0 == rsym(all@[k].0, mapping@)
                && remapped_expr(all@[k].1, mapping@, out@[k].1),
        decreases rest@.len(),
    {
        let (f, x) = rest.remove(0);
        proof {
            assert(all@[n as int] == (f, x));
            assert(rest@ == all@.skip(n + 1));
            assert(decreases_to!(xs => xs@[n as int]));
            assert(decreases_to!(xs@[n as int] => xs@[n as int].1));
        }
        let nf = remap_sym(f, mapping);
        out.push((nf, remap_expr(x, mapping)));
        n = n + 1;
    }
    out
}

/// Remaps each statement of `xs`, in order.
fn remap_stmts(xs: Vec<HirStmt>, mapping: &SymbolMap) -> (r: Vec<HirStmt>)
    ensures
        remapped_stmts(xs, mapping@, r),
    decreases xs, 0nat,
{
    let ghost all = xs;
    let mut rest = xs;
    let total: usize = rest.len();
    let mut out: Vec<HirStmt> = Vec::new();
    let mut n: usize = 0;
    while rest.len() > 0
        invariant
            all == xs,
            total == all@.len(),
            rest@ == all@.skip(n as int),
            n + rest@.len() == all@.len(),
            out@.len() == n,
            forall|k: int| 0 <= k < n ==> remapped_stmt(#[trigger] all@[k], mapping@, out@[k]),
        decreases rest@.len(),
    {
        let x = rest.remove(0);
        proof {
            assert(all@[n as int] == x);
            assert(rest@ == all@.skip(n + 1));
            assert(decreases_to!(xs => xs@[n as int]));
        }
        out.push(remap_stmt(x, mapping));
        n = n + 1;
    }
    out
}

/// Remaps each match arm of `xs`, in order.
fn remap_arms(xs: Vec<MatchArm>, mapping: &SymbolMap) -> (r: Vec<MatchArm>)
    ensures
        remapped_arms(xs, mapping@, r),
    decreases xs, 0nat,
{
    let ghost all = xs;
    let mut rest = xs;
    let total: usize = rest.len();
    let mut out: Vec<MatchArm> = Vec::new();
    let mut n: usize = 0;
    while rest.len() > 0
        invariant
            all == xs,
            total == all@.len(),
            rest@ == all@.skip(n as int),
            n + rest@.len() == all@.len(),
            out@.len() == n,
            forall|k: int| 0 <= k < n ==> remapped_arm(#[trigger] all@[k], mapping@, out@[k]),
        decreases rest@.len(),
    {
        let x = rest.remove(0);
        proof {
            assert(all@[n as int] == x);
            assert(rest@ == all@.skip(n + 1));
            assert(decreases_to!(xs => xs@[n as int]));
        }
        out.push(remap_arm(x, mapping));
        n = n + 1;
    }
    out
}

/// Remaps a statement; see `remapped_stmt`.
fn remap_stmt(stmt: HirStmt, mapping: &SymbolMap) -> (r: HirStmt)
    ensures
        remapped_stmt(stmt, mapping@, r),
    decreases stmt, 0nat,
{
    match stmt {
        HirStmt::Let { name, mutable, value, span } => {
            let n = remap_sym(name, mapping);
            HirStmt::Let { name: n, mutable, value: remap_expr(value, mapping), span }
        },
        HirStmt::LetPat { pattern, mutable, value, ty, span } => {
            let p = remap_pattern(pattern, mapping);
            let t = match ty {
                Some(t) => Some(remap_type(&t, mapping)),
                None => None,
            };
            HirStmt::LetPat { pattern: p, mutable, value: remap_expr(value, mapping), ty: t, span }
        },
        HirStmt::AssignDeref { target, value, span } => {
            let t = remap_expr(*target, mapping);
            HirStmt::AssignDeref { target: Box::new(t), value: remap_expr(value, mapping), span }
        },
        HirStmt::AssignField { object, field, value, span } => {
            let o = remap_expr(*object, mapping);
            let f = remap_sym(field, mapping);
            HirStmt::AssignField { object: Box::new(o), field: f, value: remap_expr(value, mapping), span }
        },
        HirStmt::Assign { target, value, span } => {
            let t = remap_sym(target, mapping);
            HirStmt::Assign { target: t, value: remap_expr(value, mapping), span }
        },
        HirStmt::Expr(e) => HirStmt::Expr(remap_expr(e, mapping)),
    }
}

/// Remaps a match arm; see `remapped_arm`.
fn remap_arm(arm: MatchArm, mapping: &SymbolMap) -> (r: MatchArm)
    ensures
        remapped_arm(arm, mapping@, r),
    decreases arm, 0nat,
{
    let MatchArm { pattern, guard, body } = arm;
    let p = remap_pattern(pattern, mapping);
    let g = match guard {
        Some(x) => Some(remap_expr(x, mapping)),
        None => None,
    };
    MatchArm { pattern: p, guard: g, body: remap_expr(body, mapping) }
}

/// `g` is the function `f` with its name, type parameters, parameters (names and
/// types), return type and body remapped; the rest is kept.
pub open spec fn remapped_fn(f: HirFn, m: Map<Symbol, Symbol>, g: HirFn) -> bool {
    &&& g.name == rsym(f.name, m)
    &&& g.doc == f.doc
    &&& g.type_params@.len() == f.type_params@.len()
    &&& forall|i: int| 0 <= i < f.type_params@.len() ==> #[trigger] g.type_params@[i] == rsym(f.type_params@[i], m)
    &&& g.params@.len() == f.params@.len()
    &&& forall|i: int| 0 <= i < f.params@.len() ==> (#[trigger] g.params@[i]).0 == rsym(f.params@[i].0, m)
            && remapped_type(f.params@[i].1, m, g.params@[i].1)
    &&& g.param_mutability == f.param_mutability
    &&& match f.ret {
        Some(t) => g.ret matches Some(u) && remapped_type(t, m, u),
        None => g.ret is None,
    }
    &&& remapped_expr(f.body, m, g.body)
    &&& g.span == f.span
    &&& g.is_pub == f.is_pub
    &&& g.is_macro_generated == f.is_macro_generated
    &&& g.is_extern_backed == f.is_extern_backed
}

/// A field with its name and type remapped.
pub open spec fn remapped_field(f: StructField, m: Map<Symbol, Symbol>, out: StructField) -> bool {
    out.name == rsym(f.name, m) && out.doc == f.doc && remapped_type(f.ty, m, out.ty)
}

/// Fields with their names and types remapped, in order.
pub open spec fn remapped_field_list(fs: Seq<StructField>, m: Map<Symbol, Symbol>, out: Seq<StructField>) -> bool {
    &&& out.len() == fs.len()
    &&& forall|i: int| 0 <= i < fs.len() ==> remapped_field(fs[i], m, #[trigger] out[i])
}

/// Symbols remapped one by one, in order.
pub open spec fn remapped_syms(xs: Seq<Symbol>, m: Map<Symbol, Symbol>, out: Seq<Symbol>) -> bool {
    &&& out.len() == xs.len()
    &&& forall|i: int| 0 <= i < xs.len() ==> #[trigger] out[i] == rsym(xs[i], m)
}

/// Types remapped one by one, in order.
pub open spec fn remapped_type_list(xs: Seq<HirType>, m: Map<Symbol, Symbol>, out: Seq<HirType>) -> bool {
    &&& out.len() == xs.len()
    &&& forall|i: int| 0 <= i < xs.len() ==> remapped_type(#[trigger] xs[i], m, out[i])
}

/// A variant with its name and its fields remapped.
pub open spec fn remapped_variant(v: HirVariant, m: Map<Symbol, Symbol>, out: HirVariant) -> bool {
    &&& out.name == rsym(v.name, m)
    &&& out.tag == v.tag
    &&& out.doc == v.doc
    &&& remapped_field_list(v.fields@, m, out.fields@)
}

/// An extern function with its name, parameter types and return type remapped.
pub open spec fn remapped_extern(f: ExternFn, m: Map<Symbol, Symbol>, out: ExternFn) -> bool {
    out.name == rsym(f.name, m) && remapped_type_list(f.params@, m, out.params@) && remapped_type(f.ret, m, out.ret)
}

/// An item with every symbol in it remapped: names, type parameters and types; see
/// `remapped_fn` for functions and methods.
pub open spec fn remapped_item(item: HirItem, m: Map<Symbol, Symbol>, out: HirItem) -> bool {
    match item {
        HirItem::Fn(f) => out matches HirItem::Fn(g) && remapped_fn(f, m, g),
        HirItem::Struct(s) => out matches HirItem::Struct(t) && t.name == rsym(s.name, m) && t.doc == s.doc
            && remapped_syms(s.type_params@, m, t.type_params@) && t.span == s.span && t.is_pub == s.is_pub
            && remapped_field_list(s.fields@, m, t.fields@),
        HirItem::Enum(e) => out matches HirItem::Enum(t) && t.name == rsym(e.name, m) && t.doc == e.doc
            && remapped_syms(e.type_params@, m, t.type_params@) && t.span == e.span && t.is_pub == e.is_pub
            && t.variants@.len() == e.variants@.len()
            && forall|i: int| 0 <= i < e.variants@.len() ==> remapped_variant(e.variants@[i], m, #[trigger] t.variants@[i]),
        HirItem::Impl(imp) => out matches HirItem::Impl(t) && t.target_name == rsym(imp.target_name, m) && t.doc == imp.doc
            && remapped_syms(imp.type_params@, m, t.type_params@) && t.span == imp.span && t.is_pub == imp.is_pub
            && t.methods@.len() == imp.methods@.len()
            && forall|i: int| 0 <= i < imp.methods@.len() ==> remapped_fn(imp.methods@[i], m, #[trigger] t.methods@[i]),
        HirItem::Extern(ext) => out matches HirItem::Extern(t) && t.doc == ext.doc && t.span == ext.span
            && t.functions@.len() == ext.functions@.len()
            && forall|i: int| 0 <= i < ext.functions@.len() ==> remapped_extern(ext.functions@[i], m, #[trigger] t.functions@[i]),
    }
}

/// Remaps a function; see `remapped_fn`.
fn remap_fn(f: HirFn, mapping: &SymbolMap) -> (r: HirFn)
    ensures
        remapped_fn(f, mapping@, r),
{
    let HirFn { doc, name, type_params, params, param_mutability, ret, body, span, is_pub, is_macro_generated, is_extern_backed } = f;
    let new_name = remap_sym(name, mapping);
    let new_tps = remap_sym_list(type_params, mapping);
    let new_params = remap_params(params, mapping);
    let new_body = remap_expr(body, mapping);
    let new_ret = match ret {
        Some(t) => Some(remap_type(&t, mapping)),
        None => None,
    };
    HirFn {
        doc,
        name: new_name,
        type_params: new_tps,
        params: new_params,
        param_mutability,
        ret: new_ret,
        body: new_body,
        span,
        is_pub,
        is_macro_generated,
        is_extern_backed,
    }
}

/// Each symbol of `xs` remapped, in order.
fn remap_sym_list(xs: Vec<Symbol>, mapping: &SymbolMap) -> (r: Vec<Symbol>)
    ensures
        r@.len() == xs@.len(),
        forall|k: int| 0 <= k < xs@.len() ==> #[trigger] r@[k] == rsym(xs@[k], mapping@),
{
    let ghost all = xs;
    let mut rest = xs;
    let total: usize = rest.len();
    let mut out: Vec<Symbol> = Vec::new();
    let mut n: usize = 0;
    while rest.len() > 0
        invariant
            all == xs,
            total == all@.len(),
            rest@ == all@.skip(n as int),
            n + rest@.len() == all@.len(),
            out@.len() == n,
            forall|k: int| 0 <= k < n ==> #[trigger] out@[k] == rsym(all@[k], mapping@),
        decreases rest@.len(),
    {
        let x = rest.remove(0);
        proof {
            assert(all@[n as int] == x);
            assert(rest@ == all@.skip(n + 1));
        }
        out.push(remap_sym(x, mapping));
        n = n + 1;
    }
    out
}

/// Each parameter of `xs` with its name and type remapped, in order.
fn remap_params(xs: Vec<(Symbol, HirType)>, mapping: &SymbolMap) -> (r: Vec<(Symbol, HirType)>)
    ensures
        r@.len() == xs@.len(),
        forall|k: int| 0 <= k < xs@.len() ==> (#[trigger] r@[k]).0 == rsym(xs@[k].0, mapping@)
            && remapped_type(xs@[k].1, mapping@, r@[k].1),
{
    let ghost all = xs;
    let mut rest = xs;
    let total: usize = rest.len();
    let mut out: Vec<(Symbol, HirType)> = Vec::new();
    let mut n: usize = 0;
    while rest.len() > 0
        invariant
            all == xs,
            total == all@.len(),
            rest@ == all@.skip(n as int),
            n + rest@.len() == all@.len(),
            out@.len() == n,
            forall|k: int| 0 <= k < n ==> (#[trigger] out@[k]).0 == rsym(all@[k].0, mapping@)
                && remapped_type(all@[k].1, mapping@, out@[k].1),
        decreases rest@.len(),
    {
        let x = rest.remove(0);
        proof {
            assert(all@[n as int] == x);
            assert(rest@ == all@.skip(n + 1));
        }
        let (p, t) = x;
        let t2 = remap_type(&t, mapping);
        out.push((remap_sym(p, mapping), t2));
        n = n + 1;
    }
    out
}

/// Each field of `xs` with its name and type remapped, in order.
fn remap_field_list(xs: Vec<StructField>, mapping: &SymbolMap) -> (r: Vec<StructField>)
    ensures
        r@.len() == xs@.len(),
        forall|k: int| 0 <= k < xs@.len() ==> remapped_field(xs@[k], mapping@, #[trigger] r@[k]),
{
    let ghost all = xs;
    let mut rest = xs;
    let total: usize = rest.len();
    let mut out: Vec<StructField> = Vec::new();
    let mut n: usize = 0;
    while rest.len() > 0
        invariant
            all == xs,
            total == all@.len(),
            rest@ == all@.skip(n as int),
            n + rest@.len() == all@.len(),
            out@.len() == n,
            forall|k: int| 0 <= k < n ==> remapped_field(all@[k], mapping@, #[trigger] out@[k]),
        decreases rest@.len(),
    {
        let x = rest.remove(0);
        proof {
            assert(all@[n as int] == x);
            assert(rest@ == all@.skip(n + 1));
        }
        let StructField { name, ty, doc } = x;
        let t2 = remap_type(&ty, mapping);
        out.push(StructField { name: remap_sym(name, mapping), ty: t2, doc });
        n = n + 1;
    }
    out
}

/// Each variant of `xs` with its names remapped, in order.
fn remap_variants(xs: Vec<HirVariant>, mapping: &SymbolMap) -> (r: Vec<HirVariant>)
    ensures
        r@.len() == xs@.len(),
        forall|k: int| 0 <= k < xs@.len() ==> remapped_variant(xs@[k], mapping@, #[trigger] r@[k]),
{
    let ghost all = xs;
    let mut rest = xs;
    let total: usize = rest.len();
    let mut out: Vec<HirVariant> = Vec::new();
    let mut n: usize = 0;
    while rest.len() > 0
        invariant
            all == xs,
            total == all@.len(),
            rest@ == all@.skip(n as int),
            n + rest@.len() == all@.len(),
            out@.len() == n,
            forall|k: int| 0 <= k < n ==> remapped_variant(all@[k], mapping@, #[trigger] out@[k]),
        decreases rest@.len(),
    {
        let x = rest.remove(0);
        proof {
            assert(all@[n as int] == x);
            assert(rest@ == all@.skip(n + 1));
        }
        let HirVariant { name, fields, tag, doc } = x;
        let nf = remap_field_list(fields, mapping);
        out.push(HirVariant { name: remap_sym(name, mapping), fields: nf, tag, doc });
        n = n + 1;
    }
    out
}

/// Each method of `xs` remapped, in order.
fn remap_methods(xs: Vec<HirFn>, mapping: &SymbolMap) -> (r: Vec<HirFn>)
    ensures
        r@.len() == xs@.len(),
        forall|k: int| 0 <= k < xs@.len() ==> remapped_fn(xs@[k], mapping@, #[trigger] r@[k]),
{
    let ghost all = xs;
    let mut rest = xs;
    let total: usize = rest.len();
    let mut out: Vec<HirFn> = Vec::new();
    let mut n: usize = 0;
    while rest.len() > 0
        invariant
            all == xs,
            total == all@.len(),
            rest@ == all@.skip(n as int),
            n + rest@.len() == all@.len(),
            out@.len() == n,
            forall|k: int| 0 <= k < n ==> remapped_fn(all@[k], mapping@, #[trigger] out@[k]),
        decreases rest@.len(),
    {
        let x = rest.remove(0);
        proof {
            assert(all@[n as int] == x);
            assert(rest@ == all@.skip(n + 1));
        }
        out.push(remap_fn(x, mapping));
        n = n + 1;
    }
    out
}

/// Each extern function of `xs` remapped, in order; see `remapped_extern`.
fn remap_extern_fns(xs: Vec<ExternFn>, mapping: &SymbolMap) -> (r: Vec<ExternFn>)
    ensures
        r@.len() == xs@.len(),
        forall|k: int| 0 <= k < xs@.len() ==> remapped_extern(xs@[k], mapping@, #[trigger] r@[k]),
{
    let ghost all = xs;
    let mut rest = xs;
    let total: usize = rest.len();
    let mut out: Vec<ExternFn> = Vec::new();
    let mut n: usize = 0;
    while rest.len() > 0
        invariant
            all == xs,
            total == all@.len(),
            rest@ == all@.skip(n as int),
            n + rest@.len() == all@.len(),
            out@.len() == n,
            forall|k: int| 0 <= k < n ==> remapped_extern(all@[k], mapping@, #[trigger] out@[k]),
        decreases rest@.len(),
    {
        let x = rest.remove(0);
        proof {
            assert(all@[n as int] == x);
            assert(rest@ == all@.skip(n + 1));
        }
        let ExternFn { name, params, ret } = x;
        let ps = remap_types(&params, mapping);
        let rt = remap_type(&ret, mapping);
        out.push(ExternFn { name: remap_sym(name, mapping), params: ps, ret: rt });
        n = n + 1;
    }
    out
}

/// Each item of `xs` remapped, in order.
fn remap_items(xs: Vec<HirItem>, mapping: &SymbolMap) -> (r: Vec<HirItem>)
    ensures
        r@.len() == xs@.len(),
        forall|k: int| 0 <= k < xs@.len() ==> remapped_item(xs@[k], mapping@, #[trigger] r@[k]),
{
    let ghost all = xs;
    let mut rest = xs;
    let total: usize = rest.len();
    let mut out: Vec<HirItem> = Vec::new();
    let mut n: usize = 0;
    while rest.len() > 0
        invariant
            all == xs,
            total == all@.len(),
            rest@ == all@.skip(n as int),
            n + rest@.len() == all@.len(),
            out@.len() == n,
            forall|k: int| 0 <= k < n ==> remapped_item(all@[k], mapping@, #[trigger] out@[k]),
        decreases rest@.len(),
    {
        let x = rest.remove(0);
        proof {
            assert(all@[n as int] == x);
            assert(rest@ == all@.skip(n + 1));
        }
        out.push(remap_item(x, mapping));
        n = n + 1;
    }
    out
}

/// Remaps an item; see `remapped_item`.
fn remap_item(item: HirItem, mapping: &SymbolMap) -> (r: HirItem)
    ensures
        remapped_item(item, mapping@, r),
{
    match item {
        HirItem::Fn(f) => HirItem::Fn(remap_fn(f, mapping)),
        HirItem::Struct(sd) => {
            let StructDef { doc, name, type_params, fields, span, is_pub } = sd;
            let n = remap_sym(name, mapping);
            let tps = remap_sym_list(type_params, mapping);
            let fs = remap_field_list(fields, mapping);
            HirItem::Struct(StructDef { doc, name: n, type_params: tps, fields: fs, span, is_pub })
        },
        HirItem::Enum(ed) => {
            let EnumDef { doc, name, type_params, variants, span, is_pub } = ed;
            let n = remap_sym(name, mapping);
            let tps = remap_sym_list(type_params, mapping);
            let vs = remap_variants(variants, mapping);
            HirItem::Enum(EnumDef { doc, name: n, type_params: tps, variants: vs, span, is_pub })
        },
        HirItem::Impl(imp) => {
            let HirImplDef { doc, target_name, type_params, methods, span, is_pub } = imp;
            let t = remap_sym(target_name, mapping);
            let tps = remap_sym_list(type_params, mapping);
            let ms = remap_methods(methods, mapping);
            HirItem::Impl(HirImplDef { doc, target_name: t, type_params: tps, methods: ms, span, is_pub })
        },
        HirItem::Extern(ext) => {
            let ExternBlock { doc, functions, span } = ext;
            let fs = remap_extern_fns(functions, mapping);
            HirItem::Extern(ExternBlock { doc, functions: fs, span })
        },
    }
}

/// Replaces every symbol of the program, those inside its types included, by its image
/// under the mapping (see `remapped_item`); symbols that the mapping does not hold stay.
pub fn remap_symbols_in_hir(hir: &mut Hir, mapping: &SymbolMap)
    ensures
        final(hir).items@.len() == old(hir).items@.len(),
        forall|i: int| 0 <= i < old(hir).items@.len() ==> remapped_item(old(hir).items@[i], mapping@, #[trigger] final(hir).items@[i]),
{
    let mut items: Vec<HirItem> = Vec::new();
    std::mem::swap(&mut items, &mut hir.items);
    hir.items = remap_items(items, mapping);
}

/// A finite set of symbols.
pub struct SymbolSet {
    items: Vec<Symbol>,
}

impl View for SymbolSet {
    type V = Set<Symbol>;

    closed spec fn view(&self) -> Set<Symbol> {
        self.items@.to_set()
    }
}

impl SymbolSet {
    #[verifier::type_invariant]
    spec fn inv(&self) -> bool {
        self.items@.no_duplicates()
    }

    /// The empty set.
    pub fn new() -> (r: SymbolSet)
        ensures
            r@ == Set::<Symbol>::empty(),
    {
        let r = SymbolSet { items: Vec::new() };
        assert(r@ =~= Set::<Symbol>::empty());
        r
    }

    /// Whether `s` is in the set.
    pub fn contains(&self, s: &Symbol) -> (r: bool)
        ensures
            r == self@.contains(*s),
    {
        let mut i: usize = 0;
        while i < self.items.len()
            invariant
                0 <= i <= self.items@.len(),
                forall|j: int| 0 <= j < i ==> self.items@[j] != *s,
            decreases self.items@.len() - i,
        {
            if self.items[i] == *s {
                assert(self.items@[i as int] == *s);
                return true;
            }
            i = i + 1;
        }
        false
    }

    /// Adds `s`; true when it was not in the set before.
    pub fn insert(&mut self, s: Symbol) -> (r: bool)
        ensures
            final(self)@ == old(self)@.insert(s),
            r == !old(self)@.contains(s),
    {
        proof {
            use_type_invariant(&*self);
        }
        if self.contains(&s) {
            assert(self@.insert(s) =~= self@);
            return false;
        }
        let mut items: Vec<Symbol> = Vec::new();
        std::mem::swap(&mut items, &mut self.items);
        let ghost before = items@;
        items.push(s);
        proof {
            assert forall|a: int, b: int| 0 <= a < b < items@.len() implies items@[a] != items@[b] by {
                if b == before.len() {
                    assert(items@[a] == before[a]);
                    assert(before.contains(before[a]));
                }
            }
            assert forall|x: Symbol| items@.to_set().contains(x) <==> before.to_set().insert(s).contains(x) by {
                if items@.contains(x) {
                    let w = choose|w: int| 0 <= w < items@.len() && items@[w] == x;
                    if w < before.len() {
                        assert(before[w] == x);
                    }
                }
                if before.contains(x) {
                    let w = choose|w: int| 0 <= w < before.len() && before[w] == x;
                    assert(items@[w] == x);
                }
                if x == s {
                    assert(items@[before.len() as int] == x);
                }
            }
            assert(items@.to_set() =~= before.to_set().insert(s));
        }
        self.items = items;
        true
    }

    /// Number of symbols in the set.
    pub fn len(&self) -> (r: usize)
        ensures
            r == self@.len(),
    {
        proof {
            use_type_invariant(self);
            self.items@.unique_seq_to_set();
        }
        self.items.len()
    }
}

/// The symbols that a type names: named types, generic bases and opaque types.
pub open spec fn syms_type(t: HirType) -> Set<Symbol>
    decreases t, 0nat,
{
    match t {
        HirType::Named(s) => set![s],
        HirType::Opaque(s) => set![s],
        HirType::Generic(s, xs) => set![s] + syms_types(xs, xs@.len()),
        HirType::Tuple(xs) => syms_types(xs, xs@.len()),
        HirType::RawPtr(x) => syms_type(*x),
        HirType::Option(x) => syms_type(*x),
        HirType::Result(x, e) => syms_type(*x) + syms_type(*e),
        HirType::Func(xs, r) => syms_types(xs, xs@.len()) + syms_type(*r),
        _ => Set::empty(),
    }
}

/// The symbols of the first `n` types of `xs`.
pub open spec fn syms_types(xs: Vec<HirType>, n: nat) -> Set<Symbol>
    decreases xs, n,
{
    if n == 0 || n > xs@.len() {
        Set::empty()
    } else {
        syms_types(xs, (n - 1) as nat) + syms_type(xs@[n - 1])
    }
}

/// Adds the symbols of a type to `symbols`.
fn collect_type(ty: &HirType, symbols: &mut SymbolSet)
    ensures
        final(symbols)@ == old(symbols)@ + syms_type(*ty),
    decreases ty, 0nat,
{
    let ghost s0 = symbols@;
    match ty {
        HirType::Named(s) => {
            symbols.insert(*s);
        },
        HirType::Opaque(s) => {
            symbols.insert(*s);
        },
        HirType::Generic(s, xs) => {
            proof { assert(decreases_to!(*ty => (*ty)->Generic_1)); }
            symbols.insert(*s);
            collect_types(xs, symbols);
        },
        HirType::Tuple(xs) => {
            proof { assert(decreases_to!(*ty => (*ty)->Tuple_0)); }
            collect_types(xs, symbols);
        },
        HirType::RawPtr(x) => collect_type(x, symbols),
        HirType::Option(x) => collect_type(x, symbols),
        HirType::Result(x, e) => {
            collect_type(x, symbols);
            collect_type(e, symbols);
        },
        HirType::Func(xs, r) => {
            proof { assert(decreases_to!(*ty => (*ty)->Func_0)); }
            collect_types(xs, symbols);
            collect_type(r, symbols);
        },
        _ => {},
    }
    assert(symbols@ =~= s0 + syms_type(*ty));
}

/// Adds the symbols of each type of `xs`.
fn collect_types(xs: &Vec<HirType>, symbols: &mut SymbolSet)
    ensures
        final(symbols)@ == old(symbols)@ + syms_types(*xs, xs@.len()),
    decreases xs, xs@.len(),
{
    let mut i: usize = 0;
    while i < xs.len()
        invariant
            0 <= i <= xs@.len(),
            symbols@ == old(symbols)@ + syms_types(*xs, i as nat),
        decreases xs@.len() - i,
    {
        proof { assert(decreases_to!(*xs => xs@[i as int])); }
        collect_type(&xs[i], symbols);
        assert(symbols@ =~= old(symbols)@ + syms_types(*xs, (i + 1) as nat));
        i = i + 1;
    }
}

/// Adds every symbol that a type names to `symbols`.
pub fn collect_symbols_from_type(ty: &HirType, symbols: &mut SymbolSet)
    ensures
        final(symbols)@ == old(symbols)@ + syms_type(*ty),
{
    collect_type(ty, symbols);
}

/// The symbols that an expression mentions: names of variables, functions, methods,
/// fields, structs, enums and variants, the types of `sizeof` and of annotated `let`s,
/// and what its sub-expressions, statements and patterns mention.
pub open spec fn syms_expr(e: HirExpr) -> Set<Symbol>
    decreases e, 0nat,
{
    match e {
        HirExpr::Ident { name, .. } => set![name],
        HirExpr::AddrOf { target, .. } => set![target],
        HirExpr::Binary { lhs, rhs, .. } => syms_expr(*lhs) + syms_expr(*rhs),
        HirExpr::Unary { operand, .. } => syms_expr(*operand),
        HirExpr::Deref { expr, .. } => syms_expr(*expr),
        HirExpr::As { expr, .. } => syms_expr(*expr),
        HirExpr::Block { stmts, .. } => syms_stmts(stmts, stmts@.len()),
        HirExpr::If { condition, then_branch, else_branch, .. } => syms_expr(*condition) + syms_expr(*then_branch) + syms_opt(else_branch),
        HirExpr::Println { arg, .. } => syms_expr(*arg),
        HirExpr::Assert { condition, message, .. } => syms_expr(*condition) + syms_opt(message),
        HirExpr::Call { callee, args, .. } => set![callee] + syms_exprs(args, args@.len()),
        HirExpr::MethodCall { receiver, method_name, resolved_callee, args, .. } => syms_expr(*receiver) + set![method_name]
            + match resolved_callee {
                Some(c) => set![c],
                None => Set::empty(),
            } + syms_exprs(args, args@.len()),
        HirExpr::Match { scrutinee, arms, .. } => syms_expr(*scrutinee) + syms_arms(arms, arms@.len()),
        HirExpr::FieldAccess { object, field, .. } => syms_expr(*object) + set![field],
        HirExpr::StructLit { struct_name, fields, .. } => set![struct_name] + syms_fields(fields, fields@.len()),
        HirExpr::EnumVariant { enum_name, variant_name, args, .. } => set![enum_name, variant_name] + syms_exprs(args, args@.len()),
        HirExpr::ForIn { pattern, iter, body, .. } => syms_pat(pattern) + syms_expr(*iter) + syms_expr(*body),
        HirExpr::While { condition, body, .. } => syms_expr(*condition) + syms_expr(*body),
        HirExpr::Return { value, .. } => syms_opt(value),
        HirExpr::SizeOf { target_type, .. } => syms_type(target_type),
        HirExpr::TupleLit { elements, .. } => syms_exprs(elements, elements@.len()),
        _ => Set::empty(),
    }
}

/// The symbols of an optional boxed expression.
pub open spec fn syms_opt(o: Option<Box<HirExpr>>) -> Set<Symbol>
    decreases o, 0nat,
{
    match o {
        Some(x) => syms_expr(*x),
        None => Set::empty(),
    }
}

/// The symbols of the first `n` expressions.
pub open spec fn syms_exprs(xs: Vec<HirExpr>, n: nat) -> Set<Symbol>
    decreases xs, n,
{
    if n == 0 || n > xs@.len() { Set::empty() } else { syms_exprs(xs, (n - 1) as nat) + syms_expr(xs@[n - 1]) }
}

/// The symbols of the first `n` struct literal fields: names and values.
pub open spec fn syms_fields(xs: Vec<(Symbol, HirExpr)>, n: nat) -> Set<Symbol>
    decreases xs, n,
{
    if n == 0 || n > xs@.len() { Set::empty() } else { syms_fields(xs, (n - 1) as nat) + set![xs@[n - 1].0] + syms_expr(xs@[n - 1].1) }
}

/// The symbols of the first `n` statements.
pub open spec fn syms_stmts(xs: Vec<HirStmt>, n: nat) -> Set<Symbol>
    decreases xs, n,
{
    if n == 0 || n > xs@.len() { Set::empty() } else { syms_stmts(xs, (n - 1) as nat) + syms_stmt(xs@[n - 1]) }
}

/// The symbols of the first `n` match arms.
pub open spec fn syms_arms(xs: Vec<MatchArm>, n: nat) -> Set<Symbol>
    decreases xs, n,
{
    if n == 0 || n > xs@.len() { Set::empty() } else { syms_arms(xs, (n - 1) as nat) + syms_arm(xs@[n - 1]) }
}

/// The symbols of a statement.
pub open spec fn syms_stmt(st: HirStmt) -> Set<Symbol>
    decreases st, 0nat,
{
    match st {
        HirStmt::Let { name, value, .. } => set![name] + syms_expr(value),
        HirStmt::LetPat { pattern, value, ty, .. } => syms_pat(pattern) + syms_expr(value) + match ty {
            Some(t) => syms_type(t),
            None => Set::empty(),
        },
        HirStmt::Assign { target, value, .. } => set![target] + syms_expr(value),
        HirStmt::AssignDeref { target, value, .. } => syms_expr(*target) + syms_expr(value),
        HirStmt::AssignField { object, field, value, .. } => syms_expr(*object) + set![field] + syms_expr(value),
        HirStmt::Expr(e) => syms_expr(e),
    }
}

/// The symbols of a match arm.
pub open spec fn syms_arm(a: MatchArm) -> Set<Symbol>
    decreases a, 0nat,
{
    syms_pat(a.pattern) + match a.guard {
        Some(g) => syms_expr(g),
        None => Set::empty(),
    } + syms_expr(a.body)
}

/// The symbols of a pattern: bound variables and struct, enum, variant and field names.
pub open spec fn syms_pat(p: HirPattern) -> Set<Symbol>
    decreases p, 0nat,
{
    match p {
        HirPattern::Var(s) => set![s],
        HirPattern::Struct { name, bindings, .. } => set![name] + syms_bindings(bindings, bindings@.len()),
        HirPattern::EnumVariant { enum_name, variant_name, bindings, .. } => set![enum_name, variant_name] + syms_bindings(bindings, bindings@.len()),
        HirPattern::Tuple { elements, .. } => syms_pats(elements, elements@.len()),
        HirPattern::OptionSome(x) => syms_pat(*x),
        HirPattern::ResultOk(x) => syms_pat(*x),
        HirPattern::ResultErr(x) => syms_pat(*x),
        _ => Set::empty(),
    }
}

/// The symbols of the first `n` named sub-patterns.
pub open spec fn syms_bindings(xs: Vec<(Symbol, HirPattern)>, n: nat) -> Set<Symbol>
    decreases xs, n,
{
    if n == 0 || n > xs@.len() { Set::empty() } else { syms_bindings(xs, (n - 1) as nat) + set![xs@[n - 1].0] + syms_pat(xs@[n - 1].1) }
}

/// The symbols of the first `n` patterns.
pub open spec fn syms_pats(xs: Vec<HirPattern>, n: nat) -> Set<Symbol>
    decreases xs, n,
{
    if n == 0 || n > xs@.len() { Set::empty() } else { syms_pats(xs, (n - 1) as nat) + syms_pat(xs@[n - 1]) }
}

/// Adds the symbols of a pattern.
fn collect_pattern(pat: &HirPattern, symbols: &mut SymbolSet)
    ensures
        final(symbols)@ == old(symbols)@ + syms_pat(*pat),
    decreases pat, 0nat,
{
    let ghost s0 = symbols@;
    match pat {
        HirPattern::Var(sym) => {
            symbols.insert(*sym);
        },
        HirPattern::Struct { name, bindings, .. } => {
            proof { assert(decreases_to!(*pat => (*pat)->Struct_bindings)); }
            symbols.insert(*name);
            collect_bindings(bindings, symbols);
        },
        HirPattern::EnumVariant { enum_name, variant_name, bindings, .. } => {
            proof { assert(decreases_to!(*pat => (*pat)->EnumVariant_bindings)); }
            symbols.insert(*enum_name);
            symbols.insert(*variant_name);
            collect_bindings(bindings, symbols);
        },
        HirPattern::Tuple { elements, .. } => {
            proof { assert(decreases_to!(*pat => (*pat)->Tuple_elements)); }
            let mut i: usize = 0;
            while i < elements.len()
                invariant
                    0 <= i <= elements@.len(),
                    symbols@ == s0 + syms_pats(*elements, i as nat),
                    decreases_to!(*pat => *elements),
                decreases elements@.len() - i,
            {
                proof { assert(decreases_to!(*elements => elements@[i as int])); }
                collect_pattern(&elements[i], symbols);
                assert(symbols@ =~= s0 + syms_pats(*elements, (i + 1) as nat));
                i = i + 1;
            }
        },
        HirPattern::OptionSome(x) => collect_pattern(x, symbols),
        HirPattern::ResultOk(x) => collect_pattern(x, symbols),
        HirPattern::ResultErr(x) => collect_pattern(x, symbols),
        _ => {},
    }
    assert(symbols@ =~= s0 + syms_pat(*pat));
}

/// Adds the symbols of named sub-patterns.
fn collect_bindings(xs: &Vec<(Symbol, HirPattern)>, symbols: &mut SymbolSet)
    ensures
        final(symbols)@ == old(symbols)@ + syms_bindings(*xs, xs@.len()),
    decreases xs, xs@.len(),
{
    let mut i: usize = 0;
    while i < xs.len()
        invariant
            0 <= i <= xs@.len(),
            symbols@ == old(symbols)@ + syms_bindings(*xs, i as nat),
        decreases xs@.len() - i,
    {
        proof {
            assert(decreases_to!(*xs => xs@[i as int]));
            assert(decreases_to!(xs@[i as int] => xs@[i as int].1));
        }
        symbols.insert(xs[i].0);
        collect_pattern(&xs[i].1, symbols);
        assert(symbols@ =~= old(symbols)@ + syms_bindings(*xs, (i + 1) as nat));
        i = i + 1;
    }
}

/// Adds the symbols of an expression.
fn collect_expr(expr: &HirExpr, symbols: &mut SymbolSet)
    ensures
        final(symbols)@ == old(symbols)@ + syms_expr(*expr),
    decreases expr, 0nat,
{
    let ghost s0 = symbols@;
    match expr {
        HirExpr::Ident { name, .. } => {
            symbols.insert(*name);
        },
        HirExpr::AddrOf { target, .. } => {
            symbols.insert(*target);
        },
        HirExpr::Binary { lhs, rhs, .. } => {
            collect_expr(lhs, symbols);
            collect_expr(rhs, symbols);
        },
        HirExpr::Unary { operand, .. } => collect_expr(operand, symbols),
        HirExpr::Deref { expr: inner, .. } => collect_expr(inner, symbols),
        HirExpr::As { expr: inner, .. } => collect_expr(inner, symbols),
        HirExpr::Block { stmts, .. } => {
            proof { assert(decreases_to!(*expr => (*expr)->Block_stmts)); }
            collect_stmts(stmts, symbols);
        },
        HirExpr::If { condition, then_branch, else_branch, .. } => {
            collect_expr(condition, symbols);
            collect_expr(then_branch, symbols);
            collect_opt(else_branch, symbols);
        },
        HirExpr::Println { arg, .. } => collect_expr(arg, symbols),
        HirExpr::Assert { condition, message, .. } => {
            collect_expr(condition, symbols);
            collect_opt(message, symbols);
        },
        HirExpr::Call { callee, args, .. } => {
            proof { assert(decreases_to!(*expr => (*expr)->Call_args)); }
            symbols.insert(*callee);
            collect_exprs(args, symbols);
        },
        HirExpr::MethodCall { receiver, method_name, resolved_callee, args, .. } => {
            proof { assert(decreases_to!(*expr => (*expr)->MethodCall_args)); }
            collect_expr(receiver, symbols);
            symbols.insert(*method_name);
            match resolved_callee {
                Some(c) => {
                    symbols.insert(*c);
                },
                None => {},
            }
            collect_exprs(args, symbols);
        },
        HirExpr::Match { scrutinee, arms, .. } => {
            proof { assert(decreases_to!(*expr => (*expr)->Match_arms)); }
            collect_expr(scrutinee, symbols);
            collect_arms(arms, symbols);
        },
        HirExpr::FieldAccess { object, field, .. } => {
            collect_expr(object, symbols);
            symbols.insert(*field);
        },
        HirExpr::StructLit { struct_name, fields, .. } => {
            proof { assert(decreases_to!(*expr => (*expr)->StructLit_fields)); }
            symbols.insert(*struct_name);
            collect_fields(fields, symbols);
        },
        HirExpr::EnumVariant { enum_name, variant_name, args, .. } => {
            proof { assert(decreases_to!(*expr => (*expr)->EnumVariant_args)); }
            symbols.insert(*enum_name);
            symbols.insert(*variant_name);
            collect_exprs(args, symbols);
        },
        HirExpr::ForIn { pattern, iter, body, .. } => {
            collect_pattern(pattern, symbols);
            collect_expr(iter, symbols);
            collect_expr(body, symbols);
        },
        HirExpr::While { condition, body, .. } => {
            collect_expr(condition, symbols);
            collect_expr(body, symbols);
        },
        HirExpr::Return { value, .. } => collect_opt(value, symbols),
        HirExpr::SizeOf { target_type, .. } => collect_type(target_type, symbols),
        HirExpr::TupleLit { elements, .. } => {
            proof { assert(decreases_to!(*expr => (*expr)->TupleLit_elements)); }
            collect_exprs(elements, symbols);
        },
        _ => {},
    }
    assert(symbols@ =~= s0 + syms_expr(*expr));
}

/// Adds the symbols of an optional boxed expression.
fn collect_opt(o: &Option<Box<HirExpr>>, symbols: &mut SymbolSet)
    ensures
        final(symbols)@ == old(symbols)@ + syms_opt(*o),
    decreases o, 0nat,
{
    match o {
        Some(x) => collect_expr(x, symbols),
        None => {
            assert(symbols@ =~= old(symbols)@ + syms_opt(*o));
        },
    }
}

/// Adds the symbols of each expression of `xs`.
fn collect_exprs(xs: &Vec<HirExpr>, symbols: &mut SymbolSet)
    ensures
        final(symbols)@ == old(symbols)@ + syms_exprs(*xs, xs@.len()),
    decreases xs, xs@.len(),
{
    let mut i: usize = 0;
    while i < xs.len()
        invariant
            0 <= i <= xs@.len(),
            symbols@ == old(symbols)@ + syms_exprs(*xs, i as nat),
        decreases xs@.len() - i,
    {
        proof { assert(decreases_to!(*xs => xs@[i as int])); }
        collect_expr(&xs[i], symbols);
        assert(symbols@ =~= old(symbols)@ + syms_exprs(*xs, (i + 1) as nat));
        i = i + 1;
    }
}

/// Adds the symbols of each struct literal field of `xs`.
fn collect_fields(xs: &Vec<(Symbol, HirExpr)>, symbols: &mut SymbolSet)
    ensures
        final(symbols)@ == old(symbols)@ + syms_fields(*xs, xs@.len()),
    decreases xs, xs@.len(),
{
    let mut i: usize = 0;
    while i < xs.len()
        invariant
            0 <= i <= xs@.len(),
            symbols@ == old(symbols)@ + syms_fields(*xs, i as nat),
        decreases xs@.len() - i,
    {
        proof {
            assert(decreases_to!(*xs => xs@[i as int]));
            assert(decreases_to!(xs@[i as int] => xs@[i as int].1));
        }
        symbols.insert(xs[i].0);
        collect_expr(&xs[i].1, symbols);
        assert(symbols@ =~= old(symbols)@ + syms_fields(*xs, (i + 1) as nat));
        i = i + 1;
    }
}

/// Adds the symbols of each statement of `xs`.
fn collect_stmts(xs: &Vec<HirStmt>, symbols: &mut SymbolSet)
    ensures
        final(symbols)@ == old(symbols)@ + syms_stmts(*xs, xs@.len()),
    decreases xs, xs@.len(),
{
    let mut i: usize = 0;
    while i < xs.len()
        invariant
            0 <= i <= xs@.len(),
            symbols@ == old(symbols)@ + syms_stmts(*xs, i as nat),
        decreases xs@.len() - i,
    {
        proof { assert(decreases_to!(*xs => xs@[i as int])); }
        collect_stmt(&xs[i], symbols);
        assert(symbols@ =~= old(symbols)@ + syms_stmts(*xs, (i + 1) as nat));
        i = i + 1;
    }
}

/// Adds the symbols of each match arm of `xs`.
fn collect_arms(xs: &Vec<MatchArm>, symbols: &mut SymbolSet)
    ensures
        final(symbols)@ == old(symbols)@ + syms_arms(*xs, xs@.len()),
    decreases xs, xs@.len(),
{
    let mut i: usize = 0;
    while i < xs.len()
        invariant
            0 <= i <= xs@.len(),
            symbols@ == old(symbols)@ + syms_arms(*xs, i as nat),
        decreases xs@.len() - i,
    {
        proof { assert(decreases_to!(*xs => xs@[i as int])); }
        let arm = &xs[i];
        let ghost s1 = symbols@;
        collect_pattern(&arm.pattern, symbols);
        match &arm.guard {
            Some(g) => collect_expr(g, symbols),
            None => {},
        }
        collect_expr(&arm.body, symbols);
        assert(symbols@ =~= s1 + syms_arm(*arm));
        assert(symbols@ =~= old(symbols)@ + syms_arms(*xs, (i + 1) as nat));
        i = i + 1;
    }
}

/// Adds the symbols of a statement.
fn collect_stmt(stmt: &HirStmt, symbols: &mut SymbolSet)
    ensures
        final(symbols)@ == old(symbols)@ + syms_stmt(*stmt),
    decreases stmt, 0nat,
{
    let ghost s0 = symbols@;
    match stmt {
        HirStmt::Let { name, value, .. } => {
            symbols.insert(*name);
            collect_expr(value, symbols);
        },
        HirStmt::LetPat { pattern, value, ty, .. } => {
            collect_pattern(pattern, symbols);
            collect_expr(value, symbols);
            match ty {
                Some(t) => collect_type(t, symbols),
                None => {},
            }
        },
        HirStmt::Assign { target, value, .. } => {
            symbols.insert(*target);
            collect_expr(value, symbols);
        },
        HirStmt::AssignDeref { target, value, .. } => {
            collect_expr(target, symbols);
            collect_expr(value, symbols);
        },
        HirStmt::AssignField { object, field, value, .. } => {
            collect_expr(object, symbols);
            symbols.insert(*field);
            collect_expr(value, symbols);
        },
        HirStmt::Expr(e) => collect_expr(e, symbols),
    }
    assert(symbols@ =~= s0 + syms_stmt(*stmt));
}

/// The symbols of the first `n` parameters: names and types.
pub open spec fn syms_params(ps: Seq<(Symbol, HirType)>, n: nat) -> Set<Symbol>
    decreases n,
{
    if n == 0 || n > ps.len() { Set::empty() } else { syms_params(ps, (n - 1) as nat) + set![ps[n - 1].0] + syms_type(ps[n - 1].1) }
}

/// The symbols of a function: its name, type parameters, parameters, return type and body.
pub open spec fn syms_fn(f: HirFn) -> Set<Symbol> {
    set![f.name] + f.type_params@.to_set() + syms_params(f.params@, f.params@.len())
        + match f.ret {
            Some(t) => syms_type(t),
            None => Set::empty(),
        } + syms_expr(f.body)
}

/// The names of the first `n` fields.
pub open spec fn field_names(fs: Seq<StructField>, n: nat) -> Set<Symbol>
    decreases n,
{
    if n == 0 || n > fs.len() { Set::empty() } else { field_names(fs, (n - 1) as nat).insert(fs[n - 1].name) }
}

/// The names of the first `n` variants and of their fields.
pub open spec fn variant_names(vs: Seq<HirVariant>, n: nat) -> Set<Symbol>
    decreases n,
{
    if n == 0 || n > vs.len() {
        Set::empty()
    } else {
        variant_names(vs, (n - 1) as nat).insert(vs[n - 1].name) + field_names(vs[n - 1].fields@, vs[n - 1].fields@.len())
    }
}

/// The symbols of the first `n` methods.
pub open spec fn syms_methods(ms: Seq<HirFn>, n: nat) -> Set<Symbol>
    decreases n,
{
    if n == 0 || n > ms.len() { Set::empty() } else { syms_methods(ms, (n - 1) as nat) + syms_fn(ms[n - 1]) }
}

/// The names of the first `n` extern functions.
pub open spec fn extern_names(fs: Seq<ExternFn>, n: nat) -> Set<Symbol>
    decreases n,
{
    if n == 0 || n > fs.len() { Set::empty() } else { extern_names(fs, (n - 1) as nat).insert(fs[n - 1].name) }
}

/// The symbols of an item: for a struct or an enum its name, field and variant names and
/// type parameters; for an impl its target, type parameters and methods; for an extern
/// block its functions' names.
pub open spec fn syms_item(item: HirItem) -> Set<Symbol> {
    match item {
        HirItem::Fn(f) => syms_fn(f),
        HirItem::Struct(sd) => set![sd.name] + field_names(sd.fields@, sd.fields@.len()) + sd.type_params@.to_set(),
        HirItem::Enum(ed) => set![ed.name] + variant_names(ed.variants@, ed.variants@.len()) + ed.type_params@.to_set(),
        HirItem::Impl(imp) => set![imp.target_name] + imp.type_params@.to_set() + syms_methods(imp.methods@, imp.methods@.len()),
        HirItem::Extern(ext) => extern_names(ext.functions@, ext.functions@.len()),
    }
}

/// The symbols of the first `n` items.
pub open spec fn syms_items(items: Seq<HirItem>, n: nat) -> Set<Symbol>
    decreases n,
{
    if n == 0 || n > items.len() { Set::empty() } else { syms_items(items, (n - 1) as nat) + syms_item(items[n - 1]) }
}

/// Adds each symbol of `xs`.
fn collect_sym_list(xs: &Vec<Symbol>, symbols: &mut SymbolSet)
    ensures
        final(symbols)@ == old(symbols)@ + xs@.to_set(),
{
    let mut i: usize = 0;
    while i < xs.len()
        invariant
            0 <= i <= xs@.len(),
            symbols@ == old(symbols)@ + xs@.subrange(0, i as int).to_set(),
        decreases xs@.len() - i,
    {
        symbols.insert(xs[i]);
        proof {
            let a = xs@.subrange(0, i as int);
            let b = xs@.subrange(0, i as int + 1);
            assert(b == a.push(xs@[i as int]));
            assert forall|x: Symbol| b.to_set().contains(x) <==> a.to_set().insert(xs@[i as int]).contains(x) by {
                if b.contains(x) {
                    let w = choose|w: int| 0 <= w < b.len() && b[w] == x;
                    if w < a.len() {
                        assert(a[w] == x);
                    }
                }
                if a.contains(x) {
                    let w = choose|w: int| 0 <= w < a.len() && a[w] == x;
                    assert(b[w] == x);
                }
                if x == xs@[i as int] {
                    assert(b[i as int] == x);
                }
            }
            assert(b.to_set() =~= a.to_set().insert(xs@[i as int]));
            assert(symbols@ =~= old(symbols)@ + b.to_set());
        }
        i = i + 1;
    }
    assert(xs@.subrange(0, xs@.len() as int) == xs@);
}

/// Adds the symbols of a function.
fn collect_fn(f: &HirFn, symbols: &mut SymbolSet)
    ensures
        final(symbols)@ == old(symbols)@ + syms_fn(*f),
{
    let ghost s0 = symbols@;
    symbols.insert(f.name);
    collect_sym_list(&f.type_params, symbols);
    let ghost s1 = symbols@;
    let mut i: usize = 0;
    while i < f.params.len()
        invariant
            0 <= i <= f.params@.len(),
            symbols@ == s1 + syms_params(f.params@, i as nat),
        decreases f.params@.len() - i,
    {
        symbols.insert(f.params[i].0);
        collect_type(&f.params[i].1, symbols);
        assert(symbols@ =~= s1 + syms_params(f.params@, (i + 1) as nat));
        i = i + 1;
    }
    match &f.ret {
        Some(t) => collect_type(t, symbols),
        None => {},
    }
    collect_expr(&f.body, symbols);
    assert(symbols@ =~= s0 + syms_fn(*f));
}

/// Adds the symbols of an item.
fn collect_item(item: &HirItem, symbols: &mut SymbolSet)
    ensures
        final(symbols)@ == old(symbols)@ + syms_item(*item),
{
    let ghost s0 = symbols@;
    match item {
        HirItem::Fn(f) => collect_fn(f, symbols),
        HirItem::Struct(sd) => {
            symbols.insert(sd.name);
            let ghost s1 = symbols@;
            let mut i: usize = 0;
            while i < sd.fields.len()
                invariant
                    0 <= i <= sd.fields@.len(),
                    symbols@ == s1 + field_names(sd.fields@, i as nat),
                decreases sd.fields@.len() - i,
            {
                symbols.insert(sd.fields[i].name);
                assert(symbols@ =~= s1 + field_names(sd.fields@, (i + 1) as nat));
                i = i + 1;
            }
            collect_sym_list(&sd.type_params, symbols);
        },
        HirItem::Enum(ed) => {
            symbols.insert(ed.name);
            let ghost s1 = symbols@;
            let mut i: usize = 0;
            while i < ed.variants.len()
                invariant
                    0 <= i <= ed.variants@.len(),
                    symbols@ == s1 + variant_names(ed.variants@, i as nat),
                decreases ed.variants@.len() - i,
            {
                let v = &ed.variants[i];
                symbols.insert(v.name);
                let ghost s2 = symbols@;
                let mut j: usize = 0;
                while j < v.fields.len()
                    invariant
                        0 <= j <= v.fields@.len(),
                        symbols@ == s2 + field_names(v.fields@, j as nat),
                    decreases v.fields@.len() - j,
                {
                    symbols.insert(v.fields[j].name);
                    assert(symbols@ =~= s2 + field_names(v.fields@, (j + 1) as nat));
                    j = j + 1;
                }
                assert(symbols@ =~= s1 + variant_names(ed.variants@, (i + 1) as nat));
                i = i + 1;
            }
            collect_sym_list(&ed.type_params, symbols);
        },
        HirItem::Impl(imp) => {
            symbols.insert(imp.target_name);
            collect_sym_list(&imp.type_params, symbols);
            let ghost s1 = symbols@;
            let mut i: usize = 0;
            while i < imp.methods.len()
                invariant
                    0 <= i <= imp.methods@.len(),
                    symbols@ == s1 + syms_methods(imp.methods@, i as nat),
                decreases imp.methods@.len() - i,
            {
                collect_fn(&imp.methods[i], symbols);
                assert(symbols@ =~= s1 + syms_methods(imp.methods@, (i + 1) as nat));
                i = i + 1;
            }
        },
        HirItem::Extern(ext) => {
            let mut i: usize = 0;
            while i < ext.functions.len()
                invariant
                    0 <= i <= ext.functions@.len(),
                    symbols@ == s0 + extern_names(ext.functions@, i as nat),
                decreases ext.functions@.len() - i,
            {
                symbols.insert(ext.functions[i].name);
                assert(symbols@ =~= s0 + extern_names(ext.functions@, (i + 1) as nat));
                i = i + 1;
            }
        },
    }
    assert(symbols@ =~= s0 + syms_item(*item));
}

/// Adds every symbol that the program mentions to `symbols`; see `syms_item`.
pub fn collect_all_symbols(hir: &Hir, symbols: &mut SymbolSet)
    ensures
        final(symbols)@ == old(symbols)@ + syms_items(hir.items@, hir.items@.len()),
{
    let mut i: usize = 0;
    while i < hir.items.len()
        invariant
            0 <= i <= hir.items@.len(),
            symbols@ == old(symbols)@ + syms_items(hir.items@, i as nat),
        decreases hir.items@.len() - i,
    {
        collect_item(&hir.items[i], symbols);
        assert(symbols@ =~= old(symbols)@ + syms_items(hir.items@, (i + 1) as nat));
        i = i + 1;
    }
}

/// The images under `m` of the symbols of `s`.
pub open spec fn image(s: Set<Symbol>, m: Map<Symbol, Symbol>) -> Set<Symbol> {
    Set::new(|y: Symbol| exists|x: Symbol| s.contains(x) && rsym(x, m) == y)
}

/// The image of a union is the union of the images.
proof fn lemma_image_union(a: Set<Symbol>, b: Set<Symbol>, m: Map<Symbol, Symbol>)
    ensures
        image(a + b, m) == image(a, m) + image(b, m),
{
    assert forall|y: Symbol| image(a + b, m).contains(y) <==> (image(a, m) + image(b, m)).contains(y) by {
        if image(a + b, m).contains(y) {
            let x = choose|x: Symbol| (a + b).contains(x) && rsym(x, m) == y;
            if a.contains(x) {
                assert(image(a, m).contains(y));
            } else {
                assert(image(b, m).contains(y));
            }
        }
        if image(a, m).contains(y) {
            let x = choose|x: Symbol| a.contains(x) && rsym(x, m) == y;
            assert((a + b).contains(x));
        }
        if image(b, m).contains(y) {
            let x = choose|x: Symbol| b.contains(x) && rsym(x, m) == y;
            assert((a + b).contains(x));
        }
    }
    assert(image(a + b, m) =~= image(a, m) + image(b, m));
}

/// The image of one symbol.
proof fn lemma_image_single(x: Symbol, m: Map<Symbol, Symbol>)
    ensures
        image(set![x], m) == set![rsym(x, m)],
{
    assert forall|y: Symbol| image(set![x], m).contains(y) <==> set![rsym(x, m)].contains(y) by {
        if y == rsym(x, m) {
            assert(set![x].contains(x));
        }
    }
    assert(image(set![x], m) =~= set![rsym(x, m)]);
}

/// Remapping a type and then collecting its symbols gives the images of the symbols
/// collected from the original type.
pub proof fn lemma_remap_type_symbols(t: HirType, m: Map<Symbol, Symbol>, out: HirType)
    requires
        remapped_type(t, m, out),
    ensures
        syms_type(out) == image(syms_type(t), m),
    decreases t, 0nat,
{
    match t {
        HirType::Named(x) => lemma_image_single(x, m),
        HirType::Opaque(x) => lemma_image_single(x, m),
        HirType::Generic(x, xs) => {
            assert(decreases_to!(t => t->Generic_1));
            let ys = out->Generic_1;
            lemma_remap_types_symbols(xs, m, ys, xs@.len());
            lemma_image_single(x, m);
            lemma_image_union(set![x], syms_types(xs, xs@.len()), m);
        },
        HirType::Tuple(xs) => {
            assert(decreases_to!(t => t->Tuple_0));
            lemma_remap_types_symbols(xs, m, out->Tuple_0, xs@.len());
        },
        HirType::Func(xs, r) => {
            assert(decreases_to!(t => t->Func_0));
            lemma_remap_types_symbols(xs, m, out->Func_0, xs@.len());
            lemma_remap_type_symbols(*r, m, *out->Func_1);
            lemma_image_union(syms_types(xs, xs@.len()), syms_type(*r), m);
        },
        HirType::RawPtr(x) => lemma_remap_type_symbols(*x, m, *out->RawPtr_0),
        HirType::Option(x) => lemma_remap_type_symbols(*x, m, *out->Option_0),
        HirType::Result(x, e) => {
            lemma_remap_type_symbols(*x, m, *out->Result_0);
            lemma_remap_type_symbols(*e, m, *out->Result_1);
            lemma_image_union(syms_type(*x), syms_type(*e), m);
        },
        _ => {
            assert(image(Set::empty(), m) =~= Set::empty());
        },
    }
}

/// List form of `lemma_remap_type_symbols`.
proof fn lemma_remap_types_symbols(xs: Vec<HirType>, m: Map<Symbol, Symbol>, ys: Vec<HirType>, n: nat)
    requires
        ys@.len() == xs@.len(),
        forall|i: int| 0 <= i < xs@.len() ==> remapped_type(#[trigger] xs@[i], m, ys@[i]),
    ensures
        syms_types(ys, n) == image(syms_types(xs, n), m),
    decreases xs, n,
{
    if n == 0 || n > xs@.len() {
        assert(image(Set::empty(), m) =~= Set::empty());
    } else {
        assert(decreases_to!(xs => xs@[n - 1]));
        lemma_remap_type_symbols(xs@[n - 1], m, ys@[n - 1]);
        lemma_remap_types_symbols(xs, m, ys, (n - 1) as nat);
        lemma_image_union(syms_types(xs, (n - 1) as nat), syms_type(xs@[n - 1]), m);
    }
}

/// Remapping with the empty mapping changes no symbol of a type.
pub proof fn lemma_remap_type_empty(t: HirType, out: HirType)
    requires
        remapped_type(t, Map::empty(), out),
    ensures
        crate::types::ty_eq(out, t),
    decreases t,
{
    match t {
        HirType::Generic(x, xs) => {
            let ys = out->Generic_1;
            assert(!Map::<Symbol, Symbol>::empty().contains_key(x));
            assert forall|i: int| 0 <= i < ys@.len() implies crate::types::ty_eq(#[trigger] ys@[i], xs@[i]) by {
                assert(decreases_to!(t => t->Generic_1));
                lemma_remap_type_empty(xs@[i], ys@[i]);
            }
            assert(crate::types::tys_eq(ys, xs));
        },
        HirType::Named(x) => {
            assert(!Map::<Symbol, Symbol>::empty().contains_key(x));
        },
        HirType::Opaque(x) => {
            assert(!Map::<Symbol, Symbol>::empty().contains_key(x));
        },
        HirType::Tuple(xs) => {
            let ys = out->Tuple_0;
            assert forall|i: int| 0 <= i < ys@.len() implies crate::types::ty_eq(#[trigger] ys@[i], xs@[i]) by {
                assert(decreases_to!(t => t->Tuple_0));
                lemma_remap_type_empty(xs@[i], ys@[i]);
            }
            assert(crate::types::tys_eq(ys, xs));
        },
        HirType::Func(xs, r) => {
            let ys = out->Func_0;
            assert forall|i: int| 0 <= i < ys@.len() implies crate::types::ty_eq(#[trigger] ys@[i], xs@[i]) by {
                assert(decreases_to!(t => t->Func_0));
                lemma_remap_type_empty(xs@[i], ys@[i]);
            }
            assert(crate::types::tys_eq(ys, xs));
            lemma_remap_type_empty(*r, *out->Func_1);
        },
        HirType::RawPtr(x) => lemma_remap_type_empty(*x, *out->RawPtr_0),
        HirType::Option(x) => lemma_remap_type_empty(*x, *out->Option_0),
        HirType::Result(x, e) => {
            lemma_remap_type_empty(*x, *out->Result_0);
            lemma_remap_type_empty(*e, *out->Result_1);
        },
        _ => {},
    }
}

/// The image of a union is the union of the images.
pub broadcast proof fn lemma_image_plus(a: Set<Symbol>, b: Set<Symbol>, m: Map<Symbol, Symbol>)
    ensures
        #[trigger] image(a + b, m) == image(a, m) + image(b, m),
{
    lemma_image_union(a, b, m);
}

/// The image of a set with one more symbol has that symbol's image too.
pub broadcast proof fn lemma_image_insert(a: Set<Symbol>, x: Symbol, m: Map<Symbol, Symbol>)
    ensures
        #[trigger] image(a.insert(x), m) == image(a, m).insert(rsym(x, m)),
{
    assert forall|y: Symbol| image(a.insert(x), m).contains(y) <==> image(a, m).insert(rsym(x, m)).contains(y) by {
        if image(a.insert(x), m).contains(y) {
            let z = choose|z: Symbol| a.insert(x).contains(z) && rsym(z, m) == y;
            if z != x {
                assert(a.contains(z));
            }
        }
        if image(a, m).contains(y) {
            let z = choose|z: Symbol| a.contains(z) && rsym(z, m) == y;
            assert(a.insert(x).contains(z));
        }
        if y == rsym(x, m) {
            assert(a.insert(x).contains(x));
        }
    }
    assert(image(a.insert(x), m) =~= image(a, m).insert(rsym(x, m)));
}

/// The image of the empty set is empty.
pub broadcast proof fn lemma_image_empty(m: Map<Symbol, Symbol>)
    ensures
        #[trigger] image(Set::<Symbol>::empty(), m) == Set::<Symbol>::empty(),
{
    assert(image(Set::<Symbol>::empty(), m) =~= Set::<Symbol>::empty());
}

/// The set of a list of remapped symbols is the image of the list's set.
proof fn lemma_image_syms(xs: Seq<Symbol>, m: Map<Symbol, Symbol>, ys: Seq<Symbol>)
    requires
        remapped_syms(xs, m, ys),
    ensures
        ys.to_set() == image(xs.to_set(), m),
{
    assert forall|y: Symbol| ys.to_set().contains(y) <==> image(xs.to_set(), m).contains(y) by {
        if ys.contains(y) {
            let w = choose|w: int| 0 <= w < ys.len() && ys[w] == y;
            assert(xs.contains(xs[w]));
            assert(xs.to_set().contains(xs[w]));
        }
        if image(xs.to_set(), m).contains(y) {
            let z = choose|z: Symbol| xs.to_set().contains(z) && rsym(z, m) == y;
            let w = choose|w: int| 0 <= w < xs.len() && xs[w] == z;
            assert(ys[w] == y);
        }
    }
    assert(ys.to_set() =~= image(xs.to_set(), m));
}

/// Remapping a pattern maps its symbols.
proof fn lemma_remap_pat_symbols(p: HirPattern, m: Map<Symbol, Symbol>, out: HirPattern)
    requires
        remapped_pat(p, m, out),
    ensures
        syms_pat(out) == image(syms_pat(p), m),
    decreases p, 0nat,
{
    broadcast use lemma_image_plus, lemma_image_insert, lemma_image_empty;
    match p {
        HirPattern::Struct { name, bindings, span } => {
            assert(decreases_to!(p => p->Struct_bindings));
            lemma_remap_bindings_symbols(bindings, m, out->Struct_bindings, bindings@.len());
        },
        HirPattern::EnumVariant { enum_name, variant_name, bindings, span } => {
            assert(decreases_to!(p => p->EnumVariant_bindings));
            lemma_remap_bindings_symbols(bindings, m, out->EnumVariant_bindings, bindings@.len());
        },
        HirPattern::Tuple { elements, span } => {
            assert(decreases_to!(p => p->Tuple_elements));
            lemma_remap_pats_symbols(elements, m, out->Tuple_elements, elements@.len());
        },
        HirPattern::OptionSome(x) => lemma_remap_pat_symbols(*x, m, *out->OptionSome_0),
        HirPattern::ResultOk(x) => lemma_remap_pat_symbols(*x, m, *out->ResultOk_0),
        HirPattern::ResultErr(x) => lemma_remap_pat_symbols(*x, m, *out->ResultErr_0),
        _ => {},
    }
}

proof fn lemma_remap_bindings_symbols(xs: Vec<(Symbol, HirPattern)>, m: Map<Symbol, Symbol>, ys: Vec<(Symbol, HirPattern)>, n: nat)
    requires
        ys@.len() == xs@.len(),
        forall|i: int| 0 <= i < xs@.len() ==> (#[trigger] ys@[i]).0 == rsym(xs@[i].0, m) && remapped_pat(xs@[i].1, m, ys@[i].1),
    ensures
        syms_bindings(ys, n) == image(syms_bindings(xs, n), m),
    decreases xs, n,
{
    broadcast use lemma_image_plus, lemma_image_insert, lemma_image_empty;
    if n == 0 || n > xs@.len() {
    } else {
        assert(decreases_to!(xs => xs@[n - 1]));
        assert(decreases_to!(xs@[n - 1] => xs@[n - 1].1));
        assert(ys@[n - 1].0 == rsym(xs@[n - 1].0, m));
        lemma_remap_pat_symbols(xs@[n - 1].1, m, ys@[n - 1].1);
        lemma_remap_bindings_symbols(xs, m, ys, (n - 1) as nat);
    }
}

proof fn lemma_remap_pats_symbols(xs: Vec<HirPattern>, m: Map<Symbol, Symbol>, ys: Vec<HirPattern>, n: nat)
    requires
        ys@.len() == xs@.len(),
        forall|i: int| 0 <= i < xs@.len() ==> remapped_pat(#[trigger] xs@[i], m, ys@[i]),
    ensures
        syms_pats(ys, n) == image(syms_pats(xs, n), m),
    decreases xs, n,
{
    broadcast use lemma_image_plus, lemma_image_insert, lemma_image_empty;
    if n == 0 || n > xs@.len() {
    } else {
        assert(decreases_to!(xs => xs@[n - 1]));
        lemma_remap_pat_symbols(xs@[n - 1], m, ys@[n - 1]);
        lemma_remap_pats_symbols(xs, m, ys, (n - 1) as nat);
    }
}

/// Remapping an expression maps the symbols that it mentions.
proof fn lemma_remap_expr_symbols(e: HirExpr, m: Map<Symbol, Symbol>, out: HirExpr)
    requires
        remapped_expr(e, m, out),
    ensures
        syms_expr(out) == image(syms_expr(e), m),
    decreases e, 0nat,
{
    broadcast use lemma_image_plus, lemma_image_insert, lemma_image_empty;
    match e {
        HirExpr::Call { id, callee, args, span } => {
            assert(decreases_to!(e => e->Call_args));
            lemma_remap_exprs_symbols(args, m, out->Call_args, args@.len());
            assert(syms_expr(out) == image(syms_expr(e), m));
        },
        HirExpr::MethodCall { id, receiver, method_name, resolved_callee, args, span } => {
            assert(decreases_to!(e => e->MethodCall_args));
            lemma_remap_expr_symbols(*receiver, m, *out->MethodCall_receiver);
            lemma_remap_exprs_symbols(args, m, out->MethodCall_args, args@.len());
            assert(syms_expr(out) == image(syms_expr(e), m));
        },
        HirExpr::FieldAccess { id, object, field, span } => { lemma_remap_expr_symbols(*object, m, *out->FieldAccess_object); assert(syms_expr(out) == image(syms_expr(e), m)); },
        HirExpr::StructLit { id, struct_name, fields, span } => {
            assert(decreases_to!(e => e->StructLit_fields));
            lemma_remap_fields_symbols(fields, m, out->StructLit_fields, fields@.len());
            assert(syms_expr(out) == image(syms_expr(e), m));
        },
        HirExpr::EnumVariant { id, enum_name, variant_name, args, span } => {
            assert(decreases_to!(e => e->EnumVariant_args));
            lemma_remap_exprs_symbols(args, m, out->EnumVariant_args, args@.len());
            assert(image(set![enum_name, variant_name], m) == set![rsym(enum_name, m), rsym(variant_name, m)]) by {
                lemma_image_insert(set![enum_name], variant_name, m);
                lemma_image_insert(Set::empty(), enum_name, m);
            }
            assert(syms_expr(out) == image(syms_expr(e), m));
        },
        HirExpr::Block { id, stmts, span } => {
            assert(decreases_to!(e => e->Block_stmts));
            lemma_remap_stmts_symbols(stmts, m, out->Block_stmts, stmts@.len());
            assert(syms_expr(out) == image(syms_expr(e), m));
        },
        HirExpr::Binary { id, op, lhs, rhs, span } => {
            lemma_remap_expr_symbols(*lhs, m, *out->Binary_lhs);
            lemma_remap_expr_symbols(*rhs, m, *out->Binary_rhs);
            assert(syms_expr(out) == image(syms_expr(e), m));
        },
        HirExpr::Unary { id, op, operand, span } => { lemma_remap_expr_symbols(*operand, m, *out->Unary_operand); assert(syms_expr(out) == image(syms_expr(e), m)); },
        HirExpr::Deref { id, expr, span } => { lemma_remap_expr_symbols(*expr, m, *out->Deref_expr); assert(syms_expr(out) == image(syms_expr(e), m)); },
        HirExpr::As { id, expr, target_type, span } => { lemma_remap_expr_symbols(*expr, m, *out->As_expr); assert(syms_expr(out) == image(syms_expr(e), m)); },
        HirExpr::Return { id, value, span } => { lemma_remap_opt_symbols(value, m, out->Return_value); assert(syms_expr(out) == image(syms_expr(e), m)); },
        HirExpr::Println { id, arg, span } => { lemma_remap_expr_symbols(*arg, m, *out->Println_arg); assert(syms_expr(out) == image(syms_expr(e), m)); },
        HirExpr::Assert { id, condition, message, span } => {
            lemma_remap_expr_symbols(*condition, m, *out->Assert_condition);
            lemma_remap_opt_symbols(message, m, out->Assert_message);
            assert(syms_expr(out) == image(syms_expr(e), m));
        },
        HirExpr::If { id, condition, then_branch, else_branch, span } => {
            lemma_remap_expr_symbols(*condition, m, *out->If_condition);
            lemma_remap_expr_symbols(*then_branch, m, *out->If_then_branch);
            lemma_remap_opt_symbols(else_branch, m, out->If_else_branch);
            assert(syms_expr(out) == image(syms_expr(e), m));
        },
        HirExpr::Match { id, scrutinee, arms, span } => {
            assert(decreases_to!(e => e->Match_arms));
            lemma_remap_expr_symbols(*scrutinee, m, *out->Match_scrutinee);
            lemma_remap_arms_symbols(arms, m, out->Match_arms, arms@.len());
            assert(syms_expr(out) == image(syms_expr(e), m));
        },
        HirExpr::While { id, condition, body, span } => {
            lemma_remap_expr_symbols(*condition, m, *out->While_condition);
            lemma_remap_expr_symbols(*body, m, *out->While_body);
            assert(syms_expr(out) == image(syms_expr(e), m));
        },
        HirExpr::ForIn { id, pattern, iter, body, span } => {
            lemma_remap_pat_symbols(pattern, m, out->ForIn_pattern);
            lemma_remap_expr_symbols(*iter, m, *out->ForIn_iter);
            lemma_remap_expr_symbols(*body, m, *out->ForIn_body);
            assert(syms_expr(out) == image(syms_expr(e), m));
        },
        HirExpr::TupleLit { id, elements, span } => {
            assert(decreases_to!(e => e->TupleLit_elements));
            lemma_remap_exprs_symbols(elements, m, out->TupleLit_elements, elements@.len());
            assert(syms_expr(out) == image(syms_expr(e), m));
        },
        HirExpr::SizeOf { id, target_type, span } => { lemma_remap_type_symbols(target_type, m, out->SizeOf_target_type); assert(syms_expr(out) == image(syms_expr(e), m)); },
        _ => { assert(syms_expr(out) == image(syms_expr(e), m)); },
    }
}

proof fn lemma_remap_opt_symbols(o: Option<Box<HirExpr>>, m: Map<Symbol, Symbol>, out: Option<Box<HirExpr>>)
    requires
        remapped_opt(o, m, out),
    ensures
        syms_opt(out) == image(syms_opt(o), m),
    decreases o, 0nat,
{
    broadcast use lemma_image_plus, lemma_image_insert, lemma_image_empty;
    match o {
        Some(x) => lemma_remap_expr_symbols(*x, m, *out->Some_0),
        None => {},
    }
}

proof fn lemma_remap_exprs_symbols(xs: Vec<HirExpr>, m: Map<Symbol, Symbol>, ys: Vec<HirExpr>, n: nat)
    requires
        remapped_exprs(xs, m, ys),
    ensures
        syms_exprs(ys, n) == image(syms_exprs(xs, n), m),
        ys@.len() == xs@.len(),
    decreases xs, n,
{
    broadcast use lemma_image_plus, lemma_image_insert, lemma_image_empty;
    if n == 0 || n > xs@.len() {
    } else {
        assert(decreases_to!(xs => xs@[n - 1]));
        lemma_remap_expr_symbols(xs@[n - 1], m, ys@[n - 1]);
        lemma_remap_exprs_symbols(xs, m, ys, (n - 1) as nat);
    }
}

proof fn lemma_remap_fields_symbols(xs: Vec<(Symbol, HirExpr)>, m: Map<Symbol, Symbol>, ys: Vec<(Symbol, HirExpr)>, n: nat)
    requires
        remapped_fields(xs, m, ys),
    ensures
        syms_fields(ys, n) == image(syms_fields(xs, n), m),
        ys@.len() == xs@.len(),
    decreases xs, n,
{
    broadcast use lemma_image_plus, lemma_image_insert, lemma_image_empty;
    if n == 0 || n > xs@.len() {
    } else {
        assert(decreases_to!(xs => xs@[n - 1]));
        assert(decreases_to!(xs@[n - 1] => xs@[n - 1].1));
        assert(ys@[n - 1].0 == rsym(xs@[n - 1].0, m));
        lemma_remap_expr_symbols(xs@[n - 1].1, m, ys@[n - 1].1);
        lemma_remap_fields_symbols(xs, m, ys, (n - 1) as nat);
    }
}

proof fn lemma_remap_stmts_symbols(xs: Vec<HirStmt>, m: Map<Symbol, Symbol>, ys: Vec<HirStmt>, n: nat)
    requires
        remapped_stmts(xs, m, ys),
    ensures
        syms_stmts(ys, n) == image(syms_stmts(xs, n), m),
        ys@.len() == xs@.len(),
    decreases xs, n,
{
    broadcast use lemma_image_plus, lemma_image_insert, lemma_image_empty;
    if n == 0 || n > xs@.len() {
    } else {
        assert(decreases_to!(xs => xs@[n - 1]));
        lemma_remap_stmt_symbols(xs@[n - 1], m, ys@[n - 1]);
        lemma_remap_stmts_symbols(xs, m, ys, (n - 1) as nat);
    }
}

proof fn lemma_remap_arms_symbols(xs: Vec<MatchArm>, m: Map<Symbol, Symbol>, ys: Vec<MatchArm>, n: nat)
    requires
        remapped_arms(xs, m, ys),
    ensures
        syms_arms(ys, n) == image(syms_arms(xs, n), m),
        ys@.len() == xs@.len(),
    decreases xs, n,
{
    broadcast use lemma_image_plus, lemma_image_insert, lemma_image_empty;
    if n == 0 || n > xs@.len() {
    } else {
        assert(decreases_to!(xs => xs@[n - 1]));
        lemma_remap_arm_symbols(xs@[n - 1], m, ys@[n - 1]);
        lemma_remap_arms_symbols(xs, m, ys, (n - 1) as nat);
    }
}

proof fn lemma_remap_stmt_symbols(st: HirStmt, m: Map<Symbol, Symbol>, out: HirStmt)
    requires
        remapped_stmt(st, m, out),
    ensures
        syms_stmt(out) == image(syms_stmt(st), m),
    decreases st, 0nat,
{
    broadcast use lemma_image_plus, lemma_image_insert, lemma_image_empty;
    match st {
        HirStmt::Let { name, mutable, value, span } => lemma_remap_expr_symbols(value, m, out->Let_value),
        HirStmt::LetPat { pattern, mutable, value, ty, span } => {
            lemma_remap_pat_symbols(pattern, m, out->LetPat_pattern);
            lemma_remap_expr_symbols(value, m, out->LetPat_value);
            match ty {
                Some(t) => lemma_remap_type_symbols(t, m, out->LetPat_ty->Some_0),
                None => {},
            }
        },
        HirStmt::AssignDeref { target, value, span } => {
            lemma_remap_expr_symbols(*target, m, *out->AssignDeref_target);
            lemma_remap_expr_symbols(value, m, out->AssignDeref_value);
        },
        HirStmt::AssignField { object, field, value, span } => {
            lemma_remap_expr_symbols(*object, m, *out->AssignField_object);
            lemma_remap_expr_symbols(value, m, out->AssignField_value);
        },
        HirStmt::Assign { target, value, span } => lemma_remap_expr_symbols(value, m, out->Assign_value),
        HirStmt::Expr(x) => lemma_remap_expr_symbols(x, m, out->Expr_0),
    }
}

proof fn lemma_remap_arm_symbols(a: MatchArm, m: Map<Symbol, Symbol>, out: MatchArm)
    requires
        remapped_arm(a, m, out),
    ensures
        syms_arm(out) == image(syms_arm(a), m),
    decreases a, 0nat,
{
    broadcast use lemma_image_plus, lemma_image_insert, lemma_image_empty;
    lemma_remap_pat_symbols(a.pattern, m, out.pattern);
    match a.guard {
        Some(g) => lemma_remap_expr_symbols(g, m, out.guard->Some_0),
        None => {},
    }
    lemma_remap_expr_symbols(a.body, m, out.body);
}

proof fn lemma_remap_params_symbols(ps: Seq<(Symbol, HirType)>, m: Map<Symbol, Symbol>, qs: Seq<(Symbol, HirType)>, n: nat)
    requires
        qs.len() == ps.len(),
        forall|i: int| 0 <= i < ps.len() ==> (#[trigger] qs[i]).0 == rsym(ps[i].0, m) && remapped_type(ps[i].1, m, qs[i].1),
    ensures
        syms_params(qs, n) == image(syms_params(ps, n), m),
    decreases n,
{
    broadcast use lemma_image_plus, lemma_image_insert, lemma_image_empty;
    if n == 0 || n > ps.len() {
    } else {
        assert(qs[n - 1].0 == rsym(ps[n - 1].0, m));
        lemma_remap_type_symbols(ps[n - 1].1, m, qs[n - 1].1);
        lemma_remap_params_symbols(ps, m, qs, (n - 1) as nat);
    }
}

/// Remapping a function maps the symbols that it mentions.
proof fn lemma_remap_fn_symbols(f: HirFn, m: Map<Symbol, Symbol>, g: HirFn)
    requires
        remapped_fn(f, m, g),
    ensures
        syms_fn(g) == image(syms_fn(f), m),
{
    broadcast use lemma_image_plus, lemma_image_insert, lemma_image_empty;
    assert(remapped_syms(f.type_params@, m, g.type_params@));
    lemma_image_syms(f.type_params@, m, g.type_params@);
    lemma_remap_params_symbols(f.params@, m, g.params@, f.params@.len());
    match f.ret {
        Some(t) => lemma_remap_type_symbols(t, m, g.ret->Some_0),
        None => {},
    }
    lemma_remap_expr_symbols(f.body, m, g.body);
}

proof fn lemma_remap_field_names(fs: Seq<StructField>, m: Map<Symbol, Symbol>, out: Seq<StructField>, n: nat)
    requires
        remapped_field_list(fs, m, out),
    ensures
        field_names(out, n) == image(field_names(fs, n), m),
    decreases n,
{
    broadcast use lemma_image_plus, lemma_image_insert, lemma_image_empty;
    if n == 0 || n > fs.len() {
    } else {
        assert(remapped_field(fs[n - 1], m, out[n - 1]));
        lemma_remap_field_names(fs, m, out, (n - 1) as nat);
    }
}

proof fn lemma_remap_variant_names(vs: Seq<HirVariant>, m: Map<Symbol, Symbol>, out: Seq<HirVariant>, n: nat)
    requires
        out.len() == vs.len(),
        forall|i: int| 0 <= i < vs.len() ==> remapped_variant(vs[i], m, #[trigger] out[i]),
    ensures
        variant_names(out, n) == image(variant_names(vs, n), m),
    decreases n,
{
    broadcast use lemma_image_plus, lemma_image_insert, lemma_image_empty;
    if n == 0 || n > vs.len() {
    } else {
        assert(remapped_variant(vs[n - 1], m, out[n - 1]));
        lemma_remap_field_names(vs[n - 1].fields@, m, out[n - 1].fields@, vs[n - 1].fields@.len());
        lemma_remap_variant_names(vs, m, out, (n - 1) as nat);
    }
}

proof fn lemma_remap_methods_symbols(ms: Seq<HirFn>, m: Map<Symbol, Symbol>, out: Seq<HirFn>, n: nat)
    requires
        out.len() == ms.len(),
        forall|i: int| 0 <= i < ms.len() ==> remapped_fn(ms[i], m, #[trigger] out[i]),
    ensures
        syms_methods(out, n) == image(syms_methods(ms, n), m),
    decreases n,
{
    broadcast use lemma_image_plus, lemma_image_insert, lemma_image_empty;
    if n == 0 || n > ms.len() {
    } else {
        assert(remapped_fn(ms[n - 1], m, out[n - 1]));
        lemma_remap_fn_symbols(ms[n - 1], m, out[n - 1]);
        lemma_remap_methods_symbols(ms, m, out, (n - 1) as nat);
    }
}

proof fn lemma_remap_extern_names(fs: Seq<ExternFn>, m: Map<Symbol, Symbol>, out: Seq<ExternFn>, n: nat)
    requires
        out.len() == fs.len(),
        forall|i: int| 0 <= i < fs.len() ==> remapped_extern(fs[i], m, #[trigger] out[i]),
    ensures
        extern_names(out, n) == image(extern_names(fs, n), m),
    decreases n,
{
    broadcast use lemma_image_plus, lemma_image_insert, lemma_image_empty;
    if n == 0 || n > fs.len() {
    } else {
        assert(remapped_extern(fs[n - 1], m, out[n - 1]));
        lemma_remap_extern_names(fs, m, out, (n - 1) as nat);
    }
}

/// Remapping an item maps the symbols that it mentions.
proof fn lemma_remap_item_symbols(item: HirItem, m: Map<Symbol, Symbol>, out: HirItem)
    requires
        remapped_item(item, m, out),
    ensures
        syms_item(out) == image(syms_item(item), m),
{
    broadcast use lemma_image_plus, lemma_image_insert, lemma_image_empty;
    match item {
        HirItem::Fn(f) => lemma_remap_fn_symbols(f, m, out->Fn_0),
        HirItem::Struct(sd) => {
            let t = out->Struct_0;
            lemma_image_syms(sd.type_params@, m, t.type_params@);
            lemma_remap_field_names(sd.fields@, m, t.fields@, sd.fields@.len());
        },
        HirItem::Enum(ed) => {
            let t = out->Enum_0;
            lemma_image_syms(ed.type_params@, m, t.type_params@);
            lemma_remap_variant_names(ed.variants@, m, t.variants@, ed.variants@.len());
        },
        HirItem::Impl(imp) => {
            let t = out->Impl_0;
            lemma_image_syms(imp.type_params@, m, t.type_params@);
            lemma_remap_methods_symbols(imp.methods@, m, t.methods@, imp.methods@.len());
        },
        HirItem::Extern(ext) => {
            let t = out->Extern_0;
            lemma_remap_extern_names(ext.functions@, m, t.functions@, ext.functions@.len());
        },
    }
}

/// Remapping replaces every symbol of the program: after `remap_symbols_in_hir`, the
/// symbols that `collect_all_symbols` gathers are exactly the images, under the
/// mapping, of those that it gathered before.
pub proof fn lemma_remap_replaces_every_symbol(items: Seq<HirItem>, m: Map<Symbol, Symbol>, out: Seq<HirItem>, n: nat)
    requires
        out.len() == items.len(),
        forall|i: int| 0 <= i < items.len() ==> remapped_item(items[i], m, #[trigger] out[i]),
    ensures
        syms_items(out, n) == image(syms_items(items, n), m),
    decreases n,
{
    broadcast use lemma_image_plus, lemma_image_insert, lemma_image_empty;
    if n == 0 || n > items.len() {
    } else {
        assert(remapped_item(items[n - 1], m, out[n - 1]));
        lemma_remap_item_symbols(items[n - 1], m, out[n - 1]);
        lemma_remap_replaces_every_symbol(items, m, out, (n - 1) as nat);
    }
}

} // verus!
