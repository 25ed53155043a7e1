use vstd::prelude::*;
use crate::item::{Hir, HirItem};
use crate::node::{HirExpr, HirStmt};
use crate::symbol::{Interner, Symbol, str_equal};
use crate::assoc::{assoc_map, assoc_keys_unique, lemma_assoc_map, lemma_assoc_map_set, lemma_assoc_map_push};

verus! {

broadcast use vstd::std_specs::vec::group_vec_axioms;

/// What evaluating a function may do.
#[derive(Clone, Copy, Debug, PartialEq, Eq, Hash, Structural)]
pub struct EffectSet {
    pub may_read: bool,
    pub may_write: bool,
    pub may_allocate: bool,
    pub may_panic: bool,
    pub may_diverge: bool,
    pub is_pure: bool,
}

/// The effect set with no effect, marked pure.
pub open spec fn pure_effects() -> EffectSet {
    EffectSet { may_read: false, may_write: false, may_allocate: false, may_panic: false, may_diverge: false, is_pure: true }
}

impl EffectSet {
    /// No effect, pure.
    pub fn pure() -> (r: Self)
        ensures
            r == pure_effects(),
    {
        Self { may_read: false, may_write: false, may_allocate: false, may_panic: false, may_diverge: false, is_pure: true }
    }

    /// No effect, but not pure.
    pub fn impure() -> (r: Self)
        ensures
            r == (EffectSet { is_pure: false, ..pure_effects() }),
    {
        Self { may_read: false, may_write: false, may_allocate: false, may_panic: false, may_diverge: false, is_pure: false }
    }
}

impl Default for EffectSet {
    fn default() -> (r: Self)
        ensures
            r == pure_effects(),
    {
        EffectSet::pure()
    }
}

/// `a` joined with `b`: each effect that either may have, pure only if both are.
pub open spec fn join(a: EffectSet, b: EffectSet) -> EffectSet {
    EffectSet {
        may_read: a.may_read || b.may_read,
        may_write: a.may_write || b.may_write,
        may_allocate: a.may_allocate || b.may_allocate,
        may_panic: a.may_panic || b.may_panic,
        may_diverge: a.may_diverge || b.may_diverge,
        is_pure: a.is_pure && b.is_pure,
    }
}

/// The effects seeded for the built-in functions, by name.
pub open spec fn seed_effect(name: Seq<char>) -> Option<EffectSet> {
    if name == "println"@ || name == "print"@ {
        Some(EffectSet { may_write: true, is_pure: false, ..pure_effects() })
    } else if name == "__glyim_alloc"@ || name == "__glyim_free"@ {
        Some(EffectSet { may_allocate: true, is_pure: false, ..pure_effects() })
    } else if name == "abort"@ {
        Some(EffectSet { may_panic: true, may_diverge: true, is_pure: false, ..pure_effects() })
    } else {
        None
    }
}

/// `acc` extended with what evaluating `e` contributes, given the effects `m` known for
/// callees: the effects of called functions, and divergence for loops. Calls to
/// functions without a known effect contribute nothing.
pub open spec fn expr_effect(e: HirExpr, m: Map<Symbol, EffectSet>, acc: EffectSet) -> EffectSet
    decreases e, 0nat,
{
    match e {
        HirExpr::Call { callee, .. } => if m.contains_key(callee) { join(acc, m[callee]) } else { acc },
        HirExpr::Binary { lhs, rhs, .. } => expr_effect(*rhs, m, expr_effect(*lhs, m, acc)),
        HirExpr::Block { stmts, .. } => stmts_effect(stmts, stmts@.len(), m, acc),
        HirExpr::If { condition, then_branch, else_branch, .. } => {
            let a1 = expr_effect(*then_branch, m, expr_effect(*condition, m, acc));
            match else_branch {
                Some(e2) => expr_effect(*e2, m, a1),
                None => a1,
            }
        },
        HirExpr::While { condition, body, .. } => expr_effect(*body, m, expr_effect(*condition, m, EffectSet { may_diverge: true, ..acc })),
        _ => acc,
    }
}

/// `acc` extended with what the first `n` statements contribute: the values of
/// expression statements, `let` bindings and assignments to locals.
pub open spec fn stmts_effect(stmts: Vec<HirStmt>, n: nat, m: Map<Symbol, EffectSet>, acc: EffectSet) -> EffectSet
    decreases stmts, n,
{
    if n == 0 || n > stmts@.len() {
        acc
    } else {
        let prev = stmts_effect(stmts, (n - 1) as nat, m, acc);
        match stmts@[n - 1] {
            HirStmt::Expr(e) => expr_effect(e, m, prev),
            HirStmt::Let { value, .. } => expr_effect(value, m, prev),
            HirStmt::Assign { value, .. } => expr_effect(value, m, prev),
            _ => prev,
        }
    }
}

/// `b` has every effect that `a` has, and is pure only if `a` is.
pub open spec fn effect_le(a: EffectSet, b: EffectSet) -> bool {
    &&& a.may_read ==> b.may_read
    &&& a.may_write ==> b.may_write
    &&& a.may_allocate ==> b.may_allocate
    &&& a.may_panic ==> b.may_panic
    &&& a.may_diverge ==> b.may_diverge
    &&& b.is_pure ==> a.is_pure
}

/// Evaluating an expression only adds effects to those already accumulated, and more
/// accumulated effects give more effects after it.
pub proof fn lemma_expr_effect_grows(e: HirExpr, m: Map<Symbol, EffectSet>, a: EffectSet, b: EffectSet)
    requires
        effect_le(a, b),
    ensures
        effect_le(a, expr_effect(e, m, a)),
        effect_le(expr_effect(e, m, a), expr_effect(e, m, b)),
    decreases e, 0nat,
{
    match e {
        HirExpr::Binary { lhs, rhs, .. } => {
            lemma_expr_effect_grows(*lhs, m, a, b);
            lemma_expr_effect_grows(*rhs, m, expr_effect(*lhs, m, a), expr_effect(*lhs, m, b));
        },
        HirExpr::Block { stmts, .. } => {
            assert(decreases_to!(e => e->Block_stmts));
            lemma_stmts_effect_grows(stmts, stmts@.len(), m, a, b);
        },
        HirExpr::If { condition, then_branch, else_branch, .. } => {
            lemma_expr_effect_grows(*condition, m, a, b);
            let ca = expr_effect(*condition, m, a);
            let cb = expr_effect(*condition, m, b);
            lemma_expr_effect_grows(*then_branch, m, ca, cb);
            match else_branch {
                Some(x) => {
                    lemma_expr_effect_grows(*x, m, expr_effect(*then_branch, m, ca), expr_effect(*then_branch, m, cb));
                },
                None => {},
            }
        },
        HirExpr::While { condition, body, .. } => {
            let da = EffectSet { may_diverge: true, ..a };
            let db = EffectSet { may_diverge: true, ..b };
            lemma_expr_effect_grows(*condition, m, da, db);
            lemma_expr_effect_grows(*body, m, expr_effect(*condition, m, da), expr_effect(*condition, m, db));
        },
        _ => {},
    }
}

/// `lemma_expr_effect_grows` for the first `n` statements of a block.
pub proof fn lemma_stmts_effect_grows(stmts: Vec<HirStmt>, n: nat, m: Map<Symbol, EffectSet>, a: EffectSet, b: EffectSet)
    requires
        effect_le(a, b),
    ensures
        effect_le(a, stmts_effect(stmts, n, m, a)),
        effect_le(stmts_effect(stmts, n, m, a), stmts_effect(stmts, n, m, b)),
    decreases stmts, n,
{
    if n == 0 || n > stmts@.len() {
    } else {
        lemma_stmts_effect_grows(stmts, (n - 1) as nat, m, a, b);
        let pa = stmts_effect(stmts, (n - 1) as nat, m, a);
        let pb = stmts_effect(stmts, (n - 1) as nat, m, b);
        assert(decreases_to!(stmts => stmts@[n - 1]));
        match stmts@[n - 1] {
            HirStmt::Expr(x) => lemma_expr_effect_grows(x, m, pa, pb),
            HirStmt::Let { value, .. } => lemma_expr_effect_grows(value, m, pa, pb),
            HirStmt::Assign { value, .. } => lemma_expr_effect_grows(value, m, pa, pb),
            _ => {},
        }
    }
}

/// The else branch counts: the effect of `if c {a} else {b}` includes every effect of
/// `b` (so a call to `println` there makes the function write and not pure).
pub proof fn lemma_else_branch_effects_count(e: HirExpr, m: Map<Symbol, EffectSet>, acc: EffectSet)
    requires
        e is If,
        e->If_else_branch is Some,
    ensures
        effect_le(expr_effect(*e->If_else_branch->Some_0, m, acc), expr_effect(e, m, acc)),
        effect_le(expr_effect(*e->If_then_branch, m, acc), expr_effect(e, m, acc)),
        effect_le(expr_effect(*e->If_condition, m, acc), expr_effect(e, m, acc)),
{
    let c = *e->If_condition;
    let t = *e->If_then_branch;
    let x = *e->If_else_branch->Some_0;
    lemma_expr_effect_grows(c, m, acc, acc);
    let ca = expr_effect(c, m, acc);
    lemma_expr_effect_grows(t, m, acc, ca);
    lemma_expr_effect_grows(t, m, ca, ca);
    let ta = expr_effect(t, m, ca);
    lemma_expr_effect_grows(x, m, acc, ta);
    lemma_expr_effect_grows(x, m, ta, ta);
    lemma_expr_effect_grows(x, m, expr_effect(t, m, acc), ta);
}

/// A call counts: the effect of calling a function with a known effect includes it.
pub proof fn lemma_call_effect_counts(e: HirExpr, m: Map<Symbol, EffectSet>, acc: EffectSet)
    requires
        e is Call,
        m.contains_key(e->Call_callee),
    ensures
        effect_le(m[e->Call_callee], expr_effect(e, m, acc)),
{
}

/// Effects seeded for the built-in functions among `items`, over the map `m`.
pub open spec fn seed_pass(items: Seq<HirItem>, names: Seq<Seq<char>>, m: Map<Symbol, EffectSet>) -> Map<Symbol, EffectSet>
    decreases items.len(),
{
    if items.len() == 0 {
        m
    } else {
        let m1 = seed_pass(items.drop_last(), names, m);
        match items.last() {
            HirItem::Fn(f) => match seed_effect(names[f.name.index() as int]) {
                Some(e) => m1.insert(f.name, e),
                None => m1,
            },
            _ => m1,
        }
    }
}

/// One pass over `items` in order: each function without a known effect gets the
/// effect of its body, computed from the effects known at that point.
pub open spec fn analysis_pass(items: Seq<HirItem>, m: Map<Symbol, EffectSet>) -> Map<Symbol, EffectSet>
    decreases items.len(),
{
    if items.len() == 0 {
        m
    } else {
        let m1 = analysis_pass(items.drop_last(), m);
        match items.last() {
            HirItem::Fn(f) => if m1.contains_key(f.name) {
                m1
            } else {
                m1.insert(f.name, expr_effect(f.body, m1, pure_effects()))
            },
            _ => m1,
        }
    }
}

/// `k` passes of `analysis_pass`.
pub open spec fn analysis_rounds(items: Seq<HirItem>, m: Map<Symbol, EffectSet>, k: nat) -> Map<Symbol, EffectSet>
    decreases k,
{
    if k == 0 {
        m
    } else {
        analysis_rounds(items, analysis_pass(items, m), (k - 1) as nat)
    }
}

/// Every function of `items` is named by a symbol of `interner`.
pub open spec fn fn_names_interned(items: Seq<HirItem>, interner: Seq<Seq<char>>) -> bool {
    forall|i: int| 0 <= i < items.len() ==> (#[trigger] items[i] matches HirItem::Fn(f) ==> f.name.index() < interner.len())
}

/// Number of analysis passes.
pub const ANALYSIS_ROUNDS: usize = 10;

/// The effects of the functions of a program.
pub struct EffectAnalyzer {
    effects: Vec<(Symbol, EffectSet)>,
}

impl View for EffectAnalyzer {
    type V = Map<Symbol, EffectSet>;

    closed spec fn view(&self) -> Map<Symbol, EffectSet> {
        assoc_map(self.effects@)
    }
}

impl EffectAnalyzer {
    #[verifier::type_invariant]
    spec fn inv(&self) -> bool {
        assoc_keys_unique(self.effects@)
    }

    /// No effect known.
    pub fn new() -> (r: Self)
        ensures
            r@ == Map::<Symbol, EffectSet>::empty(),
    {
        Self { effects: Vec::new() }
    }

    /// The effect known for `sym`, if any.
    pub fn get_effect(&self, sym: Symbol) -> (r: Option<&EffectSet>)
        ensures
            match r {
                Some(e) => self@.contains_key(sym) && self@[sym] == *e,
                None => !self@.contains_key(sym),
            },
    {
        proof {
            use_type_invariant(self);
            lemma_assoc_map(self.effects@);
        }
        let mut i: usize = 0;
        while i < self.effects.len()
            invariant
                0 <= i <= self.effects@.len(),
                assoc_keys_unique(self.effects@),
                forall|j: int| 0 <= j < i ==> self.effects@[j].0 != sym,
            decreases self.effects@.len() - i,
        {
            if self.effects[i].0 == sym {
                proof {
                    lemma_assoc_map(self.effects@);
                    assert(assoc_map(self.effects@).contains_key(self.effects@[i as int].0));
                }
                return Some(&self.effects[i].1);
            }
            i = i + 1;
        }
        None
    }

    /// `sym` has a known effect and it is pure.
    pub fn is_pure(&self, sym: Symbol) -> (r: bool)
        ensures
            r == (self@.contains_key(sym) && self@[sym].is_pure),
    {
        match self.get_effect(sym) {
            Some(e) => e.is_pure,
            None => false,
        }
    }

    fn set_effect(&mut self, sym: Symbol, e: EffectSet)
        ensures
            final(self)@ == old(self)@.insert(sym, e),
    {
        proof {
            use_type_invariant(&*self);
        }
        let mut effects: Vec<(Symbol, EffectSet)> = Vec::new();
        std::mem::swap(&mut effects, &mut self.effects);
        let ghost old_effects = effects@;
        let mut i: usize = 0;
        while i < effects.len()
            invariant
                effects@ == old_effects,
                assoc_keys_unique(old_effects),
                old_effects == old(self).effects@,
                0 <= i <= effects@.len(),
                forall|j: int| 0 <= j < i ==> effects@[j].0 != sym,
            decreases effects@.len() - i,
        {
            if effects[i].0 == sym {
                effects.set(i, (sym, e));
                proof {
                    lemma_assoc_map_set(old_effects, i as int, e);
                }
                self.effects = effects;
                return;
            }
            i = i + 1;
        }
        proof {
            lemma_assoc_map_push(old_effects, sym, e);
        }
        effects.push((sym, e));
        self.effects = effects;
    }

    /// Adds to `effect` what evaluating `expr` contributes, given the effects known so far.
    fn analyze_expr(&self, expr: &HirExpr, effect: &mut EffectSet)
        ensures
            *final(effect) == expr_effect(*expr, self@, *old(effect)),
        decreases expr, 0nat,
    {
        match expr {
            HirExpr::Call { callee, .. } => {
                if let Some(e) = self.get_effect(*callee) {
                    effect.may_read = effect.may_read || e.may_read;
                    effect.may_write = effect.may_write || e.may_write;
                    effect.may_allocate = effect.may_allocate || e.may_allocate;
                    effect.may_panic = effect.may_panic || e.may_panic;
                    effect.may_diverge = effect.may_diverge || e.may_diverge;
                    effect.is_pure = effect.is_pure && e.is_pure;
                }
            },
            HirExpr::Binary { lhs, rhs, .. } => {
                self.analyze_expr(lhs, effect);
                self.analyze_expr(rhs, effect);
            },
            HirExpr::Block { stmts, .. } => {
                proof { assert(decreases_to!(*expr => (*expr)->Block_stmts)); }
                self.analyze_stmts(stmts, effect);
            },
            HirExpr::If { condition, then_branch, else_branch, .. } => {
                self.analyze_expr(condition, effect);
                self.analyze_expr(then_branch, effect);
                if let Some(e) = else_branch {
                    self.analyze_expr(e, effect);
                }
            },
            HirExpr::While { condition, body, .. } => {
                effect.may_diverge = true;
                self.analyze_expr(condition, effect);
                self.analyze_expr(body, effect);
            },
            _ => {},
        }
    }

    fn analyze_stmts(&self, stmts: &Vec<HirStmt>, effect: &mut EffectSet)
        ensures
            *final(effect) == stmts_effect(*stmts, stmts@.len(), self@, *old(effect)),
        decreases stmts, stmts@.len(),
    {
        let ghost acc0 = *effect;
        let mut i: usize = 0;
        while i < stmts.len()
            invariant
                0 <= i <= stmts@.len(),
                *effect == stmts_effect(*stmts, i as nat, self@, acc0),
            decreases stmts@.len() - i,
        {
            proof {
                assert(decreases_to!(*stmts => stmts@[i as int]));
            }
            match &stmts[i] {
                HirStmt::Expr(e) => self.analyze_expr(e, effect),
                HirStmt::Let { value, .. } => self.analyze_expr(value, effect),
                HirStmt::Assign { value, .. } => self.analyze_expr(value, effect),
                _ => {},
            }
            i = i + 1;
        }
    }

    /// Seeds the effects of the built-in functions, then gives every other function of
    /// `hir` the effect of its body, visiting the items in order, in `ANALYSIS_ROUNDS`
    /// passes. A function is analysed once: later passes keep its effect.
    pub fn analyze(&mut self, hir: &Hir, interner: &Interner)
        requires
            fn_names_interned(hir.items@, interner@),
        ensures
            final(self)@ == analysis_rounds(hir.items@, seed_pass(hir.items@, interner@, old(self)@), ANALYSIS_ROUNDS as nat),
    {
        let items = &hir.items;
        let mut i: usize = 0;
        while i < items.len()
            invariant
                0 <= i <= items@.len(),
                fn_names_interned(items@, interner@),
                self@ == seed_pass(items@.take(i as int), interner@, old(self)@),
            decreases items@.len() - i,
        {
            if let HirItem::Fn(f) = &items[i] {
                let name = interner.resolve(f.name);
                proof {
                    reveal_strlit("println");
                    reveal_strlit("print");
                    reveal_strlit("__glyim_alloc");
                    reveal_strlit("__glyim_free");
                    reveal_strlit("abort");
                }
                if str_equal(name, "println") || str_equal(name, "print") {
                    self.set_effect(f.name, EffectSet { may_read: false, may_write: true, may_allocate: false, may_panic: false, may_diverge: false, is_pure: false });
                } else if str_equal(name, "__glyim_alloc") || str_equal(name, "__glyim_free") {
                    self.set_effect(f.name, EffectSet { may_read: false, may_write: false, may_allocate: true, may_panic: false, may_diverge: false, is_pure: false });
                } else if str_equal(name, "abort") {
                    self.set_effect(f.name, EffectSet { may_read: false, may_write: false, may_allocate: false, may_panic: true, may_diverge: true, is_pure: false });
                }
            }
            proof {
                assert(items@.take(i + 1).drop_last() == items@.take(i as int));
            }
            i = i + 1;
        }
        assert(items@.take(items@.len() as int) == items@);
        let ghost seeded = self@;
        let mut round: usize = 0;
        while round < ANALYSIS_ROUNDS
            invariant
                0 <= round <= ANALYSIS_ROUNDS,
                analysis_rounds(items@, seeded, ANALYSIS_ROUNDS as nat)
                    == analysis_rounds(items@, self@, (ANALYSIS_ROUNDS - round) as nat),
            decreases ANALYSIS_ROUNDS - round,
        {
            let ghost before = self@;
            let mut j: usize = 0;
            while j < items.len()
                invariant
                    0 <= j <= items@.len(),
                    self@ == analysis_pass(items@.take(j as int), before),
                decreases items@.len() - j,
            {
                if let HirItem::Fn(f) = &items[j] {
                    if self.get_effect(f.name).is_none() {
                        let mut effect = EffectSet::pure();
                        self.analyze_expr(&f.body, &mut effect);
                        self.set_effect(f.name, effect);
                    }
                }
                proof {
                    assert(items@.take(j + 1).drop_last() == items@.take(j as int));
                }
                j = j + 1;
            }
            assert(items@.take(items@.len() as int) == items@);
            round = round + 1;
        }
    }
}

} // verus!
