use vstd::prelude::*;
use crate::decl_table::DeclTable;
use crate::remap_symbols::SymbolSet;
use crate::symbol::{is_first_index, table_has, Interner, Symbol};
use crate::types::ExprId;

verus! {

/// The state that lowering threads through: the interner, the next expression id, the
/// struct names seen so far, an optional declaration table and a stack of type
/// parameter scopes.
pub struct LoweringContext<'a> {
    pub interner: &'a mut Interner,
    next_id: u32,
    pub struct_names: SymbolSet,
    pub decl_table: Option<&'a DeclTable>,
    type_param_stack: Vec<Vec<Symbol>>,
}

impl<'a> LoweringContext<'a> {
    /// The interner's strings.
    pub closed spec fn strs(&self) -> Seq<Seq<char>> {
        self.interner@
    }

    /// The id the next fresh expression gets.
    pub closed spec fn next(&self) -> u32 {
        self.next_id
    }

    /// The struct names seen so far.
    pub closed spec fn names(&self) -> Set<Symbol> {
        self.struct_names@
    }

    /// The declaration table held, if any.
    pub closed spec fn table(&self) -> Option<&'a DeclTable> {
        self.decl_table
    }

    /// The type parameter scopes, innermost last.
    pub closed spec fn scopes(&self) -> Seq<Seq<Symbol>> {
        self.type_param_stack@.map_values(|s: Vec<Symbol>| s@)
    }

    /// A context with no struct names, no declaration table and no scopes, whose ids
    /// start at 0.
    pub fn new(interner: &'a mut Interner) -> (r: Self)
        ensures
            r.strs() == old(interner)@,
            r.next() == 0,
            r.names() == Set::<Symbol>::empty(),
            r.table() is None,
            r.scopes() == Seq::<Seq<Symbol>>::empty(),
    {
        let r = LoweringContext {
            interner,
            next_id: 0,
            struct_names: SymbolSet::new(),
            decl_table: None,
            type_param_stack: Vec::new(),
        };
        assert(r.scopes() =~= Seq::<Seq<Symbol>>::empty());
        r
    }

    /// The same, holding a declaration table.
    pub fn with_decl_table(interner: &'a mut Interner, decl_table: &'a DeclTable) -> (r: Self)
        ensures
            r.strs() == old(interner)@,
            r.next() == 0,
            r.names() == Set::<Symbol>::empty(),
            r.table() == Some(decl_table),
            r.scopes() == Seq::<Seq<Symbol>>::empty(),
    {
        let r = LoweringContext {
            interner,
            next_id: 0,
            struct_names: SymbolSet::new(),
            decl_table: Some(decl_table),
            type_param_stack: Vec::new(),
        };
        assert(r.scopes() =~= Seq::<Seq<Symbol>>::empty());
        r
    }

    /// A new expression id: the next one, which then advances by one.
    pub fn fresh_id(&mut self) -> (r: ExprId)
        requires
            old(self).next() < u32::MAX,
        ensures
            r == ExprId(old(self).next()),
            final(self).next() == old(self).next() + 1,
            final(self).strs() == old(self).strs(),
            final(self).scopes() == old(self).scopes(),
            final(self).names() == old(self).names(),
            final(self).table() == old(self).table(),
    {
        let id = ExprId::new(self.next_id);
        self.next_id = self.next_id + 1;
        id
    }

    /// Opens a scope holding the type parameters `params`.
    pub fn push_type_params(&mut self, params: &[Symbol])
        ensures
            final(self).scopes() == old(self).scopes().push(params@),
            final(self).next() == old(self).next(),
            final(self).strs() == old(self).strs(),
            final(self).names() == old(self).names(),
            final(self).table() == old(self).table(),
    {
        let mut scope: Vec<Symbol> = Vec::new();
        let mut i: usize = 0;
        while i < params.len()
            invariant
                0 <= i <= params@.len(),
                scope@ == params@.take(i as int),
            decreases params@.len() - i,
        {
            scope.push(params[i]);
            i = i + 1;
            assert(scope@ =~= params@.take(i as int));
        }
        assert(scope@ =~= params@);
        self.type_param_stack.push(scope);
        assert(self.scopes() =~= old(self).scopes().push(params@));
    }

    /// Closes the innermost scope, if there is one.
    pub fn pop_type_params(&mut self)
        ensures
            final(self).scopes() == if old(self).scopes().len() > 0 { old(self).scopes().drop_last() } else { old(self).scopes() },
            final(self).next() == old(self).next(),
            final(self).strs() == old(self).strs(),
            final(self).names() == old(self).names(),
            final(self).table() == old(self).table(),
    {
        let _ = self.type_param_stack.pop();
        assert(self.scopes() =~= if old(self).scopes().len() > 0 { old(self).scopes().drop_last() } else { old(self).scopes() });
    }

    /// Whether `sym` is a type parameter of the innermost scope.
    pub fn is_type_param(&self, sym: Symbol) -> (r: bool)
        ensures
            r == (self.scopes().len() > 0 && self.scopes().last().contains(sym)),
    {
        let n = self.type_param_stack.len();
        if n == 0 {
            return false;
        }
        let top = &self.type_param_stack[n - 1];
        let mut i: usize = 0;
        while i < top.len()
            invariant
                0 <= i <= top@.len(),
                n == self.type_param_stack@.len(),
                n > 0,
                *top == self.type_param_stack@[n - 1],
                forall|j: int| 0 <= j < i ==> top@[j] != sym,
            decreases top@.len() - i,
        {
            if top[i] == sym {
                proof {
                    assert(top@[i as int] == sym);
                    assert(self.scopes().last() == top@);
                }
                return true;
            }
            i = i + 1;
        }
        proof {
            assert(self.scopes().last() == top@);
            assert(!top@.contains(sym));
        }
        false
    }

    /// Interns `s`; see `Interner::intern`.
    pub fn intern(&mut self, s: &str) -> (sym: Symbol)
        requires
            old(self).strs().len() < u32::MAX,
        ensures
            table_has(old(self).strs(), s@) ==> final(self).strs() == old(self).strs() && is_first_index(old(self).strs(), s@, sym.index() as int),
            !table_has(old(self).strs(), s@) ==> final(self).strs() == old(self).strs().push(s@) && sym.index() == old(self).strs().len(),
            final(self).next() == old(self).next(),
            final(self).scopes() == old(self).scopes(),
            final(self).names() == old(self).names(),
            final(self).table() == old(self).table(),
    {
        self.interner.intern(s)
    }

    /// The string that `sym` names.
    pub fn resolve(&self, sym: Symbol) -> (r: &str)
        requires
            sym.index() < self.strs().len(),
        ensures
            r@ == self.strs()[sym.index() as int],
    {
        self.interner.resolve(sym)
    }
}

/// Whether `name` is known as a struct: seen while lowering, or declared in the
/// context's declaration table.
pub fn is_known_struct(ctx: &LoweringContext, name: Symbol) -> (r: bool)
    ensures
        r == (ctx.names().contains(name) || (ctx.table() matches Some(dt) && dt.declares_struct(name))),
{
    if ctx.struct_names.contains(&name) {
        return true;
    }
    match ctx.decl_table {
        Some(dt) => dt.has_struct(name),
        None => false,
    }
}

} // verus!
