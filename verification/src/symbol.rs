use vstd::prelude::*;

verus! {

/// An interned name: an index into an [`Interner`]'s table of strings.
#[derive(Clone, Copy, PartialEq, Eq, PartialOrd, Ord, Debug, Hash, Structural)]
pub struct Symbol(pub u32);

impl Symbol {
    /// The position of this symbol in the interner's table.
    pub open spec fn index(self) -> nat {
        self.0 as nat
    }

    /// The raw index of this symbol.
    pub fn as_u32(&self) -> (r: u32)
        ensures
            r == self.index(),
    {
        self.0
    }
}

/// A table of distinct strings; each string is named by the [`Symbol`] of its position.
pub struct Interner {
    strings: Vec<String>,
}

impl View for Interner {
    type V = Seq<Seq<char>>;

    closed spec fn view(&self) -> Seq<Seq<char>> {
        Seq::new(self.strings@.len(), |i: int| self.strings@[i]@)
    }
}

/// `i` is the first position of `s` in `table`.
pub open spec fn is_first_index(table: Seq<Seq<char>>, s: Seq<char>, i: int) -> bool {
    &&& 0 <= i < table.len()
    &&& table[i] == s
    &&& forall|j: int| 0 <= j < i ==> table[j] != s
}

/// `s` occurs in `table`.
pub open spec fn table_has(table: Seq<Seq<char>>, s: Seq<char>) -> bool {
    exists|i: int| 0 <= i < table.len() && table[i] == s
}

/// Char-wise equality of two string slices.
pub fn str_equal(a: &str, b: &str) -> (r: bool)
    ensures
        r == (a@ == b@),
{
    let la = a.unicode_len();
    let lb = b.unicode_len();
    if la != lb {
        return false;
    }
    let mut i: usize = 0;
    while i < la
        invariant
            la == a@.len(),
            lb == b@.len(),
            la == lb,
            0 <= i <= la,
            forall|j: int| 0 <= j < i ==> a@[j] == b@[j],
        decreases la - i,
    {
        if a.get_char(i) != b.get_char(i) {
            return false;
        }
        i = i + 1;
    }
    assert(a@ =~= b@);
    true
}

impl Interner {
    #[verifier::type_invariant]
    spec fn inv(&self) -> bool {
        self.strings@.len() <= u32::MAX
    }

    /// Number of strings in the table, never above `u32::MAX`.
    pub fn len(&self) -> (r: usize)
        ensures
            r == self@.len(),
            r <= u32::MAX,
    {
        proof {
            use_type_invariant(self);
        }
        self.strings.len()
    }

    /// An empty table.
    pub fn new() -> (r: Interner)
        ensures
            r@ == Seq::<Seq<char>>::empty(),
    {
        let r = Interner { strings: Vec::new() };
        assert(r@ =~= Seq::<Seq<char>>::empty());
        r
    }

    /// The symbol of `s`, if `s` was interned before.
    pub fn lookup(&self, s: &str) -> (r: Option<Symbol>)
        ensures
            r matches Some(sym) ==> is_first_index(self@, s@, sym.index() as int),
            r is None <==> !table_has(self@, s@),
    {
        let n = self.len();
        let mut i: usize = 0;
        while i < n
            invariant
                n == self.strings@.len(),
                n == self@.len(),
                n <= u32::MAX,
                0 <= i <= n,
                forall|j: int| 0 <= j < i ==> self@[j] != s@,
            decreases n - i,
        {
            if str_equal(self.strings[i].as_str(), s) {
                assert(self@[i as int] == s@);
                return Some(Symbol(i as u32));
            }
            i = i + 1;
        }
        None
    }

    /// The symbol of `s`: the existing one if `s` was interned before, else a new one
    /// naming `s` appended to the table.
    pub fn intern(&mut self, s: &str) -> (sym: Symbol)
        requires
            old(self)@.len() < u32::MAX,
        ensures
            table_has(old(self)@, s@) ==> final(self)@ == old(self)@ && is_first_index(old(self)@, s@, sym.index() as int),
            !table_has(old(self)@, s@) ==> final(self)@ == old(self)@.push(s@) && sym.index() == old(self)@.len(),
            final(self)@[sym.index() as int] == s@,
            sym.index() < final(self)@.len(),
    {
        match self.lookup(s) {
            Some(sym) => sym,
            None => {
                let n = self.len();
                let owned = s.to_owned();
                let mut strings: Vec<String> = Vec::new();
                std::mem::swap(&mut strings, &mut self.strings);
                strings.push(owned);
                self.strings = strings;
                assert(self@ =~= old(self)@.push(s@));
                Symbol(n as u32)
            }
        }
    }

    /// The string that `sym` names.
    pub fn resolve(&self, sym: Symbol) -> (r: &str)
        requires
            sym.index() < self@.len(),
        ensures
            r@ == self@[sym.index() as int],
    {
        self.strings[sym.0 as usize].as_str()
    }

    /// The string that `sym` names, or `None` if `sym` is not in this table.
    pub fn try_resolve(&self, sym: Symbol) -> (r: Option<&str>)
        ensures
            sym.index() < self@.len() ==> (r matches Some(t) && t@ == self@[sym.index() as int]),
            sym.index() >= self@.len() ==> r is None,
    {
        if (sym.0 as usize) < self.strings.len() {
            Some(self.strings[sym.0 as usize].as_str())
        } else {
            None
        }
    }
}

} // verus!
