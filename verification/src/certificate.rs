use vstd::prelude::*;
use vstd::bytes::spec_u32_to_le_bytes;
use crate::node::{HirExpr, HirFn};
use crate::semantic_hash::{flag, push_bytes, push_le32, sha256, sha256_spec, utf8};
use crate::debug_text::{expr_debug_bytes, expr_text, type_debug_bytes, type_debug_text};
use crate::symbol::Interner;
use crate::types::HirType;

verus! {

broadcast use vstd::std_specs::vec::group_vec_axioms;

/// The number of nodes that the certificate counts in an expression: one.
pub fn count_nodes(expr: &HirExpr) -> (r: u32)
    ensures
        r == 1,
{
    1
}

/// The `Debug` texts of the first `n` parameter types, concatenated.
pub open spec fn param_types_text(ps: Seq<(crate::symbol::Symbol, HirType)>, n: nat) -> Seq<u8>
    decreases n,
{
    if n == 0 || n > ps.len() {
        Seq::empty()
    } else {
        param_types_text(ps, (n - 1) as nat) + type_debug_text(ps[n - 1].1)
    }
}

/// The bytes whose digest is a function's signature hash: its name, the `Debug` text
/// of each parameter type and of the return type.
pub open spec fn signature_text(f: HirFn, strs: Seq<Seq<char>>) -> Seq<u8> {
    utf8(strs[f.name.index() as int]) + param_types_text(f.params@, f.params@.len())
        + match f.ret {
            Some(t) => type_debug_text(t),
            None => Seq::empty(),
        }
}

/// The names of the functions that the certificate records as called: the callee
/// when the body is itself a call, else none.
pub open spec fn callee_names(body: HirExpr, strs: Seq<Seq<char>>) -> Seq<Seq<char>> {
    match body {
        HirExpr::Call { callee, .. } => seq![strs[callee.index() as int]],
        _ => Seq::empty(),
    }
}

/// Every symbol that `compute` resolves is interned.
pub open spec fn certificate_names_ok(f: HirFn, n: nat) -> bool {
    &&& f.name.index() < n
    &&& (f.body matches HirExpr::Call { callee, .. } ==> callee.index() < n)
}

/// The UTF-8 bytes of the first `n` strings, concatenated.
pub open spec fn strings_text(ss: Seq<String>, n: nat) -> Seq<u8>
    decreases n,
{
    if n == 0 || n > ss.len() {
        Seq::empty()
    } else {
        strings_text(ss, (n - 1) as nat) + utf8(ss[n - 1]@)
    }
}

/// A summary of the properties of a function that its optimization depends on; two
/// builds with equal certificates optimize the function identically.
#[derive(Clone, Debug, PartialEq, Eq, Hash)]
pub struct InvariantCertificate {
    pub signature_hash: [u8; 32],
    pub is_pure: bool,
    pub may_panic: bool,
    pub may_allocate: bool,
    pub complexity: u32,
    pub ir_size: u32,
    pub callees: Vec<String>,
    pub canonical_form_hash: [u8; 32],
    pub rule_set_version: u32,
}

impl InvariantCertificate {
    /// The version of the rewrite rules that certificates are made for.
    pub const RULE_SET_VERSION: u32 = 1;

    /// The bytes whose digest is the certificate's content hash.
    pub open spec fn content_text(&self) -> Seq<u8> {
        self.signature_hash@ + flag(self.is_pure) + flag(self.may_panic) + flag(self.may_allocate)
            + spec_u32_to_le_bytes(self.complexity) + spec_u32_to_le_bytes(self.ir_size)
            + self.canonical_form_hash@ + spec_u32_to_le_bytes(self.rule_set_version)
            + strings_text(self.callees@, self.callees@.len())
    }

    /// The certificate of a function: the hash of its signature, the names it calls,
    /// its size, and the hash of its body's `Debug` text.
    pub fn compute(hir_fn: &HirFn, interner: &Interner, types: &[HirType]) -> (r: InvariantCertificate)
        requires
            certificate_names_ok(*hir_fn, interner@.len()),
        ensures
            r.signature_hash@ == sha256_spec(signature_text(*hir_fn, interner@)),
            !r.is_pure,
            !r.may_panic,
            !r.may_allocate,
            r.complexity == 1,
            r.ir_size == 1,
            r.callees@.len() == callee_names(hir_fn.body, interner@).len(),
            forall|i: int| 0 <= i < r.callees@.len() ==> (#[trigger] r.callees@[i])@ == callee_names(hir_fn.body, interner@)[i],
            r.canonical_form_hash@ == sha256_spec(expr_text(hir_fn.body)),
            r.rule_set_version == 1,
    {
        let mut sig: Vec<u8> = Vec::new();
        push_bytes(&mut sig, interner.resolve(hir_fn.name).as_bytes());
        let ghost s0 = sig@;
        let mut i: usize = 0;
        while i < hir_fn.params.len()
            invariant
                0 <= i <= hir_fn.params@.len(),
                sig@ == s0 + param_types_text(hir_fn.params@, i as nat),
            decreases hir_fn.params@.len() - i,
        {
            let t = type_debug_bytes(&hir_fn.params[i].1);
            push_bytes(&mut sig, t.as_slice());
            assert(sig@ =~= s0 + param_types_text(hir_fn.params@, (i + 1) as nat));
            i = i + 1;
        }
        match &hir_fn.ret {
            Some(t) => {
                let tb = type_debug_bytes(t);
                push_bytes(&mut sig, tb.as_slice());
            },
            None => {},
        }
        assert(sig@ =~= signature_text(*hir_fn, interner@));
        let signature_hash = sha256(sig.as_slice());
        let mut callees: Vec<String> = Vec::new();
        match &hir_fn.body {
            HirExpr::Call { callee, .. } => {
                callees.push(interner.resolve(*callee).to_owned());
            },
            _ => {},
        }
        let complexity = count_nodes(&hir_fn.body);
        let body_text = expr_debug_bytes(&hir_fn.body);
        let canonical_form_hash = sha256(body_text.as_slice());
        InvariantCertificate {
            signature_hash,
            is_pure: false,
            may_panic: false,
            may_allocate: false,
            complexity,
            ir_size: complexity,
            callees,
            canonical_form_hash,
            rule_set_version: Self::RULE_SET_VERSION,
        }
    }

    /// The SHA-256 digest of the certificate's fields: see `content_text`.
    pub fn content_hash(&self) -> (r: [u8; 32])
        ensures
            r@ == sha256_spec(self.content_text()),
    {
        let mut data: Vec<u8> = Vec::new();
        push_bytes(&mut data, &self.signature_hash);
        data.push(if self.is_pure { 1u8 } else { 0u8 });
        data.push(if self.may_panic { 1u8 } else { 0u8 });
        data.push(if self.may_allocate { 1u8 } else { 0u8 });
        push_le32(&mut data, self.complexity);
        push_le32(&mut data, self.ir_size);
        push_bytes(&mut data, &self.canonical_form_hash);
        push_le32(&mut data, self.rule_set_version);
        let ghost d0 = data@;
        let mut i: usize = 0;
        while i < self.callees.len()
            invariant
                0 <= i <= self.callees@.len(),
                data@ == d0 + strings_text(self.callees@, i as nat),
            decreases self.callees@.len() - i,
        {
            push_bytes(&mut data, self.callees[i].as_str().as_bytes());
            assert(data@ =~= d0 + strings_text(self.callees@, (i + 1) as nat));
            i = i + 1;
        }
        assert(data@ =~= self.content_text());
        sha256(data.as_slice())
    }
}

} // verus!
