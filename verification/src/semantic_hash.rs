use vstd::prelude::*;
use vstd::string::StringExecFns;
use vstd::string::StrSliceExecFns;
use sha2::Digest;
use vstd::bytes::{spec_u32_to_le_bytes, spec_u64_to_le_bytes, u32_to_le_bytes, u64_to_le_bytes};
use vstd::utf8::encode_utf8;
use crate::node::{HirBinOp, HirUnOp};
use crate::item::{EnumDef, ExternBlock, HirImplDef, HirItem, StructDef};
use crate::node::HirFn;
use crate::normalize::{
    fn_norm, fn_ok, NormalizedExpr, NormalizedHirFn, NormalizedMatchArm, NormalizedPattern, NormalizedStmt,
    SemanticNormalizer,
};
use crate::symbol::{Interner, Symbol};
use crate::types::HirType;
use crate::debug_text::{type_debug_bytes, type_debug_text};

verus! {

broadcast use vstd::std_specs::vec::group_vec_axioms;

/// The SHA-256 digest of `data`.
pub uninterp spec fn sha256_spec(data: Seq<u8>) -> Seq<u8>;

/// `sha2::Sha256::digest`: the SHA-256 digest of `data`. The contract names the digest
/// and says nothing more of it.
#[verifier::external_body]
pub(crate) fn sha256(data: &[u8]) -> (r: [u8; 32])
    ensures
        r@ == sha256_spec(data@),
{
    sha2::Sha256::digest(data).into()
}

/// The lowercase hexadecimal digit of `n`, for `n < 16`.
pub open spec fn hex_digit(n: int) -> char {
    "0123456789abcdef"@[n]
}

/// Two lowercase hexadecimal digits per byte, high nibble first.
pub open spec fn hex_of(bytes: Seq<u8>) -> Seq<char>
    decreases bytes.len(),
{
    if bytes.len() == 0 {
        Seq::empty()
    } else {
        let b = bytes.last();
        hex_of(bytes.drop_last()) + seq![hex_digit((b / 16) as int), hex_digit((b % 16) as int)]
    }
}

/// The bytes `combine:`.
pub open spec fn combine_tag() -> Seq<u8> {
    seq![99u8, 111u8, 109u8, 98u8, 105u8, 110u8, 101u8, 58u8]
}

/// A 32-byte SHA-256 digest identifying the meaning of a piece of code.
#[derive(Clone, Copy, PartialEq, Eq, Hash, PartialOrd, Ord, Debug)]
pub struct SemanticHash([u8; 32]);

impl SemanticHash {
    /// The digest's bytes.
    pub closed spec fn bytes(&self) -> Seq<u8> {
        self.0@
    }

    /// The hash of all zero bytes.
    pub fn zero() -> (r: SemanticHash)
        ensures
            r.bytes() == Seq::new(32, |i: int| 0u8),
    {
        let r = SemanticHash([0u8; 32]);
        assert(r.bytes() =~= Seq::new(32, |i: int| 0u8));
        r
    }

    /// The SHA-256 digest of `data`.
    pub fn of(data: &[u8]) -> (r: SemanticHash)
        ensures
            r.bytes() == sha256_spec(data@),
    {
        SemanticHash(sha256(data))
    }

    /// Two hashes are equal exactly when their bytes are.
    pub proof fn lemma_eq_iff_bytes(a: SemanticHash, b: SemanticHash)
        ensures
            (a == b) <==> (a.bytes() == b.bytes()),
            a.bytes().len() == 32,
    {
        broadcast use vstd::array::group_array_axioms;
        if a.bytes() == b.bytes() {
            assert(a.0 =~= b.0);
        }
    }

    /// The digest's 32 bytes.
    pub fn as_bytes(&self) -> (r: &[u8; 32])
        ensures
            r@ == self.bytes(),
            r@.len() == 32,
    {
        &self.0
    }

    /// The digest as 64 lowercase hexadecimal digits.
    pub fn to_hex(self) -> (r: String)
        ensures
            r@ == hex_of(self.bytes()),
            r@.len() == 64,
    {
        let digits = "0123456789abcdef";
        proof {
            reveal_strlit("0123456789abcdef");
        }
        let mut out = String::new();
        let mut i: usize = 0;
        while i < 32
            invariant
                0 <= i <= 32,
                self.0@.len() == 32,
                digits@ == "0123456789abcdef"@,
                digits@.len() == 16,
                out@ == hex_of(self.0@.subrange(0, i as int)),
                out@.len() == 2 * i,
            decreases 32 - i,
        {
            let b = self.0[i];
            let hi = (b / 16) as usize;
            let lo = (b % 16) as usize;
            let h = digits.substring_char(hi, hi + 1);
            let l = digits.substring_char(lo, lo + 1);
            out.append(h);
            out.append(l);
            proof {
                let s = self.0@.subrange(0, i as int + 1);
                assert(s.drop_last() =~= self.0@.subrange(0, i as int));
                assert(s.last() == b);
                assert(h@ =~= seq![hex_digit((b / 16) as int)]);
                assert(l@ =~= seq![hex_digit((b % 16) as int)]);
                assert(out@ =~= hex_of(s));
            }
            i = i + 1;
        }
        assert(self.0@.subrange(0, 32) =~= self.0@);
        out
    }

    /// The SHA-256 digest of the bytes `combine:`, then `a`'s bytes, then `b`'s.
    pub fn combine(a: SemanticHash, b: SemanticHash) -> (r: SemanticHash)
        ensures
            r.bytes() == sha256_spec(combine_tag() + a.bytes() + b.bytes()),
    {
        let mut data: Vec<u8> = Vec::new();
        data.push(99u8);
        data.push(111u8);
        data.push(109u8);
        data.push(98u8);
        data.push(105u8);
        data.push(110u8);
        data.push(101u8);
        data.push(58u8);
        let ghost tag = data@;
        let mut i: usize = 0;
        while i < 32
            invariant
                0 <= i <= 32,
                a.0@.len() == 32,
                data@ == tag + a.0@.subrange(0, i as int),
            decreases 32 - i,
        {
            data.push(a.0[i]);
            assert(a.0@.subrange(0, i as int + 1) =~= a.0@.subrange(0, i as int).push(a.0@[i as int]));
            i = i + 1;
        }
        let ghost mid = data@;
        let mut j: usize = 0;
        while j < 32
            invariant
                0 <= j <= 32,
                b.0@.len() == 32,
                data@ == mid + b.0@.subrange(0, j as int),
            decreases 32 - j,
        {
            data.push(b.0[j]);
            assert(b.0@.subrange(0, j as int + 1) =~= b.0@.subrange(0, j as int).push(b.0@[j as int]));
            j = j + 1;
        }
        proof {
            assert(tag =~= combine_tag());
            assert(a.0@.subrange(0, 32) =~= a.0@);
            assert(b.0@.subrange(0, 32) =~= b.0@);
        }
        SemanticHash::of(data.as_slice())
    }
}

/// The name of a binary operator, as its `Debug` text spells it.
pub open spec fn binop_text(op: HirBinOp) -> Seq<char> {
    match op {
        HirBinOp::Add => "Add"@,
        HirBinOp::Sub => "Sub"@,
        HirBinOp::Mul => "Mul"@,
        HirBinOp::Div => "Div"@,
        HirBinOp::Mod => "Mod"@,
        HirBinOp::Eq => "Eq"@,
        HirBinOp::Neq => "Neq"@,
        HirBinOp::Lt => "Lt"@,
        HirBinOp::Gt => "Gt"@,
        HirBinOp::Lte => "Lte"@,
        HirBinOp::Gte => "Gte"@,
        HirBinOp::And => "And"@,
        HirBinOp::Or => "Or"@,
    }
}

/// The name of a unary operator, as its `Debug` text spells it.
pub open spec fn unop_text(op: HirUnOp) -> Seq<char> {
    match op {
        HirUnOp::Neg => "Neg"@,
        HirUnOp::Not => "Not"@,
    }
}

/// The name of a binary operator.
pub fn binop_name(op: HirBinOp) -> (r: &'static str)
    ensures
        r@ == binop_text(op),
{
    match op {
        HirBinOp::Add => "Add",
        HirBinOp::Sub => "Sub",
        HirBinOp::Mul => "Mul",
        HirBinOp::Div => "Div",
        HirBinOp::Mod => "Mod",
        HirBinOp::Eq => "Eq",
        HirBinOp::Neq => "Neq",
        HirBinOp::Lt => "Lt",
        HirBinOp::Gt => "Gt",
        HirBinOp::Lte => "Lte",
        HirBinOp::Gte => "Gte",
        HirBinOp::And => "And",
        HirBinOp::Or => "Or",
    }
}

/// The name of a unary operator.
pub fn unop_name(op: HirUnOp) -> (r: &'static str)
    ensures
        r@ == unop_text(op),
{
    match op {
        HirUnOp::Neg => "Neg",
        HirUnOp::Not => "Not",
    }
}

/// Little-endian bytes of a `u64`.
pub open spec fn le64(x: u64) -> Seq<u8> {
    spec_u64_to_le_bytes(x)
}

/// A string's UTF-8 bytes.
pub open spec fn utf8(s: Seq<char>) -> Seq<u8> {
    encode_utf8(s)
}

/// A byte flag: 1 for true, 0 for false.
pub open spec fn flag(b: bool) -> Seq<u8> {
    if b { seq![1u8] } else { seq![0u8] }
}

/// A string's bytes, then a zero byte.
pub open spec fn cstr(s: Seq<char>) -> Seq<u8> {
    utf8(s) + seq![0u8]
}

/// The byte length of a string's UTF-8 form, then the bytes.
pub open spec fn lstr(s: Seq<char>) -> Seq<u8> {
    le64(utf8(s).len() as u64) + utf8(s)
}

/// The byte encoding of a normalized expression that its hash is taken of.
pub open spec fn enc_expr(e: NormalizedExpr) -> Seq<u8>
    decreases e, 0nat,
{
    match e {
        NormalizedExpr::IntLit(v) => seq![0x01u8] + le64(v as u64),
        NormalizedExpr::FloatLit(b) => seq![0x02u8] + le64(b),
        NormalizedExpr::BoolLit(b) => seq![0x03u8] + flag(b),
        NormalizedExpr::StrLit(s) => seq![0x04u8] + lstr(s@),
        NormalizedExpr::UnitLit => seq![0x05u8],
        NormalizedExpr::Local(i) => seq![0x06u8] + spec_u32_to_le_bytes(i),
        NormalizedExpr::Name(s) => seq![0x07u8] + lstr(s@),
        NormalizedExpr::Binary { op, lhs, rhs } => seq![0x08u8] + cstr(binop_text(op)) + enc_expr(*lhs) + enc_expr(*rhs),
        NormalizedExpr::Unary { op, operand } => seq![0x09u8] + cstr(unop_text(op)) + enc_expr(*operand),
        NormalizedExpr::Block { stmts } => seq![0x0Au8] + le64(stmts@.len() as u64) + enc_stmts(stmts, stmts@.len()),
        NormalizedExpr::If { condition, then_branch, else_branch } => seq![0x0Bu8] + enc_expr(*condition) + enc_expr(*then_branch)
            + match else_branch {
                Some(x) => seq![1u8] + enc_expr(*x),
                None => seq![0u8],
            },
        NormalizedExpr::Call { callee, args } => seq![0x0Cu8] + cstr(callee@) + le64(args@.len() as u64) + enc_exprs(args, args@.len()),
        NormalizedExpr::MethodCall { receiver, method_name, resolved_callee, args } => seq![0x0Du8] + enc_expr(*receiver)
            + cstr(method_name@)
            + match resolved_callee {
                Some(c) => seq![1u8] + cstr(c@),
                None => seq![0u8],
            }
            + le64(args@.len() as u64) + enc_exprs(args, args@.len()),
        NormalizedExpr::Assert { condition, message } => seq![0x0Eu8] + enc_expr(*condition)
            + match message {
                Some(m) => seq![1u8] + enc_expr(*m),
                None => seq![0u8],
            },
        NormalizedExpr::Match { scrutinee, arms } => seq![0x0Fu8] + enc_expr(*scrutinee) + le64(arms@.len() as u64) + enc_arms(arms, arms@.len()),
        NormalizedExpr::FieldAccess { object, field } => seq![0x10u8] + enc_expr(*object) + cstr(field@),
        NormalizedExpr::StructLit { struct_name, fields } => seq![0x11u8] + cstr(struct_name@) + le64(fields@.len() as u64) + enc_fields(fields, fields@.len()),
        NormalizedExpr::EnumVariant { enum_name, variant_name, args } => seq![0x12u8] + cstr(enum_name@) + cstr(variant_name@)
            + le64(args@.len() as u64) + enc_exprs(args, args@.len()),
        NormalizedExpr::ForIn { pattern, iter, body } => seq![0x13u8] + enc_pat(pattern) + enc_expr(*iter) + enc_expr(*body),
        NormalizedExpr::While { condition, body } => seq![0x14u8] + enc_expr(*condition) + enc_expr(*body),
        NormalizedExpr::Return { value } => seq![0x15u8] + match value {
            Some(v) => seq![1u8] + enc_expr(*v),
            None => seq![0u8],
        },
        NormalizedExpr::As { expr, target_type } => seq![0x16u8] + enc_expr(*expr) + type_debug_text(target_type) + seq![0u8],
        NormalizedExpr::SizeOf { target_type } => seq![0x17u8] + type_debug_text(target_type) + seq![0u8],
        NormalizedExpr::TupleLit { elements } => seq![0x18u8] + le64(elements@.len() as u64) + enc_exprs(elements, elements@.len()),
        NormalizedExpr::AddrOf { target } => seq![0x19u8] + cstr(target@),
        NormalizedExpr::Deref { expr } => seq![0x1Au8] + enc_expr(*expr),
        NormalizedExpr::Println { arg } => seq![0x1Bu8] + enc_expr(*arg),
    }
}

/// The encodings of the first `n` expressions, concatenated.
pub open spec fn enc_exprs(xs: Vec<NormalizedExpr>, n: nat) -> Seq<u8>
    decreases xs, n,
{
    if n == 0 || n > xs@.len() {
        Seq::empty()
    } else {
        enc_exprs(xs, (n - 1) as nat) + enc_expr(xs@[n - 1])
    }
}

/// The encodings of the first `n` statements, concatenated.
pub open spec fn enc_stmts(xs: Vec<NormalizedStmt>, n: nat) -> Seq<u8>
    decreases xs, n,
{
    if n == 0 || n > xs@.len() {
        Seq::empty()
    } else {
        enc_stmts(xs, (n - 1) as nat) + enc_stmt(xs@[n - 1])
    }
}

/// The encodings of the first `n` match arms, concatenated.
pub open spec fn enc_arms(xs: Vec<NormalizedMatchArm>, n: nat) -> Seq<u8>
    decreases xs, n,
{
    if n == 0 || n > xs@.len() {
        Seq::empty()
    } else {
        enc_arms(xs, (n - 1) as nat) + enc_arm(xs@[n - 1])
    }
}

/// The encodings of the first `n` struct literal fields, concatenated.
pub open spec fn enc_fields(xs: Vec<(String, NormalizedExpr)>, n: nat) -> Seq<u8>
    decreases xs, n,
{
    if n == 0 || n > xs@.len() {
        Seq::empty()
    } else {
        enc_fields(xs, (n - 1) as nat) + cstr(xs@[n - 1].0@) + enc_expr(xs@[n - 1].1)
    }
}

/// The byte encoding of a normalized statement.
pub open spec fn enc_stmt(s: NormalizedStmt) -> Seq<u8>
    decreases s, 0nat,
{
    match s {
        NormalizedStmt::Let { local_id, mutable, value } => seq![0x01u8] + spec_u32_to_le_bytes(local_id) + flag(mutable) + enc_expr(value),
        NormalizedStmt::Assign { local_id, value } => seq![0x02u8] + spec_u32_to_le_bytes(local_id) + enc_expr(value),
        NormalizedStmt::AssignField { object, field, value } => seq![0x03u8] + enc_expr(object) + cstr(field@) + enc_expr(value),
        NormalizedStmt::AssignDeref { target, value } => seq![0x04u8] + enc_expr(target) + enc_expr(value),
        NormalizedStmt::Expr(e) => seq![0x05u8] + enc_expr(e),
    }
}

/// The byte encoding of a normalized match arm.
pub open spec fn enc_arm(a: NormalizedMatchArm) -> Seq<u8>
    decreases a, 0nat,
{
    enc_pat(a.pattern) + match a.guard {
        Some(g) => seq![1u8] + enc_expr(g),
        None => seq![0u8],
    } + enc_expr(a.body)
}

/// The byte encoding of a normalized pattern.
pub open spec fn enc_pat(p: NormalizedPattern) -> Seq<u8>
    decreases p, 0nat,
{
    match p {
        NormalizedPattern::Wild => seq![0x01u8],
        NormalizedPattern::BoolLit(b) => seq![0x02u8] + flag(b),
        NormalizedPattern::IntLit(n) => seq![0x03u8] + le64(n as u64),
        NormalizedPattern::FloatLit(b) => seq![0x04u8] + le64(b),
        NormalizedPattern::StrLit(s) => seq![0x05u8] + cstr(s@),
        NormalizedPattern::Unit => seq![0x06u8],
        NormalizedPattern::Local(i) => seq![0x07u8] + spec_u32_to_le_bytes(i),
        NormalizedPattern::Struct { name, bindings } => seq![0x08u8] + cstr(name@) + le64(bindings@.len() as u64) + enc_bindings(bindings, bindings@.len()),
        NormalizedPattern::EnumVariant { enum_name, variant_name, bindings } => seq![0x09u8] + cstr(enum_name@) + cstr(variant_name@)
            + le64(bindings@.len() as u64) + enc_bindings(bindings, bindings@.len()),
        NormalizedPattern::Tuple { elements } => seq![0x0Au8] + le64(elements@.len() as u64) + enc_pats(elements, elements@.len()),
        NormalizedPattern::OptionSome(inner) => seq![0x0Bu8] + enc_pat(*inner),
        NormalizedPattern::OptionNone => seq![0x0Cu8],
        NormalizedPattern::ResultOk(inner) => seq![0x0Du8] + enc_pat(*inner),
        NormalizedPattern::ResultErr(inner) => seq![0x0Eu8] + enc_pat(*inner),
    }
}

/// The encodings of the first `n` patterns, concatenated.
pub open spec fn enc_pats(xs: Vec<NormalizedPattern>, n: nat) -> Seq<u8>
    decreases xs, n,
{
    if n == 0 || n > xs@.len() {
        Seq::empty()
    } else {
        enc_pats(xs, (n - 1) as nat) + enc_pat(xs@[n - 1])
    }
}

/// The encodings of the first `n` named sub-patterns, concatenated.
pub open spec fn enc_bindings(xs: Vec<(String, NormalizedPattern)>, n: nat) -> Seq<u8>
    decreases xs, n,
{
    if n == 0 || n > xs@.len() {
        Seq::empty()
    } else {
        enc_bindings(xs, (n - 1) as nat) + cstr(xs@[n - 1].0@) + enc_pat(xs@[n - 1].1)
    }
}

/// Appends `bytes`.
pub(crate) fn push_bytes(buf: &mut Vec<u8>, bytes: &[u8])
    ensures
        final(buf)@ == old(buf)@ + bytes@,
{
    let mut i: usize = 0;
    while i < bytes.len()
        invariant
            0 <= i <= bytes@.len(),
            buf@ == old(buf)@ + bytes@.subrange(0, i as int),
        decreases bytes@.len() - i,
    {
        buf.push(bytes[i]);
        assert(bytes@.subrange(0, i as int + 1) =~= bytes@.subrange(0, i as int).push(bytes@[i as int]));
        i = i + 1;
    }
    assert(bytes@.subrange(0, bytes@.len() as int) =~= bytes@);
}

/// Appends a string's bytes and a zero byte.
fn push_cstr(buf: &mut Vec<u8>, s: &str)
    ensures
        final(buf)@ == old(buf)@ + cstr(s@),
{
    push_bytes(buf, s.as_bytes());
    buf.push(0u8);
    assert(buf@ =~= old(buf)@ + cstr(s@));
}

/// Appends a little-endian `u64`.
fn push_le64(buf: &mut Vec<u8>, x: u64)
    ensures
        final(buf)@ == old(buf)@ + le64(x),
{
    let b = u64_to_le_bytes(x);
    push_bytes(buf, b.as_slice());
}

/// Appends a little-endian `u32`.
pub(crate) fn push_le32(buf: &mut Vec<u8>, x: u32)
    ensures
        final(buf)@ == old(buf)@ + spec_u32_to_le_bytes(x),
{
    let b = u32_to_le_bytes(x);
    push_bytes(buf, b.as_slice());
}

/// Appends a string's byte length and its bytes.
fn push_lstr(buf: &mut Vec<u8>, s: &str)
    ensures
        final(buf)@ == old(buf)@ + lstr(s@),
{
    let bytes = s.as_bytes();
    push_le64(buf, bytes.len() as u64);
    push_bytes(buf, bytes);
    assert(buf@ =~= old(buf)@ + lstr(s@));
}

/// Appends a byte flag.
fn push_flag(buf: &mut Vec<u8>, b: bool)
    ensures
        final(buf)@ == old(buf)@ + flag(b),
{
    if b {
        buf.push(1u8);
    } else {
        buf.push(0u8);
    }
    assert(buf@ =~= old(buf)@ + flag(b));
}

/// Appends the encoding of a normalized expression.
pub fn write_normalized_expr(buf: &mut Vec<u8>, expr: &NormalizedExpr)
    ensures
        final(buf)@ == old(buf)@ + enc_expr(*expr),
    decreases expr, 0nat,
{
    let ghost b0 = buf@;
    match expr {
        NormalizedExpr::IntLit(v) => {
            buf.push(0x01u8);
            push_le64(buf, *v as u64);
        },
        NormalizedExpr::FloatLit(bits) => {
            buf.push(0x02u8);
            push_le64(buf, *bits);
        },
        NormalizedExpr::BoolLit(b) => {
            buf.push(0x03u8);
            push_flag(buf, *b);
        },
        NormalizedExpr::StrLit(t) => {
            buf.push(0x04u8);
            push_lstr(buf, t.as_str());
        },
        NormalizedExpr::UnitLit => {
            buf.push(0x05u8);
        },
        NormalizedExpr::Local(idx) => {
            buf.push(0x06u8);
            push_le32(buf, *idx);
        },
        NormalizedExpr::Name(t) => {
            buf.push(0x07u8);
            push_lstr(buf, t.as_str());
        },
        NormalizedExpr::Binary { op, lhs, rhs } => {
            buf.push(0x08u8);
            push_cstr(buf, binop_name(*op));
            write_normalized_expr(buf, lhs);
            write_normalized_expr(buf, rhs);
        },
        NormalizedExpr::Unary { op, operand } => {
            buf.push(0x09u8);
            push_cstr(buf, unop_name(*op));
            write_normalized_expr(buf, operand);
        },
        NormalizedExpr::Block { stmts } => {
            proof { assert(decreases_to!(*expr => (*expr)->Block_stmts)); }
            buf.push(0x0Au8);
            push_le64(buf, stmts.len() as u64);
            write_normalized_stmts(buf, stmts);
        },
        NormalizedExpr::If { condition, then_branch, else_branch } => {
            buf.push(0x0Bu8);
            write_normalized_expr(buf, condition);
            write_normalized_expr(buf, then_branch);
            match else_branch {
                Some(e) => {
                    buf.push(1u8);
                    write_normalized_expr(buf, e);
                },
                None => {
                    buf.push(0u8);
                },
            }
        },
        NormalizedExpr::Call { callee, args } => {
            proof { assert(decreases_to!(*expr => (*expr)->Call_args)); }
            buf.push(0x0Cu8);
            push_cstr(buf, callee.as_str());
            push_le64(buf, args.len() as u64);
            write_normalized_exprs(buf, args);
        },
        NormalizedExpr::MethodCall { receiver, method_name, resolved_callee, args } => {
            proof { assert(decreases_to!(*expr => (*expr)->MethodCall_args)); }
            buf.push(0x0Du8);
            write_normalized_expr(buf, receiver);
            push_cstr(buf, method_name.as_str());
            match resolved_callee {
                Some(c) => {
                    buf.push(1u8);
                    push_cstr(buf, c.as_str());
                },
                None => {
                    buf.push(0u8);
                },
            }
            push_le64(buf, args.len() as u64);
            write_normalized_exprs(buf, args);
        },
        NormalizedExpr::Assert { condition, message } => {
            buf.push(0x0Eu8);
            write_normalized_expr(buf, condition);
            match message {
                Some(m) => {
                    buf.push(1u8);
                    write_normalized_expr(buf, m);
                },
                None => {
                    buf.push(0u8);
                },
            }
        },
        NormalizedExpr::Match { scrutinee, arms } => {
            proof { assert(decreases_to!(*expr => (*expr)->Match_arms)); }
            buf.push(0x0Fu8);
            write_normalized_expr(buf, scrutinee);
            push_le64(buf, arms.len() as u64);
            write_normalized_arms(buf, arms);
        },
        NormalizedExpr::FieldAccess { object, field } => {
            buf.push(0x10u8);
            write_normalized_expr(buf, object);
            push_cstr(buf, field.as_str());
        },
        NormalizedExpr::StructLit { struct_name, fields } => {
            proof { assert(decreases_to!(*expr => (*expr)->StructLit_fields)); }
            buf.push(0x11u8);
            push_cstr(buf, struct_name.as_str());
            push_le64(buf, fields.len() as u64);
            write_normalized_fields(buf, fields);
        },
        NormalizedExpr::EnumVariant { enum_name, variant_name, args } => {
            proof { assert(decreases_to!(*expr => (*expr)->EnumVariant_args)); }
            buf.push(0x12u8);
            push_cstr(buf, enum_name.as_str());
            push_cstr(buf, variant_name.as_str());
            push_le64(buf, args.len() as u64);
            write_normalized_exprs(buf, args);
        },
        NormalizedExpr::ForIn { pattern, iter, body } => {
            buf.push(0x13u8);
            write_normalized_pattern(buf, pattern);
            write_normalized_expr(buf, iter);
            write_normalized_expr(buf, body);
        },
        NormalizedExpr::While { condition, body } => {
            buf.push(0x14u8);
            write_normalized_expr(buf, condition);
            write_normalized_expr(buf, body);
        },
        NormalizedExpr::Return { value } => {
            buf.push(0x15u8);
            match value {
                Some(v) => {
                    buf.push(1u8);
                    write_normalized_expr(buf, v);
                },
                None => {
                    buf.push(0u8);
                },
            }
        },
        NormalizedExpr::As { expr: inner, target_type } => {
            buf.push(0x16u8);
            write_normalized_expr(buf, inner);
            let t = type_debug_bytes(target_type);
            push_bytes(buf, t.as_slice());
            buf.push(0u8);
        },
        NormalizedExpr::SizeOf { target_type } => {
            buf.push(0x17u8);
            let t = type_debug_bytes(target_type);
            push_bytes(buf, t.as_slice());
            buf.push(0u8);
        },
        NormalizedExpr::TupleLit { elements } => {
            proof { assert(decreases_to!(*expr => (*expr)->TupleLit_elements)); }
            buf.push(0x18u8);
            push_le64(buf, elements.len() as u64);
            write_normalized_exprs(buf, elements);
        },
        NormalizedExpr::AddrOf { target } => {
            buf.push(0x19u8);
            push_cstr(buf, target.as_str());
        },
        NormalizedExpr::Deref { expr: inner } => {
            buf.push(0x1Au8);
            write_normalized_expr(buf, inner);
        },
        NormalizedExpr::Println { arg } => {
            buf.push(0x1Bu8);
            write_normalized_expr(buf, arg);
        },
    }
    assert(buf@ =~= b0 + enc_expr(*expr));
}

/// Appends the encodings of the expressions of `xs`.
fn write_normalized_exprs(buf: &mut Vec<u8>, xs: &Vec<NormalizedExpr>)
    ensures
        final(buf)@ == old(buf)@ + enc_exprs(*xs, xs@.len()),
    decreases xs, xs@.len(),
{
    let mut i: usize = 0;
    while i < xs.len()
        invariant
            0 <= i <= xs@.len(),
            buf@ == old(buf)@ + enc_exprs(*xs, i as nat),
        decreases xs@.len() - i,
    {
        proof { assert(decreases_to!(*xs => xs@[i as int])); }
        write_normalized_expr(buf, &xs[i]);
        assert(buf@ =~= old(buf)@ + enc_exprs(*xs, (i + 1) as nat));
        i = i + 1;
    }
}

/// Appends the encodings of the statements of `xs`.
fn write_normalized_stmts(buf: &mut Vec<u8>, xs: &Vec<NormalizedStmt>)
    ensures
        final(buf)@ == old(buf)@ + enc_stmts(*xs, xs@.len()),
    decreases xs, xs@.len(),
{
    let mut i: usize = 0;
    while i < xs.len()
        invariant
            0 <= i <= xs@.len(),
            buf@ == old(buf)@ + enc_stmts(*xs, i as nat),
        decreases xs@.len() - i,
    {
        proof { assert(decreases_to!(*xs => xs@[i as int])); }
        write_normalized_stmt(buf, &xs[i]);
        assert(buf@ =~= old(buf)@ + enc_stmts(*xs, (i + 1) as nat));
        i = i + 1;
    }
}

/// Appends the encodings of the arms of `xs`.
fn write_normalized_arms(buf: &mut Vec<u8>, xs: &Vec<NormalizedMatchArm>)
    ensures
        final(buf)@ == old(buf)@ + enc_arms(*xs, xs@.len()),
    decreases xs, xs@.len(),
{
    let mut i: usize = 0;
    while i < xs.len()
        invariant
            0 <= i <= xs@.len(),
            buf@ == old(buf)@ + enc_arms(*xs, i as nat),
        decreases xs@.len() - i,
    {
        proof { assert(decreases_to!(*xs => xs@[i as int])); }
        let arm = &xs[i];
        let ghost b1 = buf@;
        write_normalized_pattern(buf, &arm.pattern);
        match &arm.guard {
            Some(g) => {
                buf.push(1u8);
                write_normalized_expr(buf, g);
            },
            None => {
                buf.push(0u8);
            },
        }
        write_normalized_expr(buf, &arm.body);
        assert(buf@ =~= b1 + enc_arm(*arm));
        assert(buf@ =~= old(buf)@ + enc_arms(*xs, (i + 1) as nat));
        i = i + 1;
    }
}

/// Appends the encodings of the named fields of `xs`.
fn write_normalized_fields(buf: &mut Vec<u8>, xs: &Vec<(String, NormalizedExpr)>)
    ensures
        final(buf)@ == old(buf)@ + enc_fields(*xs, xs@.len()),
    decreases xs, xs@.len(),
{
    let mut i: usize = 0;
    while i < xs.len()
        invariant
            0 <= i <= xs@.len(),
            buf@ == old(buf)@ + enc_fields(*xs, i as nat),
        decreases xs@.len() - i,
    {
        proof { assert(decreases_to!(*xs => xs@[i as int])); }
        push_cstr(buf, xs[i].0.as_str());
        write_normalized_expr(buf, &xs[i].1);
        assert(buf@ =~= old(buf)@ + enc_fields(*xs, (i + 1) as nat));
        i = i + 1;
    }
}

/// Appends the encoding of a normalized statement.
pub fn write_normalized_stmt(buf: &mut Vec<u8>, stmt: &NormalizedStmt)
    ensures
        final(buf)@ == old(buf)@ + enc_stmt(*stmt),
    decreases stmt, 0nat,
{
    let ghost b0 = buf@;
    match stmt {
        NormalizedStmt::Let { local_id, mutable, value } => {
            buf.push(0x01u8);
            push_le32(buf, *local_id);
            push_flag(buf, *mutable);
            write_normalized_expr(buf, value);
        },
        NormalizedStmt::Assign { local_id, value } => {
            buf.push(0x02u8);
            push_le32(buf, *local_id);
            write_normalized_expr(buf, value);
        },
        NormalizedStmt::AssignField { object, field, value } => {
            buf.push(0x03u8);
            write_normalized_expr(buf, object);
            push_cstr(buf, field.as_str());
            write_normalized_expr(buf, value);
        },
        NormalizedStmt::AssignDeref { target, value } => {
            buf.push(0x04u8);
            write_normalized_expr(buf, target);
            write_normalized_expr(buf, value);
        },
        NormalizedStmt::Expr(e) => {
            buf.push(0x05u8);
            write_normalized_expr(buf, e);
        },
    }
    assert(buf@ =~= b0 + enc_stmt(*stmt));
}

/// Appends the encoding of a normalized pattern.
pub fn write_normalized_pattern(buf: &mut Vec<u8>, pat: &NormalizedPattern)
    ensures
        final(buf)@ == old(buf)@ + enc_pat(*pat),
    decreases pat, 0nat,
{
    let ghost b0 = buf@;
    match pat {
        NormalizedPattern::Wild => {
            buf.push(0x01u8);
        },
        NormalizedPattern::BoolLit(b) => {
            buf.push(0x02u8);
            push_flag(buf, *b);
        },
        NormalizedPattern::IntLit(n) => {
            buf.push(0x03u8);
            push_le64(buf, *n as u64);
        },
        NormalizedPattern::FloatLit(bits) => {
            buf.push(0x04u8);
            push_le64(buf, *bits);
        },
        NormalizedPattern::StrLit(t) => {
            buf.push(0x05u8);
            push_cstr(buf, t.as_str());
        },
        NormalizedPattern::Unit => {
            buf.push(0x06u8);
        },
        NormalizedPattern::Local(idx) => {
            buf.push(0x07u8);
            push_le32(buf, *idx);
        },
        NormalizedPattern::Struct { name, bindings } => {
            proof { assert(decreases_to!(*pat => (*pat)->Struct_bindings)); }
            buf.push(0x08u8);
            push_cstr(buf, name.as_str());
            push_le64(buf, bindings.len() as u64);
            write_normalized_bindings(buf, bindings);
        },
        NormalizedPattern::EnumVariant { enum_name, variant_name, bindings } => {
            proof { assert(decreases_to!(*pat => (*pat)->EnumVariant_bindings)); }
            buf.push(0x09u8);
            push_cstr(buf, enum_name.as_str());
            push_cstr(buf, variant_name.as_str());
            push_le64(buf, bindings.len() as u64);
            write_normalized_bindings(buf, bindings);
        },
        NormalizedPattern::Tuple { elements } => {
            proof { assert(decreases_to!(*pat => (*pat)->Tuple_elements)); }
            buf.push(0x0Au8);
            push_le64(buf, elements.len() as u64);
            write_normalized_patterns(buf, elements);
        },
        NormalizedPattern::OptionSome(inner) => {
            buf.push(0x0Bu8);
            write_normalized_pattern(buf, inner);
        },
        NormalizedPattern::OptionNone => {
            buf.push(0x0Cu8);
        },
        NormalizedPattern::ResultOk(inner) => {
            buf.push(0x0Du8);
            write_normalized_pattern(buf, inner);
        },
        NormalizedPattern::ResultErr(inner) => {
            buf.push(0x0Eu8);
            write_normalized_pattern(buf, inner);
        },
    }
    assert(buf@ =~= b0 + enc_pat(*pat));
}

/// Appends the encodings of the patterns of `xs`.
fn write_normalized_patterns(buf: &mut Vec<u8>, xs: &Vec<NormalizedPattern>)
    ensures
        final(buf)@ == old(buf)@ + enc_pats(*xs, xs@.len()),
    decreases xs, xs@.len(),
{
    let mut i: usize = 0;
    while i < xs.len()
        invariant
            0 <= i <= xs@.len(),
            buf@ == old(buf)@ + enc_pats(*xs, i as nat),
        decreases xs@.len() - i,
    {
        proof { assert(decreases_to!(*xs => xs@[i as int])); }
        write_normalized_pattern(buf, &xs[i]);
        assert(buf@ =~= old(buf)@ + enc_pats(*xs, (i + 1) as nat));
        i = i + 1;
    }
}

/// Appends the encodings of the named sub-patterns of `xs`.
fn write_normalized_bindings(buf: &mut Vec<u8>, xs: &Vec<(String, NormalizedPattern)>)
    ensures
        final(buf)@ == old(buf)@ + enc_bindings(*xs, xs@.len()),
    decreases xs, xs@.len(),
{
    let mut i: usize = 0;
    while i < xs.len()
        invariant
            0 <= i <= xs@.len(),
            buf@ == old(buf)@ + enc_bindings(*xs, i as nat),
        decreases xs@.len() - i,
    {
        proof { assert(decreases_to!(*xs => xs@[i as int])); }
        push_cstr(buf, xs[i].0.as_str());
        write_normalized_pattern(buf, &xs[i].1);
        assert(buf@ =~= old(buf)@ + enc_bindings(*xs, (i + 1) as nat));
        i = i + 1;
    }
}

/// The hash of a normalized expression: the SHA-256 digest of its encoding.
pub fn hash_normalized_expr(expr: &NormalizedExpr) -> (r: SemanticHash)
    ensures
        r.bytes() == sha256_spec(enc_expr(*expr)),
{
    let mut buf: Vec<u8> = Vec::new();
    write_normalized_expr(&mut buf, expr);
    assert(buf@ =~= enc_expr(*expr));
    SemanticHash::of(buf.as_slice())
}

/// The first `n` type parameter names, each followed by a comma.
pub open spec fn enc_type_params(tps: Seq<String>, n: nat) -> Seq<u8>
    decreases n,
{
    if n == 0 || n > tps.len() {
        Seq::empty()
    } else {
        enc_type_params(tps, (n - 1) as nat) + utf8(tps[n - 1]@) + seq![44u8]
    }
}

/// The first `n` parameters, each as `name:type,` with the type's `Debug` text.
pub open spec fn enc_params(ps: Seq<(String, HirType)>, n: nat) -> Seq<u8>
    decreases n,
{
    if n == 0 || n > ps.len() {
        Seq::empty()
    } else {
        enc_params(ps, (n - 1) as nat) + utf8(ps[n - 1].0@) + seq![58u8] + type_debug_text(ps[n - 1].1) + seq![44u8]
    }
}

/// The bytes `fn:`.
pub open spec fn fn_tag() -> Seq<u8> {
    seq![102u8, 110u8, 58u8]
}

/// The bytes whose digest is the hash of a normalized function: its name, type
/// parameters, parameters, return type, flags and the hash of its body.
pub open spec fn enc_fn(norm: NormalizedHirFn) -> Seq<u8> {
    fn_tag() + cstr(norm.name@)
        + enc_type_params(norm.type_params@, norm.type_params@.len()) + seq![0u8]
        + enc_params(norm.params@, norm.params@.len()) + seq![0u8]
        + match norm.ret {
            Some(t) => type_debug_text(t),
            None => Seq::empty(),
        } + seq![0u8]
        + flag(norm.is_pub) + flag(norm.is_extern_backed)
        + sha256_spec(enc_expr(norm.body))
}

/// The hash of a normalized function: the SHA-256 digest of `enc_fn`.
pub fn hash_normalized_fn(norm: &NormalizedHirFn) -> (r: SemanticHash)
    ensures
        r.bytes() == sha256_spec(enc_fn(*norm)),
{
    let mut data: Vec<u8> = Vec::new();
    data.push(102u8);
    data.push(110u8);
    data.push(58u8);
    push_cstr(&mut data, norm.name.as_str());
    let ghost d0 = data@;
    let mut i: usize = 0;
    while i < norm.type_params.len()
        invariant
            0 <= i <= norm.type_params@.len(),
            data@ == d0 + enc_type_params(norm.type_params@, i as nat),
        decreases norm.type_params@.len() - i,
    {
        push_bytes(&mut data, norm.type_params[i].as_str().as_bytes());
        data.push(44u8);
        assert(data@ =~= d0 + enc_type_params(norm.type_params@, (i + 1) as nat));
        i = i + 1;
    }
    data.push(0u8);
    let ghost d1 = data@;
    let mut j: usize = 0;
    while j < norm.params.len()
        invariant
            0 <= j <= norm.params@.len(),
            data@ == d1 + enc_params(norm.params@, j as nat),
        decreases norm.params@.len() - j,
    {
        push_bytes(&mut data, norm.params[j].0.as_str().as_bytes());
        data.push(58u8);
        let t = type_debug_bytes(&norm.params[j].1);
        push_bytes(&mut data, t.as_slice());
        data.push(44u8);
        assert(data@ =~= d1 + enc_params(norm.params@, (j + 1) as nat));
        j = j + 1;
    }
    data.push(0u8);
    let ghost d2 = data@;
    match &norm.ret {
        Some(t) => {
            let tb = type_debug_bytes(t);
            push_bytes(&mut data, tb.as_slice());
        },
        None => {},
    }
    data.push(0u8);
    push_flag(&mut data, norm.is_pub);
    push_flag(&mut data, norm.is_extern_backed);
    let body_hash = hash_normalized_expr(&norm.body);
    push_bytes(&mut data, body_hash.as_bytes());
    assert(data@ =~= enc_fn(*norm));
    SemanticHash::of(data.as_slice())
}

/// `h` is the hash of a normal form of `f`.
pub open spec fn fn_hash_of(f: HirFn, strs: Seq<Seq<char>>, h: Seq<u8>) -> bool {
    exists|norm: NormalizedHirFn| #[trigger] fn_norm(f, strs, norm) && h == sha256_spec(enc_fn(norm))
}

/// The semantic hash of a function: the hash of its normal form (see `fn_norm`), so
/// that functions that differ only in the names of their locals and parameters, or in
/// the order of the operands of commutative operators, hash alike.
pub fn semantic_hash_fn(hir_fn: &HirFn, interner: &Interner) -> (r: SemanticHash)
    requires
        fn_ok(*hir_fn, interner@.len()),
    ensures
        fn_hash_of(*hir_fn, interner@, r.bytes()),
{
    let mut normalizer = SemanticNormalizer::new(interner);
    let normalized = normalizer.normalize_fn(hir_fn);
    let r = hash_normalized_fn(&normalized);
    assert(fn_norm(*hir_fn, interner@, normalized));
    r
}

/// The names of `syms`, each followed by a comma.
pub open spec fn enc_names(syms: Seq<Symbol>, strs: Seq<Seq<char>>, n: nat) -> Seq<u8>
    decreases n,
{
    if n == 0 || n > syms.len() {
        Seq::empty()
    } else {
        enc_names(syms, strs, (n - 1) as nat) + utf8(strs[syms[n - 1].index() as int]) + seq![44u8]
    }
}

/// The first `n` fields, each as `name:type` with the type's `Debug` text, then a zero byte.
pub open spec fn enc_struct_fields(fs: Seq<crate::item::StructField>, strs: Seq<Seq<char>>, n: nat) -> Seq<u8>
    decreases n,
{
    if n == 0 || n > fs.len() {
        Seq::empty()
    } else {
        enc_struct_fields(fs, strs, (n - 1) as nat) + utf8(strs[fs[n - 1].name.index() as int]) + seq![58u8]
            + type_debug_text(fs[n - 1].ty) + seq![0u8]
    }
}

/// The bytes `struct:`.
pub open spec fn struct_tag() -> Seq<u8> {
    seq![115u8, 116u8, 114u8, 117u8, 99u8, 116u8, 58u8]
}

/// The bytes whose digest is the hash of a struct: its name, type parameters and fields.
pub open spec fn enc_struct(s: StructDef, strs: Seq<Seq<char>>) -> Seq<u8> {
    struct_tag() + utf8(strs[s.name.index() as int]) + seq![0u8]
        + enc_names(s.type_params@, strs, s.type_params@.len()) + seq![0u8]
        + enc_struct_fields(s.fields@, strs, s.fields@.len())
}

/// The first `n` variants, each as `name:` and its tag in four little-endian bytes,
/// then a zero byte.
pub open spec fn enc_variants(vs: Seq<crate::item::HirVariant>, strs: Seq<Seq<char>>, n: nat) -> Seq<u8>
    decreases n,
{
    if n == 0 || n > vs.len() {
        Seq::empty()
    } else {
        enc_variants(vs, strs, (n - 1) as nat) + utf8(strs[vs[n - 1].name.index() as int]) + seq![58u8]
            + spec_u32_to_le_bytes(vs[n - 1].tag) + seq![0u8]
    }
}

/// The bytes `enum:`.
pub open spec fn enum_tag() -> Seq<u8> {
    seq![101u8, 110u8, 117u8, 109u8, 58u8]
}

/// The bytes whose digest is the hash of an enum: its name and variants.
pub open spec fn enc_enum(e: EnumDef, strs: Seq<Seq<char>>) -> Seq<u8> {
    enum_tag() + utf8(strs[e.name.index() as int]) + seq![0u8] + enc_variants(e.variants@, strs, e.variants@.len())
}

/// The first `n` function names of an extern block, each followed by a zero byte.
pub open spec fn enc_extern_fns(fs: Seq<crate::item::ExternFn>, strs: Seq<Seq<char>>, n: nat) -> Seq<u8>
    decreases n,
{
    if n == 0 || n > fs.len() {
        Seq::empty()
    } else {
        enc_extern_fns(fs, strs, (n - 1) as nat) + utf8(strs[fs[n - 1].name.index() as int]) + seq![0u8]
    }
}

/// The bytes `extern:`.
pub open spec fn extern_tag() -> Seq<u8> {
    seq![101u8, 120u8, 116u8, 101u8, 114u8, 110u8, 58u8]
}

/// The hash of an impl block after its first `n` methods: the hash of the target's name,
/// combined in turn with the method hashes `hs`.
pub open spec fn impl_fold(target: Seq<char>, hs: Seq<Seq<u8>>, n: nat) -> Seq<u8>
    decreases n,
{
    if n == 0 || n > hs.len() {
        sha256_spec(utf8(target))
    } else {
        sha256_spec(combine_tag() + impl_fold(target, hs, (n - 1) as nat) + hs[n - 1])
    }
}

/// `h` is the hash of an impl block: the target's name folded with hashes of the
/// normal forms of its methods, in order.
pub open spec fn impl_hash_of(imp: HirImplDef, strs: Seq<Seq<char>>, h: Seq<u8>) -> bool {
    exists|hs: Seq<Seq<u8>>| #[trigger] hs.len() == imp.methods@.len()
        && (forall|k: int| 0 <= k < hs.len() ==> fn_hash_of(imp.methods@[k], strs, #[trigger] hs[k]))
        && h == impl_fold(strs[imp.target_name.index() as int], hs, hs.len())
}

/// Every name that hashing `item` spells out is interned, and its functions can be
/// normalized.
pub open spec fn item_ok(item: HirItem, strs: Seq<Seq<char>>) -> bool {
    let n = strs.len();
    match item {
        HirItem::Fn(f) => fn_ok(f, n),
        HirItem::Struct(s) => s.name.index() < n
            && (forall|i: int| 0 <= i < s.type_params@.len() ==> (#[trigger] s.type_params@[i]).index() < n)
            && (forall|i: int| 0 <= i < s.fields@.len() ==> (#[trigger] s.fields@[i]).name.index() < n),
        HirItem::Enum(e) => e.name.index() < n
            && (forall|i: int| 0 <= i < e.variants@.len() ==> (#[trigger] e.variants@[i]).name.index() < n),
        HirItem::Impl(imp) => imp.target_name.index() < n
            && (forall|i: int| 0 <= i < imp.methods@.len() ==> fn_ok(#[trigger] imp.methods@[i], n)),
        HirItem::Extern(ext) => forall|i: int| 0 <= i < ext.functions@.len() ==> (#[trigger] ext.functions@[i]).name.index() < n,
    }
}

/// `h` is the semantic hash of `item`.
pub open spec fn item_hash_of(item: HirItem, strs: Seq<Seq<char>>, h: Seq<u8>) -> bool {
    match item {
        HirItem::Fn(f) => fn_hash_of(f, strs, h),
        HirItem::Struct(s) => h == sha256_spec(enc_struct(s, strs)),
        HirItem::Enum(e) => h == sha256_spec(enc_enum(e, strs)),
        HirItem::Impl(imp) => impl_hash_of(imp, strs, h),
        HirItem::Extern(ext) => h == sha256_spec(extern_tag() + enc_extern_fns(ext.functions@, strs, ext.functions@.len())),
    }
}

/// The semantic hash of a struct: its name, type parameters and field names and types.
fn semantic_hash_struct(s: &StructDef, interner: &Interner) -> (r: SemanticHash)
    requires
        item_ok(HirItem::Struct(*s), interner@),
    ensures
        r.bytes() == sha256_spec(enc_struct(*s, interner@)),
{
    let ghost strs = interner@;
    let mut data: Vec<u8> = Vec::new();
    data.push(115u8);
    data.push(116u8);
    data.push(114u8);
    data.push(117u8);
    data.push(99u8);
    data.push(116u8);
    data.push(58u8);
    push_bytes(&mut data, interner.resolve(s.name).as_bytes());
    data.push(0u8);
    let ghost d0 = data@;
    let mut i: usize = 0;
    while i < s.type_params.len()
        invariant
            0 <= i <= s.type_params@.len(),
            strs == interner@,
            item_ok(HirItem::Struct(*s), strs),
            data@ == d0 + enc_names(s.type_params@, strs, i as nat),
        decreases s.type_params@.len() - i,
    {
        push_bytes(&mut data, interner.resolve(s.type_params[i]).as_bytes());
        data.push(44u8);
        assert(data@ =~= d0 + enc_names(s.type_params@, strs, (i + 1) as nat));
        i = i + 1;
    }
    data.push(0u8);
    let ghost d1 = data@;
    let mut j: usize = 0;
    while j < s.fields.len()
        invariant
            0 <= j <= s.fields@.len(),
            strs == interner@,
            item_ok(HirItem::Struct(*s), strs),
            data@ == d1 + enc_struct_fields(s.fields@, strs, j as nat),
        decreases s.fields@.len() - j,
    {
        push_bytes(&mut data, interner.resolve(s.fields[j].name).as_bytes());
        data.push(58u8);
        let t = type_debug_bytes(&s.fields[j].ty);
        push_bytes(&mut data, t.as_slice());
        data.push(0u8);
        assert(data@ =~= d1 + enc_struct_fields(s.fields@, strs, (j + 1) as nat));
        j = j + 1;
    }
    assert(data@ =~= enc_struct(*s, strs));
    SemanticHash::of(data.as_slice())
}

/// The semantic hash of an enum: its name and its variants' names and tags.
fn semantic_hash_enum(e: &EnumDef, interner: &Interner) -> (r: SemanticHash)
    requires
        item_ok(HirItem::Enum(*e), interner@),
    ensures
        r.bytes() == sha256_spec(enc_enum(*e, interner@)),
{
    let ghost strs = interner@;
    let mut data: Vec<u8> = Vec::new();
    data.push(101u8);
    data.push(110u8);
    data.push(117u8);
    data.push(109u8);
    data.push(58u8);
    push_bytes(&mut data, interner.resolve(e.name).as_bytes());
    data.push(0u8);
    let ghost d0 = data@;
    let mut i: usize = 0;
    while i < e.variants.len()
        invariant
            0 <= i <= e.variants@.len(),
            strs == interner@,
            item_ok(HirItem::Enum(*e), strs),
            data@ == d0 + enc_variants(e.variants@, strs, i as nat),
        decreases e.variants@.len() - i,
    {
        push_bytes(&mut data, interner.resolve(e.variants[i].name).as_bytes());
        data.push(58u8);
        push_le32(&mut data, e.variants[i].tag);
        data.push(0u8);
        assert(data@ =~= d0 + enc_variants(e.variants@, strs, (i + 1) as nat));
        i = i + 1;
    }
    assert(data@ =~= enc_enum(*e, strs));
    SemanticHash::of(data.as_slice())
}

/// The semantic hash of an impl block: the hash of its target's name, combined in turn
/// with the semantic hash of each method.
fn semantic_hash_impl(imp: &HirImplDef, interner: &Interner) -> (r: SemanticHash)
    requires
        item_ok(HirItem::Impl(*imp), interner@),
    ensures
        impl_hash_of(*imp, interner@, r.bytes()),
{
    let ghost strs = interner@;
    let ghost target = strs[imp.target_name.index() as int];
    let mut h = SemanticHash::of(interner.resolve(imp.target_name).as_bytes());
    let ghost mut hs: Seq<Seq<u8>> = Seq::empty();
    let mut i: usize = 0;
    while i < imp.methods.len()
        invariant
            0 <= i <= imp.methods@.len(),
            strs == interner@,
            target == strs[imp.target_name.index() as int],
            item_ok(HirItem::Impl(*imp), strs),
            hs.len() == i,
            forall|k: int| 0 <= k < i ==> fn_hash_of(imp.methods@[k], strs, #[trigger] hs[k]),
            h.bytes() == impl_fold(target, hs, i as nat),
        decreases imp.methods@.len() - i,
    {
        let m = semantic_hash_fn(&imp.methods[i], interner);
        let ghost prev = hs;
        h = SemanticHash::combine(h, m);
        proof {
            hs = hs.push(m.bytes());
            assert(hs.take(i as int) =~= prev);
            lemma_impl_fold_prefix(target, prev, hs, i as nat);
        }
        i = i + 1;
    }
    proof {
        assert(hs.len() == imp.methods@.len());
    }
    h
}

/// The fold over a prefix only reads the prefix.
proof fn lemma_impl_fold_prefix(target: Seq<char>, a: Seq<Seq<u8>>, b: Seq<Seq<u8>>, n: nat)
    requires
        n <= a.len(),
        n <= b.len(),
        forall|k: int| 0 <= k < n ==> a[k] == b[k],
    ensures
        impl_fold(target, a, n) == impl_fold(target, b, n),
    decreases n,
{
    if n > 0 {
        lemma_impl_fold_prefix(target, a, b, (n - 1) as nat);
    }
}

/// The semantic hash of an extern block: the names of its functions.
fn semantic_hash_extern(ext: &ExternBlock, interner: &Interner) -> (r: SemanticHash)
    requires
        item_ok(HirItem::Extern(*ext), interner@),
    ensures
        r.bytes() == sha256_spec(extern_tag() + enc_extern_fns(ext.functions@, interner@, ext.functions@.len())),
{
    let ghost strs = interner@;
    let mut data: Vec<u8> = Vec::new();
    data.push(101u8);
    data.push(120u8);
    data.push(116u8);
    data.push(101u8);
    data.push(114u8);
    data.push(110u8);
    data.push(58u8);
    let ghost d0 = data@;
    let mut i: usize = 0;
    while i < ext.functions.len()
        invariant
            0 <= i <= ext.functions@.len(),
            strs == interner@,
            item_ok(HirItem::Extern(*ext), strs),
            data@ == d0 + enc_extern_fns(ext.functions@, strs, i as nat),
        decreases ext.functions@.len() - i,
    {
        push_bytes(&mut data, interner.resolve(ext.functions[i].name).as_bytes());
        data.push(0u8);
        assert(data@ =~= d0 + enc_extern_fns(ext.functions@, strs, (i + 1) as nat));
        i = i + 1;
    }
    assert(d0 =~= extern_tag());
    SemanticHash::of(data.as_slice())
}

/// The semantic hash of an item; see `item_hash_of`.
pub fn semantic_hash_item(item: &HirItem, interner: &Interner) -> (r: SemanticHash)
    requires
        item_ok(*item, interner@),
    ensures
        item_hash_of(*item, interner@, r.bytes()),
{
    match item {
        HirItem::Fn(f) => semantic_hash_fn(f, interner),
        HirItem::Struct(s) => semantic_hash_struct(s, interner),
        HirItem::Enum(e) => semantic_hash_enum(e, interner),
        HirItem::Impl(imp) => semantic_hash_impl(imp, interner),
        HirItem::Extern(ext) => semantic_hash_extern(ext, interner),
    }
}


/// A field access's encoding names its field: two accesses of the same object whose
/// encodings agree access the same field, so `p.x` and `p.y` are told apart.
pub proof fn lemma_field_access_encoding_names_field(object: NormalizedExpr, f1: String, f2: String)
    ensures
        enc_expr(NormalizedExpr::FieldAccess { object: Box::new(object), field: f1 })
            == enc_expr(NormalizedExpr::FieldAccess { object: Box::new(object), field: f2 }) ==> f1@ == f2@,
{
    let e1 = enc_expr(NormalizedExpr::FieldAccess { object: Box::new(object), field: f1 });
    let e2 = enc_expr(NormalizedExpr::FieldAccess { object: Box::new(object), field: f2 });
    if e1 == e2 {
        let a = seq![0x10u8] + enc_expr(object);
        let u1 = encode_utf8(f1@);
        let u2 = encode_utf8(f2@);
        assert(e1 =~= a + (u1 + seq![0u8]));
        assert(e2 =~= a + (u2 + seq![0u8]));
        assert(u1.len() == u2.len());
        assert(u1 =~= e1.subrange(a.len() as int, (a.len() + u1.len()) as int));
        assert(u2 =~= e2.subrange(a.len() as int, (a.len() + u2.len()) as int));
        vstd::utf8::encode_utf8_decode_utf8(f1@);
        vstd::utf8::encode_utf8_decode_utf8(f2@);
    }
}

} // verus!
