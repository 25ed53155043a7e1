use vstd::prelude::*;
use vstd::string::StrSliceExecFns;
use vstd::string::StringExecFns;
use vstd::utf8::encode_utf8;
use crate::semantic_hash::push_bytes;
use crate::node::{HirBinOp, HirExpr, HirStmt, HirUnOp, MatchArm};
use crate::semantic_hash::{binop_name, binop_text, unop_name, unop_text};
use crate::symbol::Symbol;
use crate::types::{ExprId, HirPattern, HirType, Span};

verus! {

broadcast use vstd::std_specs::vec::group_vec_axioms;

/// The UTF-8 bytes of a string.
pub open spec fn text(s: Seq<char>) -> Seq<u8> {
    encode_utf8(s)
}

/// The decimal digits of `x`, as ASCII bytes.
pub open spec fn decimal(x: nat) -> Seq<u8>
    decreases x,
{
    if x < 10 {
        seq![(x + 48) as u8]
    } else {
        decimal(x / 10) + seq![((x % 10) + 48) as u8]
    }
}

/// The `Debug` text of a symbol: `Symbol(n)`.
pub open spec fn symbol_text(s: Symbol) -> Seq<u8> {
    text("Symbol("@) + decimal(s.0 as nat) + text(")"@)
}

/// The `Debug` text of a type, as `#[derive(Debug)]` prints it: the variant's name,
/// then its fields in parentheses separated by `, `; lists in square brackets.
pub open spec fn type_debug_text(t: HirType) -> Seq<u8>
    decreases t, 0nat,
{
    match t {
        HirType::Int => text("Int"@),
        HirType::Bool => text("Bool"@),
        HirType::Float => text("Float"@),
        HirType::Str => text("Str"@),
        HirType::Unit => text("Unit"@),
        HirType::Never => text("Never"@),
        HirType::Error => text("Error"@),
        HirType::Named(s) => text("Named("@) + symbol_text(s) + text(")"@),
        HirType::Generic(s, xs) => text("Generic("@) + symbol_text(s) + text(", "@) + type_list_text(xs) + text(")"@),
        HirType::Tuple(xs) => text("Tuple("@) + type_list_text(xs) + text(")"@),
        HirType::RawPtr(x) => text("RawPtr("@) + type_debug_text(*x) + text(")"@),
        HirType::Option(x) => text("Option("@) + type_debug_text(*x) + text(")"@),
        HirType::Result(x, e) => text("Result("@) + type_debug_text(*x) + text(", "@) + type_debug_text(*e) + text(")"@),
        HirType::Func(xs, r) => text("Func("@) + type_list_text(xs) + text(", "@) + type_debug_text(*r) + text(")"@),
        HirType::Opaque(s) => text("Opaque("@) + symbol_text(s) + text(")"@),
        HirType::Param(s) => text("Param("@) + symbol_text(s) + text(")"@),
        HirType::Infer(v) => text("Infer(TypeVar("@) + decimal(v.0 as nat) + text("))"@),
    }
}

/// The `Debug` text of a list of types: `[a, b, ...]`.
pub open spec fn type_list_text(xs: Vec<HirType>) -> Seq<u8>
    decreases xs, 1nat,
{
    text("["@) + type_items_text(xs, xs@.len()) + text("]"@)
}

/// The `Debug` texts of the first `n` types of `xs`, separated by `, `.
pub open spec fn type_items_text(xs: Vec<HirType>, n: nat) -> Seq<u8>
    decreases xs, 0nat, n,
{
    if n == 0 || n > xs@.len() {
        Seq::empty()
    } else if n == 1 {
        type_debug_text(xs@[0])
    } else {
        type_items_text(xs, (n - 1) as nat) + text(", "@) + type_debug_text(xs@[n - 1])
    }
}

/// How `{:?}` writes a character inside a string literal (`char::escape_debug`).
pub uninterp spec fn char_escape(c: char) -> Seq<char>;

/// `char::escape_debug`, collected into a `String`: the escape that `{:?}` writes for
/// a character of a string literal. The contract names the result and says nothing
/// more of it.
#[verifier::external_body]
fn escape_debug_char(c: char) -> (r: String)
    ensures
        r@ == char_escape(c),
{
    c.escape_debug().to_string()
}

/// A character as it stands inside the `Debug` text of a string: escaped as
/// `char::escape_debug` does, except that a single quote stays as it is.
pub open spec fn char_text(c: char) -> Seq<u8> {
    if c == '\'' { text("'"@) } else { text(char_escape(c)) }
}

/// The first `n` characters of `s`, each as `char_text` writes it.
pub open spec fn escaped(s: Seq<char>, n: nat) -> Seq<u8>
    decreases n,
{
    if n == 0 || n > s.len() { Seq::empty() } else { escaped(s, (n - 1) as nat) + char_text(s[n - 1]) }
}

/// The `Debug` text of a string: quoted and escaped.
pub open spec fn str_text(s: Seq<char>) -> Seq<u8> {
    text("\""@) + escaped(s, s.len()) + text("\""@)
}

/// The `Debug` text of a signed integer.
pub open spec fn int_text(v: i64) -> Seq<u8> {
    if v < 0 { text("-"@) + decimal((0 - v) as nat) } else { decimal(v as nat) }
}

/// The `Debug` text of a boolean.
pub open spec fn bool_text(b: bool) -> Seq<u8> {
    if b { text("true"@) } else { text("false"@) }
}

/// `Some(..)` around a `Debug` text.
pub open spec fn some_text(inner: Seq<u8>) -> Seq<u8> {
    text("Some("@) + inner + text(")"@)
}

/// The `Debug` text of an expression id.
pub open spec fn id_text(id: ExprId) -> Seq<u8> {
    text("ExprId("@) + decimal(id.0 as nat) + text(")"@)
}

/// The `Debug` text of a span.
pub open spec fn span_text(s: Span) -> Seq<u8> {
    text("Span { start: "@) + decimal(s.start as nat) + text(", end: "@) + decimal(s.end as nat) + text(" }"@)
}

/// The opening of an expression variant's `Debug` text, up to its id.
pub open spec fn head(name: Seq<char>, id: ExprId) -> Seq<u8> {
    text(name) + text(" { id: "@) + id_text(id)
}

/// The separator before a named field.
pub open spec fn field(k: Seq<char>) -> Seq<u8> {
    text(", "@) + text(k) + text(": "@)
}

/// The closing of a variant's `Debug` text: its span.
pub open spec fn tail(s: Span) -> Seq<u8> {
    field("span"@) + span_text(s) + text(" }"@)
}

/// The `Debug` text of an optional symbol.
pub open spec fn sym_opt_text(o: Option<Symbol>) -> Seq<u8> {
    match o {
        Some(s) => some_text(symbol_text(s)),
        None => text("None"@),
    }
}

/// The `Debug` text of an optional type.
pub open spec fn type_opt_text(o: Option<HirType>) -> Seq<u8> {
    match o {
        Some(t) => some_text(type_debug_text(t)),
        None => text("None"@),
    }
}

/// The `Debug` text of a pattern, as `#[derive(Debug)]` prints it.
pub open spec fn pattern_text(p: HirPattern) -> Seq<u8>
    decreases p, 0nat,
{
    match p {
        HirPattern::Wild => text("Wild"@),
        HirPattern::BoolLit(b) => text("BoolLit("@) + bool_text(b) + text(")"@),
        HirPattern::IntLit(v) => text("IntLit("@) + int_text(v) + text(")"@),
        HirPattern::FloatLit(b) => text("FloatLit("@) + decimal(b as nat) + text(")"@),
        HirPattern::StrLit(x) => text("StrLit("@) + str_text(x@) + text(")"@),
        HirPattern::Unit => text("Unit"@),
        HirPattern::Var(x) => text("Var("@) + symbol_text(x) + text(")"@),
        HirPattern::Struct { name, bindings, span } => text("Struct { name: "@) + symbol_text(name)
            + field("bindings"@) + bindings_text(bindings) + tail(span),
        HirPattern::EnumVariant { enum_name, variant_name, bindings, span } => text("EnumVariant { enum_name: "@)
            + symbol_text(enum_name) + field("variant_name"@) + symbol_text(variant_name)
            + field("bindings"@) + bindings_text(bindings) + tail(span),
        HirPattern::Tuple { elements, span } => text("Tuple { elements: "@) + pats_text(elements) + tail(span),
        HirPattern::OptionSome(x) => text("OptionSome("@) + pattern_text(*x) + text(")"@),
        HirPattern::OptionNone => text("OptionNone"@),
        HirPattern::ResultOk(x) => text("ResultOk("@) + pattern_text(*x) + text(")"@),
        HirPattern::ResultErr(x) => text("ResultErr("@) + pattern_text(*x) + text(")"@),
    }
}

/// The `Debug` text of a list of named sub-patterns.
pub open spec fn bindings_text(xs: Vec<(Symbol, HirPattern)>) -> Seq<u8>
    decreases xs, 1nat,
{
    text("["@) + binding_items(xs, xs@.len()) + text("]"@)
}

/// The first `n` named sub-patterns, separated by `, `.
pub open spec fn binding_items(xs: Vec<(Symbol, HirPattern)>, n: nat) -> Seq<u8>
    decreases xs, 0nat, n,
{
    if n == 0 || n > xs@.len() {
        Seq::empty()
    } else {
        let item = text("("@) + symbol_text(xs@[n - 1].0) + text(", "@) + pattern_text(xs@[n - 1].1) + text(")"@);
        if n == 1 { item } else { binding_items(xs, (n - 1) as nat) + text(", "@) + item }
    }
}

/// The `Debug` text of a list of patterns.
pub open spec fn pats_text(xs: Vec<HirPattern>) -> Seq<u8>
    decreases xs, 1nat,
{
    text("["@) + pat_items(xs, xs@.len()) + text("]"@)
}

/// The first `n` patterns, separated by `, `.
pub open spec fn pat_items(xs: Vec<HirPattern>, n: nat) -> Seq<u8>
    decreases xs, 0nat, n,
{
    if n == 0 || n > xs@.len() {
        Seq::empty()
    } else if n == 1 {
        pattern_text(xs@[0])
    } else {
        pat_items(xs, (n - 1) as nat) + text(", "@) + pattern_text(xs@[n - 1])
    }
}

/// The `Debug` text of an expression, as `#[derive(Debug)]` prints it.
#[verifier::opaque]
pub open spec fn expr_text(e: HirExpr) -> Seq<u8>
    decreases e, 0nat,
{
    match e {
        HirExpr::IntLit { id, value, span } => head("IntLit"@, id) + field("value"@) + int_text(value) + tail(span),
        HirExpr::FloatLit { id, value, span } => head("FloatLit"@, id) + field("value"@) + decimal(value as nat) + tail(span),
        HirExpr::BoolLit { id, value, span } => head("BoolLit"@, id) + field("value"@) + bool_text(value) + tail(span),
        HirExpr::StrLit { id, value, span } => head("StrLit"@, id) + field("value"@) + str_text(value@) + tail(span),
        HirExpr::Ident { id, name, span } => head("Ident"@, id) + field("name"@) + symbol_text(name) + tail(span),
        HirExpr::UnitLit { id, span } => head("UnitLit"@, id) + tail(span),
        HirExpr::Binary { id, op, lhs, rhs, span } => head("Binary"@, id) + field("op"@) + text(binop_text(op))
            + field("lhs"@) + expr_text(*lhs) + field("rhs"@) + expr_text(*rhs) + tail(span),
        HirExpr::Unary { id, op, operand, span } => head("Unary"@, id) + field("op"@) + text(unop_text(op))
            + field("operand"@) + expr_text(*operand) + tail(span),
        HirExpr::Block { id, stmts, span } => head("Block"@, id) + field("stmts"@) + stmts_text(stmts) + tail(span),
        HirExpr::If { id, condition, then_branch, else_branch, span } => head("If"@, id) + field("condition"@)
            + expr_text(*condition) + field("then_branch"@) + expr_text(*then_branch)
            + field("else_branch"@) + opt_expr_text(else_branch) + tail(span),
        HirExpr::Println { id, arg, span } => head("Println"@, id) + field("arg"@) + expr_text(*arg) + tail(span),
        HirExpr::MethodCall { id, receiver, method_name, resolved_callee, args, span } => head("MethodCall"@, id)
            + field("receiver"@) + expr_text(*receiver) + field("method_name"@) + symbol_text(method_name)
            + field("resolved_callee"@) + sym_opt_text(resolved_callee) + field("args"@) + exprs_text(args) + tail(span),
        HirExpr::Call { id, callee, args, span } => head("Call"@, id) + field("callee"@) + symbol_text(callee)
            + field("args"@) + exprs_text(args) + tail(span),
        HirExpr::Assert { id, condition, message, span } => head("Assert"@, id) + field("condition"@)
            + expr_text(*condition) + field("message"@) + opt_expr_text(message) + tail(span),
        HirExpr::As { id, expr, target_type, span } => head("As"@, id) + field("expr"@) + expr_text(*expr)
            + field("target_type"@) + type_debug_text(target_type) + tail(span),
        HirExpr::Match { id, scrutinee, arms, span } => head("Match"@, id) + field("scrutinee"@) + expr_text(*scrutinee)
            + field("arms"@) + arms_text(arms) + tail(span),
        HirExpr::FieldAccess { id, object, field: f, span } => head("FieldAccess"@, id) + field("object"@)
            + expr_text(*object) + field("field"@) + symbol_text(f) + tail(span),
        HirExpr::StructLit { id, struct_name, fields, span } => head("StructLit"@, id) + field("struct_name"@)
            + symbol_text(struct_name) + field("fields"@) + fields_text(fields) + tail(span),
        HirExpr::EnumVariant { id, enum_name, variant_name, args, span } => head("EnumVariant"@, id)
            + field("enum_name"@) + symbol_text(enum_name) + field("variant_name"@) + symbol_text(variant_name)
            + field("args"@) + exprs_text(args) + tail(span),
        HirExpr::ForIn { id, pattern, iter, body, span } => head("ForIn"@, id) + field("pattern"@) + pattern_text(pattern)
            + field("iter"@) + expr_text(*iter) + field("body"@) + expr_text(*body) + tail(span),
        HirExpr::While { id, condition, body, span } => head("While"@, id) + field("condition"@) + expr_text(*condition)
            + field("body"@) + expr_text(*body) + tail(span),
        HirExpr::SizeOf { id, target_type, span } => head("SizeOf"@, id) + field("target_type"@)
            + type_debug_text(target_type) + tail(span),
        HirExpr::TupleLit { id, elements, span } => head("TupleLit"@, id) + field("elements"@) + exprs_text(elements) + tail(span),
        HirExpr::AddrOf { id, target, span } => head("AddrOf"@, id) + field("target"@) + symbol_text(target) + tail(span),
        HirExpr::Deref { id, expr, span } => head("Deref"@, id) + field("expr"@) + expr_text(*expr) + tail(span),
        HirExpr::Return { id, value, span } => head("Return"@, id) + field("value"@) + opt_expr_text(value) + tail(span),
    }
}

/// The `Debug` text of an optional boxed expression.
pub open spec fn opt_expr_text(o: Option<Box<HirExpr>>) -> Seq<u8>
    decreases o, 0nat,
{
    match o {
        Some(x) => some_text(expr_text(*x)),
        None => text("None"@),
    }
}

/// The `Debug` text of a list of expressions.
pub open spec fn exprs_text(xs: Vec<HirExpr>) -> Seq<u8>
    decreases xs, 1nat,
{
    text("["@) + expr_items(xs, xs@.len()) + text("]"@)
}

/// The first `n` expressions, separated by `, `.
pub open spec fn expr_items(xs: Vec<HirExpr>, n: nat) -> Seq<u8>
    decreases xs, 0nat, n,
{
    if n == 0 || n > xs@.len() {
        Seq::empty()
    } else if n == 1 {
        expr_text(xs@[0])
    } else {
        expr_items(xs, (n - 1) as nat) + text(", "@) + expr_text(xs@[n - 1])
    }
}

/// The `Debug` text of a list of struct literal fields.
pub open spec fn fields_text(xs: Vec<(Symbol, HirExpr)>) -> Seq<u8>
    decreases xs, 1nat,
{
    text("["@) + field_items(xs, xs@.len()) + text("]"@)
}

/// The first `n` struct literal fields, each as `(name, value)`, separated by `, `.
pub open spec fn field_items(xs: Vec<(Symbol, HirExpr)>, n: nat) -> Seq<u8>
    decreases xs, 0nat, n,
{
    if n == 0 || n > xs@.len() {
        Seq::empty()
    } else {
        let item = text("("@) + symbol_text(xs@[n - 1].0) + text(", "@) + expr_text(xs@[n - 1].1) + text(")"@);
        if n == 1 { item } else { field_items(xs, (n - 1) as nat) + text(", "@) + item }
    }
}

/// The `Debug` text of a list of statements.
pub open spec fn stmts_text(xs: Vec<HirStmt>) -> Seq<u8>
    decreases xs, 1nat,
{
    text("["@) + stmt_items(xs, xs@.len()) + text("]"@)
}

/// The first `n` statements, separated by `, `.
pub open spec fn stmt_items(xs: Vec<HirStmt>, n: nat) -> Seq<u8>
    decreases xs, 0nat, n,
{
    if n == 0 || n > xs@.len() {
        Seq::empty()
    } else if n == 1 {
        stmt_text(xs@[0])
    } else {
        stmt_items(xs, (n - 1) as nat) + text(", "@) + stmt_text(xs@[n - 1])
    }
}

/// The `Debug` text of a list of match arms.
pub open spec fn arms_text(xs: Vec<MatchArm>) -> Seq<u8>
    decreases xs, 1nat,
{
    text("["@) + arm_items(xs, xs@.len()) + text("]"@)
}

/// The first `n` match arms, separated by `, `.
pub open spec fn arm_items(xs: Vec<MatchArm>, n: nat) -> Seq<u8>
    decreases xs, 0nat, n,
{
    if n == 0 || n > xs@.len() {
        Seq::empty()
    } else if n == 1 {
        arm_text(xs@[0])
    } else {
        arm_items(xs, (n - 1) as nat) + text(", "@) + arm_text(xs@[n - 1])
    }
}

/// The `Debug` text of a statement.
#[verifier::opaque]
pub open spec fn stmt_text(st: HirStmt) -> Seq<u8>
    decreases st, 0nat,
{
    match st {
        HirStmt::Let { name, mutable, value, span } => text("Let { name: "@) + symbol_text(name) + field("mutable"@)
            + bool_text(mutable) + field("value"@) + expr_text(value) + tail(span),
        HirStmt::LetPat { pattern, mutable, value, ty, span } => text("LetPat { pattern: "@) + pattern_text(pattern)
            + field("mutable"@) + bool_text(mutable) + field("value"@) + expr_text(value)
            + field("ty"@) + type_opt_text(ty) + tail(span),
        HirStmt::AssignDeref { target, value, span } => text("AssignDeref { target: "@) + expr_text(*target)
            + field("value"@) + expr_text(value) + tail(span),
        HirStmt::AssignField { object, field: f, value, span } => text("AssignField { object: "@) + expr_text(*object)
            + field("field"@) + symbol_text(f) + field("value"@) + expr_text(value) + tail(span),
        HirStmt::Assign { target, value, span } => text("Assign { target: "@) + symbol_text(target)
            + field("value"@) + expr_text(value) + tail(span),
        HirStmt::Expr(x) => text("Expr("@) + expr_text(x) + text(")"@),
    }
}

/// The `Debug` text of a match arm.
pub open spec fn arm_text(a: MatchArm) -> Seq<u8>
    decreases a, 0nat,
{
    text("MatchArm { pattern: "@) + pattern_text(a.pattern) + field("guard"@)
        + match a.guard {
            Some(g) => some_text(expr_text(g)),
            None => text("None"@),
        } + field("body"@) + expr_text(a.body) + text(" }"@)
}

/// Appends a string's UTF-8 bytes.
pub fn push_text(buf: &mut Vec<u8>, s: &str)
    ensures
        final(buf)@ == old(buf)@ + text(s@),
{
    let bytes = s.as_bytes();
    push_bytes(buf, bytes);
}

/// Appends the decimal digits of `x`.
pub fn push_decimal(buf: &mut Vec<u8>, x: u64)
    ensures
        final(buf)@ == old(buf)@ + decimal(x as nat),
    decreases x,
{
    if x >= 10 {
        push_decimal(buf, x / 10);
    }
    let d: u8 = (x % 10) as u8;
    buf.push(d + 48);
    assert(buf@ =~= old(buf)@ + decimal(x as nat));
}

/// Appends the `Debug` text of a symbol.
fn push_symbol(buf: &mut Vec<u8>, s: Symbol)
    ensures
        final(buf)@ == old(buf)@ + symbol_text(s),
{
    push_text(buf, "Symbol(");
    push_decimal(buf, s.0 as u64);
    push_text(buf, ")");
    assert(buf@ =~= old(buf)@ + symbol_text(s));
}

/// Appends the `Debug` text of a type.
#[verifier::spinoff_prover]
#[verifier::rlimit(60)]
fn push_type(buf: &mut Vec<u8>, t: &HirType)
    ensures
        final(buf)@ == old(buf)@ + type_debug_text(*t),
    decreases t, 0nat,
{
    let ghost b0 = buf@;
    match t {
        HirType::Int => push_text(buf, "Int"),
        HirType::Bool => push_text(buf, "Bool"),
        HirType::Float => push_text(buf, "Float"),
        HirType::Str => push_text(buf, "Str"),
        HirType::Unit => push_text(buf, "Unit"),
        HirType::Never => push_text(buf, "Never"),
        HirType::Error => push_text(buf, "Error"),
        HirType::Named(s) => {
            push_text(buf, "Named(");
            push_symbol(buf, *s);
            push_text(buf, ")");
        },
        HirType::Generic(s, xs) => {
            proof { assert(decreases_to!(*t => (*t)->Generic_1)); }
            push_text(buf, "Generic(");
            push_symbol(buf, *s);
            push_text(buf, ", ");
            push_type_list(buf, xs);
            push_text(buf, ")");
        },
        HirType::Tuple(xs) => {
            proof { assert(decreases_to!(*t => (*t)->Tuple_0)); }
            push_text(buf, "Tuple(");
            push_type_list(buf, xs);
            push_text(buf, ")");
        },
        HirType::RawPtr(x) => {
            push_text(buf, "RawPtr(");
            push_type(buf, x);
            push_text(buf, ")");
        },
        HirType::Option(x) => {
            push_text(buf, "Option(");
            push_type(buf, x);
            push_text(buf, ")");
        },
        HirType::Result(x, e) => {
            push_text(buf, "Result(");
            push_type(buf, x);
            push_text(buf, ", ");
            push_type(buf, e);
            push_text(buf, ")");
        },
        HirType::Func(xs, r) => {
            proof { assert(decreases_to!(*t => (*t)->Func_0)); }
            push_text(buf, "Func(");
            push_type_list(buf, xs);
            push_text(buf, ", ");
            push_type(buf, r);
            push_text(buf, ")");
        },
        HirType::Opaque(s) => {
            push_text(buf, "Opaque(");
            push_symbol(buf, *s);
            push_text(buf, ")");
        },
        HirType::Param(s) => {
            push_text(buf, "Param(");
            push_symbol(buf, *s);
            push_text(buf, ")");
        },
        HirType::Infer(v) => {
            push_text(buf, "Infer(TypeVar(");
            push_decimal(buf, v.0 as u64);
            push_text(buf, "))");
        },
    }
    assert(buf@ =~= b0 + type_debug_text(*t));
}

/// Appends the `Debug` text of a list of types.
fn push_type_list(buf: &mut Vec<u8>, xs: &Vec<HirType>)
    ensures
        final(buf)@ == old(buf)@ + type_list_text(*xs),
    decreases xs, 1nat,
{
    let ghost b0 = buf@;
    push_text(buf, "[");
    let ghost b1 = buf@;
    let mut i: usize = 0;
    while i < xs.len()
        invariant
            0 <= i <= xs@.len(),
            buf@ == b1 + type_items_text(*xs, i as nat),
        decreases xs@.len() - i,
    {
        proof { assert(decreases_to!(*xs => xs@[i as int])); }
        if i > 0 {
            push_text(buf, ", ");
        }
        push_type(buf, &xs[i]);
        assert(buf@ =~= b1 + type_items_text(*xs, (i + 1) as nat));
        i = i + 1;
    }
    push_text(buf, "]");
    assert(buf@ =~= b0 + type_list_text(*xs));
}

/// Appends the `Debug` text of a boolean.
fn push_bool(buf: &mut Vec<u8>, b: bool)
    ensures
        final(buf)@ == old(buf)@ + bool_text(b),
{
    if b { push_text(buf, "true") } else { push_text(buf, "false") }
}

/// Appends the `Debug` text of a signed integer.
fn push_int(buf: &mut Vec<u8>, v: i64)
    ensures
        final(buf)@ == old(buf)@ + int_text(v),
{
    if v < 0 {
        push_text(buf, "-");
        let w: i128 = 0 - (v as i128);
        push_decimal(buf, w as u64);
    } else {
        push_decimal(buf, v as u64);
    }
    assert(buf@ =~= old(buf)@ + int_text(v));
}

/// Appends the `Debug` text of a string.
fn push_str_text(buf: &mut Vec<u8>, x: &str)
    ensures
        final(buf)@ == old(buf)@ + str_text(x@),
{
    let ghost b0 = buf@;
    push_text(buf, "\"");
    let ghost b1 = buf@;
    let n = x.unicode_len();
    let mut i: usize = 0;
    while i < n
        invariant
            0 <= i <= n,
            n == x@.len(),
            buf@ == b1 + escaped(x@, i as nat),
        decreases n - i,
    {
        let c = x.get_char(i);
        if c == '\'' {
            push_text(buf, "'");
        } else {
            let esc = escape_debug_char(c);
            push_text(buf, esc.as_str());
        }
        assert(buf@ =~= b1 + escaped(x@, (i + 1) as nat));
        i = i + 1;
    }
    push_text(buf, "\"");
    assert(buf@ =~= b0 + str_text(x@));
}

/// Appends the `Debug` text of an expression id.
fn push_id(buf: &mut Vec<u8>, id: ExprId)
    ensures
        final(buf)@ == old(buf)@ + id_text(id),
{
    push_text(buf, "ExprId(");
    push_decimal(buf, id.0 as u64);
    push_text(buf, ")");
    assert(buf@ =~= old(buf)@ + id_text(id));
}

/// Appends the `Debug` text of a span.
fn push_span(buf: &mut Vec<u8>, sp: Span)
    ensures
        final(buf)@ == old(buf)@ + span_text(sp),
{
    push_text(buf, "Span { start: ");
    push_decimal(buf, sp.start as u64);
    push_text(buf, ", end: ");
    push_decimal(buf, sp.end as u64);
    push_text(buf, " }");
    assert(buf@ =~= old(buf)@ + span_text(sp));
}

/// Appends the opening of an expression variant's `Debug` text.
fn push_head(buf: &mut Vec<u8>, name: &str, id: ExprId)
    ensures
        final(buf)@ == old(buf)@ + head(name@, id),
{
    push_text(buf, name);
    push_text(buf, " { id: ");
    push_id(buf, id);
    assert(buf@ =~= old(buf)@ + head(name@, id));
}

/// Appends the separator before a named field.
fn push_field(buf: &mut Vec<u8>, k: &str)
    ensures
        final(buf)@ == old(buf)@ + field(k@),
{
    push_text(buf, ", ");
    push_text(buf, k);
    push_text(buf, ": ");
    assert(buf@ =~= old(buf)@ + field(k@));
}

/// Appends the closing of a variant's `Debug` text.
fn push_tail(buf: &mut Vec<u8>, sp: Span)
    ensures
        final(buf)@ == old(buf)@ + tail(sp),
{
    push_field(buf, "span");
    push_span(buf, sp);
    push_text(buf, " }");
    assert(buf@ =~= old(buf)@ + tail(sp));
}

/// Appends the `Debug` text of an optional symbol.
fn push_sym_opt(buf: &mut Vec<u8>, o: Option<Symbol>)
    ensures
        final(buf)@ == old(buf)@ + sym_opt_text(o),
{
    match o {
        Some(x) => {
            push_text(buf, "Some(");
            push_symbol(buf, x);
            push_text(buf, ")");
        },
        None => push_text(buf, "None"),
    }
    assert(buf@ =~= old(buf)@ + sym_opt_text(o));
}

/// Appends the `Debug` text of a pattern.
#[verifier::spinoff_prover]
#[verifier::rlimit(60)]
fn push_pattern(buf: &mut Vec<u8>, p: &HirPattern)
    ensures
        final(buf)@ == old(buf)@ + pattern_text(*p),
    decreases p, 0nat,
{
    let ghost b0 = buf@;
    match p {
        HirPattern::Wild => push_text(buf, "Wild"),
        HirPattern::BoolLit(b) => {
            push_text(buf, "BoolLit(");
            push_bool(buf, *b);
            push_text(buf, ")");
        },
        HirPattern::IntLit(v) => {
            push_text(buf, "IntLit(");
            push_int(buf, *v);
            push_text(buf, ")");
        },
        HirPattern::FloatLit(v) => {
            push_text(buf, "FloatLit(");
            push_decimal(buf, *v);
            push_text(buf, ")");
        },
        HirPattern::StrLit(x) => {
            push_text(buf, "StrLit(");
            push_str_text(buf, x.as_str());
            push_text(buf, ")");
        },
        HirPattern::Unit => push_text(buf, "Unit"),
        HirPattern::Var(x) => {
            push_text(buf, "Var(");
            push_symbol(buf, *x);
            push_text(buf, ")");
        },
        HirPattern::Struct { name, bindings, span } => {
            proof { assert(decreases_to!(*p => (*p)->Struct_bindings)); }
            push_text(buf, "Struct { name: ");
            push_symbol(buf, *name);
            push_field(buf, "bindings");
            push_bindings(buf, bindings);
            push_tail(buf, *span);
        },
        HirPattern::EnumVariant { enum_name, variant_name, bindings, span } => {
            proof { assert(decreases_to!(*p => (*p)->EnumVariant_bindings)); }
            push_text(buf, "EnumVariant { enum_name: ");
            push_symbol(buf, *enum_name);
            push_field(buf, "variant_name");
            push_symbol(buf, *variant_name);
            push_field(buf, "bindings");
            push_bindings(buf, bindings);
            push_tail(buf, *span);
        },
        HirPattern::Tuple { elements, span } => {
            proof { assert(decreases_to!(*p => (*p)->Tuple_elements)); }
            push_text(buf, "Tuple { elements: ");
            push_pats(buf, elements);
            push_tail(buf, *span);
        },
        HirPattern::OptionSome(x) => {
            push_text(buf, "OptionSome(");
            push_pattern(buf, x);
            push_text(buf, ")");
        },
        HirPattern::OptionNone => push_text(buf, "OptionNone"),
        HirPattern::ResultOk(x) => {
            push_text(buf, "ResultOk(");
            push_pattern(buf, x);
            push_text(buf, ")");
        },
        HirPattern::ResultErr(x) => {
            push_text(buf, "ResultErr(");
            push_pattern(buf, x);
            push_text(buf, ")");
        },
    }
    assert(buf@ =~= b0 + pattern_text(*p));
}

/// Appends the `Debug` text of a list of named sub-patterns.
fn push_bindings(buf: &mut Vec<u8>, xs: &Vec<(Symbol, HirPattern)>)
    ensures
        final(buf)@ == old(buf)@ + bindings_text(*xs),
    decreases xs, 1nat,
{
    let ghost b0 = buf@;
    push_text(buf, "[");
    let ghost b1 = buf@;
    let mut i: usize = 0;
    while i < xs.len()
        invariant
            0 <= i <= xs@.len(),
            buf@ == b1 + binding_items(*xs, i as nat),
        decreases xs@.len() - i,
    {
        proof {
            assert(decreases_to!(*xs => xs@[i as int]));
            assert(decreases_to!(xs@[i as int] => xs@[i as int].1));
        }
        let ghost bi = buf@;
        if i > 0 {
            push_text(buf, ", ");
        }
        push_text(buf, "(");
        push_symbol(buf, xs[i].0);
        push_text(buf, ", ");
        push_pattern(buf, &xs[i].1);
        push_text(buf, ")");
        assert(buf@ =~= b1 + binding_items(*xs, (i + 1) as nat));
        i = i + 1;
    }
    push_text(buf, "]");
    assert(buf@ =~= b0 + bindings_text(*xs));
}

/// Appends the `Debug` text of a list of patterns.
fn push_pats(buf: &mut Vec<u8>, xs: &Vec<HirPattern>)
    ensures
        final(buf)@ == old(buf)@ + pats_text(*xs),
    decreases xs, 1nat,
{
    let ghost b0 = buf@;
    push_text(buf, "[");
    let ghost b1 = buf@;
    let mut i: usize = 0;
    while i < xs.len()
        invariant
            0 <= i <= xs@.len(),
            buf@ == b1 + pat_items(*xs, i as nat),
        decreases xs@.len() - i,
    {
        proof { assert(decreases_to!(*xs => xs@[i as int])); }
        if i > 0 {
            push_text(buf, ", ");
        }
        push_pattern(buf, &xs[i]);
        assert(buf@ =~= b1 + pat_items(*xs, (i + 1) as nat));
        i = i + 1;
    }
    push_text(buf, "]");
    assert(buf@ =~= b0 + pats_text(*xs));
}

/// The `Debug` text of a type, as bytes; see `type_debug_text`.
pub fn type_debug_bytes(t: &HirType) -> (r: Vec<u8>)
    ensures
        r@ == type_debug_text(*t),
{
    let mut buf: Vec<u8> = Vec::new();
    push_type(&mut buf, t);
    assert(buf@ =~= type_debug_text(*t));
    buf
}

/// Appends the `Debug` text of an expression.
fn push_expr(buf: &mut Vec<u8>, e: &HirExpr)
    ensures
        final(buf)@ == old(buf)@ + expr_text(*e),
    decreases e, 1nat,
{
    match e {
        HirExpr::IntLit { .. } | HirExpr::FloatLit { .. } | HirExpr::BoolLit { .. } | HirExpr::StrLit { .. } | HirExpr::Ident { .. } | HirExpr::UnitLit { .. } | HirExpr::AddrOf { .. } => push_expr_leaf(buf, e),
        HirExpr::Binary { .. } | HirExpr::Unary { .. } | HirExpr::Deref { .. } | HirExpr::As { .. } | HirExpr::SizeOf { .. } | HirExpr::Println { .. } | HirExpr::Return { .. } => push_expr_unary(buf, e),
        HirExpr::If { .. } | HirExpr::While { .. } | HirExpr::Assert { .. } => push_expr_control(buf, e),
        HirExpr::Block { .. } | HirExpr::Match { .. } | HirExpr::ForIn { .. } => push_expr_nested(buf, e),
        HirExpr::MethodCall { .. } | HirExpr::Call { .. } | HirExpr::FieldAccess { .. } | HirExpr::StructLit { .. } | HirExpr::EnumVariant { .. } | HirExpr::TupleLit { .. } => push_expr_compound(buf, e),
    }
}

/// Appends the `Debug` text of an expression of the leaf kinds.
#[verifier::spinoff_prover]
#[verifier::rlimit(100)]
fn push_expr_leaf(buf: &mut Vec<u8>, e: &HirExpr)
    requires
        *e is IntLit || *e is FloatLit || *e is BoolLit || *e is StrLit || *e is Ident || *e is UnitLit || *e is AddrOf,
    ensures
        final(buf)@ == old(buf)@ + expr_text(*e),
    decreases e, 0nat,
{
    let ghost b0 = buf@;
    match e {
        HirExpr::IntLit { id, value, span } => {
            push_head(buf, "IntLit", *id);
            push_field(buf, "value");
            push_int(buf, *value);
            push_tail(buf, *span);
            assert(buf@ =~= b0 + expr_text(*e)) by { reveal(expr_text); }
        },
        HirExpr::FloatLit { id, value, span } => {
            push_head(buf, "FloatLit", *id);
            push_field(buf, "value");
            push_decimal(buf, *value);
            push_tail(buf, *span);
            assert(buf@ =~= b0 + expr_text(*e)) by { reveal(expr_text); }
        },
        HirExpr::BoolLit { id, value, span } => {
            push_head(buf, "BoolLit", *id);
            push_field(buf, "value");
            push_bool(buf, *value);
            push_tail(buf, *span);
            assert(buf@ =~= b0 + expr_text(*e)) by { reveal(expr_text); }
        },
        HirExpr::StrLit { id, value, span } => {
            push_head(buf, "StrLit", *id);
            push_field(buf, "value");
            push_str_text(buf, value.as_str());
            push_tail(buf, *span);
            assert(buf@ =~= b0 + expr_text(*e)) by { reveal(expr_text); }
        },
        HirExpr::Ident { id, name, span } => {
            push_head(buf, "Ident", *id);
            push_field(buf, "name");
            push_symbol(buf, *name);
            push_tail(buf, *span);
            assert(buf@ =~= b0 + expr_text(*e)) by { reveal(expr_text); }
        },
        HirExpr::UnitLit { id, span } => {
            push_head(buf, "UnitLit", *id);
            push_tail(buf, *span);
            assert(buf@ =~= b0 + expr_text(*e)) by { reveal(expr_text); }
        },
        HirExpr::AddrOf { id, target, span } => {
            push_head(buf, "AddrOf", *id);
            push_field(buf, "target");
            push_symbol(buf, *target);
            push_tail(buf, *span);
            assert(buf@ =~= b0 + expr_text(*e)) by { reveal(expr_text); }
        },
        _ => {},
    }
}

/// Appends the `Debug` text of an expression of the unary kinds.
#[verifier::spinoff_prover]
#[verifier::rlimit(100)]
fn push_expr_unary(buf: &mut Vec<u8>, e: &HirExpr)
    requires
        *e is Binary || *e is Unary || *e is Deref || *e is As || *e is SizeOf || *e is Println || *e is Return,
    ensures
        final(buf)@ == old(buf)@ + expr_text(*e),
    decreases e, 0nat,
{
    let ghost b0 = buf@;
    match e {
        HirExpr::Binary { id, op, lhs, rhs, span } => {
            push_head(buf, "Binary", *id);
            push_field(buf, "op");
            push_text(buf, binop_name(*op));
            push_field(buf, "lhs");
            push_expr(buf, lhs);
            push_field(buf, "rhs");
            push_expr(buf, rhs);
            push_tail(buf, *span);
            assert(buf@ =~= b0 + expr_text(*e)) by { reveal(expr_text); }
        },
        HirExpr::Unary { id, op, operand, span } => {
            push_head(buf, "Unary", *id);
            push_field(buf, "op");
            push_text(buf, unop_name(*op));
            push_field(buf, "operand");
            push_expr(buf, operand);
            push_tail(buf, *span);
            assert(buf@ =~= b0 + expr_text(*e)) by { reveal(expr_text); }
        },
        HirExpr::Deref { id, expr, span } => {
            push_head(buf, "Deref", *id);
            push_field(buf, "expr");
            push_expr(buf, expr);
            push_tail(buf, *span);
            assert(buf@ =~= b0 + expr_text(*e)) by { reveal(expr_text); }
        },
        HirExpr::As { id, expr, target_type, span } => {
            push_head(buf, "As", *id);
            push_field(buf, "expr");
            push_expr(buf, expr);
            push_field(buf, "target_type");
            push_type(buf, target_type);
            push_tail(buf, *span);
            assert(buf@ =~= b0 + expr_text(*e)) by { reveal(expr_text); }
        },
        HirExpr::SizeOf { id, target_type, span } => {
            push_head(buf, "SizeOf", *id);
            push_field(buf, "target_type");
            push_type(buf, target_type);
            push_tail(buf, *span);
            assert(buf@ =~= b0 + expr_text(*e)) by { reveal(expr_text); }
        },
        HirExpr::Println { id, arg, span } => {
            push_head(buf, "Println", *id);
            push_field(buf, "arg");
            push_expr(buf, arg);
            push_tail(buf, *span);
            assert(buf@ =~= b0 + expr_text(*e)) by { reveal(expr_text); }
        },
        HirExpr::Return { id, value, span } => {
            push_head(buf, "Return", *id);
            push_field(buf, "value");
            push_opt_expr(buf, value);
            push_tail(buf, *span);
            assert(buf@ =~= b0 + expr_text(*e)) by { reveal(expr_text); }
        },
        _ => {},
    }
}

/// Appends the `Debug` text of an expression of the control kinds.
#[verifier::spinoff_prover]
#[verifier::rlimit(100)]
fn push_expr_control(buf: &mut Vec<u8>, e: &HirExpr)
    requires
        *e is If || *e is While || *e is Assert,
    ensures
        final(buf)@ == old(buf)@ + expr_text(*e),
    decreases e, 0nat,
{
    let ghost b0 = buf@;
    match e {
        HirExpr::If { id, condition, then_branch, else_branch, span } => {
            push_head(buf, "If", *id);
            push_field(buf, "condition");
            push_expr(buf, condition);
            push_field(buf, "then_branch");
            push_expr(buf, then_branch);
            push_field(buf, "else_branch");
            push_opt_expr(buf, else_branch);
            push_tail(buf, *span);
            assert(buf@ =~= b0 + expr_text(*e)) by { reveal(expr_text); }
        },
        HirExpr::While { id, condition, body, span } => {
            push_head(buf, "While", *id);
            push_field(buf, "condition");
            push_expr(buf, condition);
            push_field(buf, "body");
            push_expr(buf, body);
            push_tail(buf, *span);
            assert(buf@ =~= b0 + expr_text(*e)) by { reveal(expr_text); }
        },
        HirExpr::Assert { id, condition, message, span } => {
            push_head(buf, "Assert", *id);
            push_field(buf, "condition");
            push_expr(buf, condition);
            push_field(buf, "message");
            push_opt_expr(buf, message);
            push_tail(buf, *span);
            assert(buf@ =~= b0 + expr_text(*e)) by { reveal(expr_text); }
        },
        _ => {},
    }
}

/// Appends the `Debug` text of an expression of the nested kinds.
#[verifier::spinoff_prover]
#[verifier::rlimit(100)]
fn push_expr_nested(buf: &mut Vec<u8>, e: &HirExpr)
    requires
        *e is Block || *e is Match || *e is ForIn,
    ensures
        final(buf)@ == old(buf)@ + expr_text(*e),
    decreases e, 0nat,
{
    let ghost b0 = buf@;
    match e {
        HirExpr::Block { id, stmts, span } => {
            proof { assert(decreases_to!(*e => (*e)->Block_stmts)); }
            push_head(buf, "Block", *id);
            push_field(buf, "stmts");
            push_stmts(buf, stmts);
            push_tail(buf, *span);
            assert(buf@ =~= b0 + expr_text(*e)) by { reveal(expr_text); }
        },
        HirExpr::Match { id, scrutinee, arms, span } => {
            proof { assert(decreases_to!(*e => (*e)->Match_arms)); }
            push_head(buf, "Match", *id);
            push_field(buf, "scrutinee");
            push_expr(buf, scrutinee);
            push_field(buf, "arms");
            push_arms(buf, arms);
            push_tail(buf, *span);
            assert(buf@ =~= b0 + expr_text(*e)) by { reveal(expr_text); }
        },
        HirExpr::ForIn { id, pattern, iter, body, span } => {
            push_head(buf, "ForIn", *id);
            push_field(buf, "pattern");
            push_pattern(buf, pattern);
            push_field(buf, "iter");
            push_expr(buf, iter);
            push_field(buf, "body");
            push_expr(buf, body);
            push_tail(buf, *span);
            assert(buf@ =~= b0 + expr_text(*e)) by { reveal(expr_text); }
        },
        _ => {},
    }
}

/// Appends the `Debug` text of an expression of the compound kinds.
#[verifier::spinoff_prover]
#[verifier::rlimit(100)]
fn push_expr_compound(buf: &mut Vec<u8>, e: &HirExpr)
    requires
        *e is MethodCall || *e is Call || *e is FieldAccess || *e is StructLit || *e is EnumVariant || *e is TupleLit,
    ensures
        final(buf)@ == old(buf)@ + expr_text(*e),
    decreases e, 0nat,
{
    let ghost b0 = buf@;
    match e {
        HirExpr::MethodCall { id, receiver, method_name, resolved_callee, args, span } => {
            proof { assert(decreases_to!(*e => (*e)->MethodCall_args)); }
            push_head(buf, "MethodCall", *id);
            push_field(buf, "receiver");
            push_expr(buf, receiver);
            push_field(buf, "method_name");
            push_symbol(buf, *method_name);
            push_field(buf, "resolved_callee");
            push_sym_opt(buf, *resolved_callee);
            push_field(buf, "args");
            push_exprs(buf, args);
            push_tail(buf, *span);
            assert(buf@ =~= b0 + expr_text(*e)) by { reveal(expr_text); }
        },
        HirExpr::Call { id, callee, args, span } => {
            proof { assert(decreases_to!(*e => (*e)->Call_args)); }
            push_head(buf, "Call", *id);
            push_field(buf, "callee");
            push_symbol(buf, *callee);
            push_field(buf, "args");
            push_exprs(buf, args);
            push_tail(buf, *span);
            assert(buf@ =~= b0 + expr_text(*e)) by { reveal(expr_text); }
        },
        HirExpr::FieldAccess { id, object, field: f, span } => {
            push_head(buf, "FieldAccess", *id);
            push_field(buf, "object");
            push_expr(buf, object);
            push_field(buf, "field");
            push_symbol(buf, *f);
            push_tail(buf, *span);
            assert(buf@ =~= b0 + expr_text(*e)) by { reveal(expr_text); }
        },
        HirExpr::StructLit { id, struct_name, fields, span } => {
            proof { assert(decreases_to!(*e => (*e)->StructLit_fields)); }
            push_head(buf, "StructLit", *id);
            push_field(buf, "struct_name");
            push_symbol(buf, *struct_name);
            push_field(buf, "fields");
            push_fields(buf, fields);
            push_tail(buf, *span);
            assert(buf@ =~= b0 + expr_text(*e)) by { reveal(expr_text); }
        },
        HirExpr::EnumVariant { id, enum_name, variant_name, args, span } => {
            proof { assert(decreases_to!(*e => (*e)->EnumVariant_args)); }
            push_head(buf, "EnumVariant", *id);
            push_field(buf, "enum_name");
            push_symbol(buf, *enum_name);
            push_field(buf, "variant_name");
            push_symbol(buf, *variant_name);
            push_field(buf, "args");
            push_exprs(buf, args);
            push_tail(buf, *span);
            assert(buf@ =~= b0 + expr_text(*e)) by { reveal(expr_text); }
        },
        HirExpr::TupleLit { id, elements, span } => {
            proof { assert(decreases_to!(*e => (*e)->TupleLit_elements)); }
            push_head(buf, "TupleLit", *id);
            push_field(buf, "elements");
            push_exprs(buf, elements);
            push_tail(buf, *span);
            assert(buf@ =~= b0 + expr_text(*e)) by { reveal(expr_text); }
        },
        _ => {},
    }
}

/// Appends the `Debug` text of an optional boxed expression.
#[verifier::spinoff_prover]
#[verifier::rlimit(100)]
fn push_opt_expr(buf: &mut Vec<u8>, o: &Option<Box<HirExpr>>)
    ensures
        final(buf)@ == old(buf)@ + opt_expr_text(*o),
    decreases o, 0nat,
{
    match o {
        Some(x) => {
            push_text(buf, "Some(");
            push_expr(buf, x);
            push_text(buf, ")");
        },
        None => push_text(buf, "None"),
    }
    assert(buf@ =~= old(buf)@ + opt_expr_text(*o));
}

/// Appends the `Debug` text of a list of expressions.
#[verifier::spinoff_prover]
#[verifier::rlimit(100)]
fn push_exprs(buf: &mut Vec<u8>, xs: &Vec<HirExpr>)
    ensures
        final(buf)@ == old(buf)@ + exprs_text(*xs),
    decreases xs, 1nat,
{
    let ghost b0 = buf@;
    push_text(buf, "[");
    let ghost b1 = buf@;
    let mut i: usize = 0;
    while i < xs.len()
        invariant
            0 <= i <= xs@.len(),
            buf@ == b1 + expr_items(*xs, i as nat),
        decreases xs@.len() - i,
    {
        proof { assert(decreases_to!(*xs => xs@[i as int])); }
        if i > 0 {
            push_text(buf, ", ");
        }
        push_expr(buf, &xs[i]);
        assert(buf@ =~= b1 + expr_items(*xs, (i + 1) as nat));
        i = i + 1;
    }
    push_text(buf, "]");
    assert(buf@ =~= b0 + exprs_text(*xs));
}

/// Appends the `Debug` text of a list of struct literal fields.
#[verifier::spinoff_prover]
#[verifier::rlimit(100)]
fn push_fields(buf: &mut Vec<u8>, xs: &Vec<(Symbol, HirExpr)>)
    ensures
        final(buf)@ == old(buf)@ + fields_text(*xs),
    decreases xs, 1nat,
{
    let ghost b0 = buf@;
    push_text(buf, "[");
    let ghost b1 = buf@;
    let mut i: usize = 0;
    while i < xs.len()
        invariant
            0 <= i <= xs@.len(),
            buf@ == b1 + field_items(*xs, i as nat),
        decreases xs@.len() - i,
    {
        proof {
            assert(decreases_to!(*xs => xs@[i as int]));
            assert(decreases_to!(xs@[i as int] => xs@[i as int].1));
        }
        if i > 0 {
            push_text(buf, ", ");
        }
        push_text(buf, "(");
        push_symbol(buf, xs[i].0);
        push_text(buf, ", ");
        push_expr(buf, &xs[i].1);
        push_text(buf, ")");
        assert(buf@ =~= b1 + field_items(*xs, (i + 1) as nat));
        i = i + 1;
    }
    push_text(buf, "]");
    assert(buf@ =~= b0 + fields_text(*xs));
}

/// Appends the `Debug` text of a list of statements.
#[verifier::spinoff_prover]
#[verifier::rlimit(100)]
fn push_stmts(buf: &mut Vec<u8>, xs: &Vec<HirStmt>)
    ensures
        final(buf)@ == old(buf)@ + stmts_text(*xs),
    decreases xs, 1nat,
{
    let ghost b0 = buf@;
    push_text(buf, "[");
    let ghost b1 = buf@;
    let mut i: usize = 0;
    while i < xs.len()
        invariant
            0 <= i <= xs@.len(),
            buf@ == b1 + stmt_items(*xs, i as nat),
        decreases xs@.len() - i,
    {
        proof { assert(decreases_to!(*xs => xs@[i as int])); }
        if i > 0 {
            push_text(buf, ", ");
        }
        push_stmt(buf, &xs[i]);
        assert(buf@ =~= b1 + stmt_items(*xs, (i + 1) as nat));
        i = i + 1;
    }
    push_text(buf, "]");
    assert(buf@ =~= b0 + stmts_text(*xs));
}

/// Appends the `Debug` text of a list of match arms.
#[verifier::spinoff_prover]
#[verifier::rlimit(100)]
fn push_arms(buf: &mut Vec<u8>, xs: &Vec<MatchArm>)
    ensures
        final(buf)@ == old(buf)@ + arms_text(*xs),
    decreases xs, 1nat,
{
    let ghost b0 = buf@;
    push_text(buf, "[");
    let ghost b1 = buf@;
    let mut i: usize = 0;
    while i < xs.len()
        invariant
            0 <= i <= xs@.len(),
            buf@ == b1 + arm_items(*xs, i as nat),
        decreases xs@.len() - i,
    {
        proof { assert(decreases_to!(*xs => xs@[i as int])); }
        if i > 0 {
            push_text(buf, ", ");
        }
        push_arm(buf, &xs[i]);
        assert(buf@ =~= b1 + arm_items(*xs, (i + 1) as nat));
        i = i + 1;
    }
    push_text(buf, "]");
    assert(buf@ =~= b0 + arms_text(*xs));
}

/// Appends the `Debug` text of an optional type.
fn push_type_opt(buf: &mut Vec<u8>, o: &Option<HirType>)
    ensures
        final(buf)@ == old(buf)@ + type_opt_text(*o),
{
    match o {
        Some(t) => {
            push_text(buf, "Some(");
            push_type(buf, t);
            push_text(buf, ")");
        },
        None => push_text(buf, "None"),
    }
    assert(buf@ =~= old(buf)@ + type_opt_text(*o));
}

/// Appends the `Debug` text of a statement.
#[verifier::spinoff_prover]
#[verifier::rlimit(60)]
fn push_stmt(buf: &mut Vec<u8>, st: &HirStmt)
    ensures
        final(buf)@ == old(buf)@ + stmt_text(*st),
    decreases st, 0nat,
{
    let ghost b0 = buf@;
    match st {
        HirStmt::Let { name, mutable, value, span } => {
            push_text(buf, "Let { name: ");
            push_symbol(buf, *name);
            push_field(buf, "mutable");
            push_bool(buf, *mutable);
            push_field(buf, "value");
            push_expr(buf, value);
            push_tail(buf, *span);
            assert(buf@ =~= b0 + stmt_text(*st)) by { reveal(stmt_text); }
        },
        HirStmt::LetPat { pattern, mutable, value, ty, span } => {
            push_text(buf, "LetPat { pattern: ");
            push_pattern(buf, pattern);
            push_field(buf, "mutable");
            push_bool(buf, *mutable);
            push_field(buf, "value");
            push_expr(buf, value);
            push_field(buf, "ty");
            push_type_opt(buf, ty);
            push_tail(buf, *span);
            assert(buf@ =~= b0 + stmt_text(*st)) by { reveal(stmt_text); }
        },
        HirStmt::AssignDeref { target, value, span } => {
            push_text(buf, "AssignDeref { target: ");
            push_expr(buf, target);
            push_field(buf, "value");
            push_expr(buf, value);
            push_tail(buf, *span);
            assert(buf@ =~= b0 + stmt_text(*st)) by { reveal(stmt_text); }
        },
        HirStmt::AssignField { object, field: f, value, span } => {
            push_text(buf, "AssignField { object: ");
            push_expr(buf, object);
            push_field(buf, "field");
            push_symbol(buf, *f);
            push_field(buf, "value");
            push_expr(buf, value);
            push_tail(buf, *span);
            assert(buf@ =~= b0 + stmt_text(*st)) by { reveal(stmt_text); }
        },
        HirStmt::Assign { target, value, span } => {
            push_text(buf, "Assign { target: ");
            push_symbol(buf, *target);
            push_field(buf, "value");
            push_expr(buf, value);
            push_tail(buf, *span);
            assert(buf@ =~= b0 + stmt_text(*st)) by { reveal(stmt_text); }
        },
        HirStmt::Expr(x) => {
            push_text(buf, "Expr(");
            push_expr(buf, x);
            push_text(buf, ")");
            assert(buf@ =~= b0 + stmt_text(*st)) by { reveal(stmt_text); }
        },
    }
}

/// Appends the `Debug` text of a match arm.
#[verifier::spinoff_prover]
#[verifier::rlimit(100)]
fn push_arm(buf: &mut Vec<u8>, a: &MatchArm)
    ensures
        final(buf)@ == old(buf)@ + arm_text(*a),
    decreases a, 0nat,
{
    let ghost b0 = buf@;
    push_text(buf, "MatchArm { pattern: ");
    push_pattern(buf, &a.pattern);
    push_field(buf, "guard");
    match &a.guard {
        Some(g) => {
            push_text(buf, "Some(");
            push_expr(buf, g);
            push_text(buf, ")");
        },
        None => push_text(buf, "None"),
    }
    push_field(buf, "body");
    push_expr(buf, &a.body);
    push_text(buf, " }");
    assert(buf@ =~= b0 + arm_text(*a));
}

/// The `Debug` text of an expression, as bytes; see `expr_text`.
pub fn expr_debug_bytes(e: &HirExpr) -> (r: Vec<u8>)
    ensures
        r@ == expr_text(*e),
{
    let mut buf: Vec<u8> = Vec::new();
    push_expr(&mut buf, e);
    assert(buf@ =~= expr_text(*e));
    buf
}

} // verus!
