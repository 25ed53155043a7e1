use std::cmp::Ordering;

use glyim::item::{EnumDef, ExternBlock, ExternFn, HirImplDef, HirItem, HirVariant, StructDef, StructField};
use glyim::node::{HirBinOp, HirExpr, HirFn, HirStmt, HirUnOp, MatchArm};
use glyim::normal_order::{order_expr, order_pattern, order_stmt, order_str, order_type, Order};
use glyim::normalize::{
    decimal, NormalizedExpr, NormalizedHirFn, NormalizedPattern, NormalizedStmt, SemanticNormalizer,
};
use glyim::semantic_hash::{semantic_hash_fn, semantic_hash_item, SemanticHash};
use glyim::symbol::{Interner, Symbol};
use glyim::types::{ExprId, HirPattern, HirType, Span};

fn sp() -> Span {
    Span::new(0, 0)
}

fn id(n: u32) -> ExprId {
    ExprId::new(n)
}

fn ident(name: Symbol) -> HirExpr {
    HirExpr::Ident { id: id(0), name, span: sp() }
}

fn int_lit(value: i64) -> HirExpr {
    HirExpr::IntLit { id: id(0), value, span: sp() }
}

fn bin(op: HirBinOp, lhs: HirExpr, rhs: HirExpr) -> HirExpr {
    HirExpr::Binary { id: id(0), op, lhs: Box::new(lhs), rhs: Box::new(rhs), span: sp() }
}

fn not(e: HirExpr) -> HirExpr {
    HirExpr::Unary { id: id(0), op: HirUnOp::Not, operand: Box::new(e), span: sp() }
}

fn block(stmts: Vec<HirStmt>) -> HirExpr {
    HirExpr::Block { id: id(0), stmts, span: sp() }
}

fn let_(name: Symbol, value: HirExpr) -> HirStmt {
    HirStmt::Let { name, mutable: false, value, span: sp() }
}

fn function(name: Symbol, params: Vec<(Symbol, HirType)>, body: HirExpr) -> HirFn {
    let n = params.len();
    HirFn {
        doc: None,
        name,
        type_params: vec![],
        params,
        param_mutability: vec![false; n],
        ret: Some(HirType::Int),
        body,
        span: sp(),
        is_pub: true,
        is_macro_generated: false,
        is_extern_backed: false,
    }
}

/// `fn f(p, q) -> i64 { let r = p + q; r }` with the given local names.
fn add_fn(interner: &mut Interner, p: &str, q: &str, r: &str) -> HirFn {
    let f = interner.intern("f");
    let p = interner.intern(p);
    let q = interner.intern(q);
    let r = interner.intern(r);
    let body = block(vec![let_(r, bin(HirBinOp::Add, ident(p), ident(q))), HirStmt::Expr(ident(r))]);
    function(f, vec![(p, HirType::Int), (q, HirType::Int)], body)
}

#[test]
fn locals_are_numbered_in_binding_order() {
    let mut interner = Interner::new();
    let f = add_fn(&mut interner, "a", "b", "c");
    let norm = NormalizedHirFn::from_hir_fn(&f, &interner);

    assert_eq!(norm.name, "f");
    assert_eq!(norm.params, vec![("_p0".to_string(), HirType::Int), ("_p1".to_string(), HirType::Int)]);
    assert_eq!(norm.ret, Some(HirType::Int));
    assert!(norm.is_pub);
    assert_eq!(
        norm.body,
        NormalizedExpr::Block {
            stmts: vec![
                NormalizedStmt::Let {
                    local_id: 2,
                    mutable: false,
                    value: NormalizedExpr::Binary {
                        op: HirBinOp::Add,
                        lhs: Box::new(NormalizedExpr::Local(0)),
                        rhs: Box::new(NormalizedExpr::Local(1)),
                    },
                },
                NormalizedStmt::Expr(NormalizedExpr::Local(2)),
            ],
        }
    );
}

#[test]
fn functions_differing_in_local_names_hash_alike() {
    let mut interner = Interner::new();
    let f1 = add_fn(&mut interner, "a", "b", "c");
    let f2 = add_fn(&mut interner, "x", "y", "z");
    assert_eq!(semantic_hash_fn(&f1, &interner), semantic_hash_fn(&f2, &interner));
    assert_eq!(
        semantic_hash_item(&HirItem::Fn(f1), &interner),
        semantic_hash_item(&HirItem::Fn(f2), &interner)
    );
}

#[test]
fn different_bodies_hash_differently() {
    let mut interner = Interner::new();
    let f1 = add_fn(&mut interner, "a", "b", "c");
    let g = interner.intern("f");
    let a = interner.intern("a");
    let b = interner.intern("b");
    let f2 = function(g, vec![(a, HirType::Int), (b, HirType::Int)], bin(HirBinOp::Sub, ident(a), ident(b)));
    assert_ne!(semantic_hash_fn(&f1, &interner), semantic_hash_fn(&f2, &interner));
}

#[test]
fn commutative_operands_are_ordered() {
    let interner = Interner::new();
    let mut n = SemanticNormalizer::new(&interner);
    let sum = n.normalize_expr(&bin(HirBinOp::Add, int_lit(2), int_lit(1)));
    assert_eq!(
        sum,
        NormalizedExpr::Binary {
            op: HirBinOp::Add,
            lhs: Box::new(NormalizedExpr::IntLit(1)),
            rhs: Box::new(NormalizedExpr::IntLit(2)),
        }
    );
    let swapped = n.normalize_expr(&bin(HirBinOp::Add, int_lit(1), int_lit(2)));
    assert_eq!(sum, swapped);

    let diff = n.normalize_expr(&bin(HirBinOp::Sub, int_lit(2), int_lit(1)));
    assert_eq!(
        diff,
        NormalizedExpr::Binary {
            op: HirBinOp::Sub,
            lhs: Box::new(NormalizedExpr::IntLit(2)),
            rhs: Box::new(NormalizedExpr::IntLit(1)),
        }
    );
}

#[test]
fn commutative_swap_keeps_the_hash() {
    let mut interner = Interner::new();
    let f = interner.intern("f");
    let a = interner.intern("a");
    let b = interner.intern("b");
    let params = vec![(a, HirType::Int), (b, HirType::Int)];
    let f1 = function(f, params.clone(), bin(HirBinOp::Mul, ident(a), ident(b)));
    let f2 = function(f, params, bin(HirBinOp::Mul, ident(b), ident(a)));
    assert_eq!(semantic_hash_fn(&f1, &interner), semantic_hash_fn(&f2, &interner));
}

#[test]
fn double_negation_vanishes() {
    let mut interner = Interner::new();
    let x = interner.intern("x");
    let mut n = SemanticNormalizer::new(&interner);
    n.register_param(x);
    assert_eq!(n.normalize_expr(&not(not(ident(x)))), NormalizedExpr::Local(0));
    assert_eq!(
        n.normalize_expr(&not(not(not(ident(x))))),
        NormalizedExpr::Unary { op: HirUnOp::Not, operand: Box::new(NormalizedExpr::Local(0)) }
    );
}

#[test]
fn free_names_are_spelled_out() {
    let mut interner = Interner::new();
    let g = interner.intern("global");
    let callee = interner.intern("print_all");
    let mut n = SemanticNormalizer::new(&interner);
    let e = HirExpr::Call { id: id(0), callee, args: vec![ident(g)], span: sp() };
    assert_eq!(
        n.normalize_expr(&e),
        NormalizedExpr::Call { callee: "print_all".to_string(), args: vec![NormalizedExpr::Name("global".to_string())] }
    );
    let unknown = HirExpr::FieldAccess { id: id(0), object: Box::new(int_lit(1)), field: Symbol(99), span: sp() };
    assert_eq!(
        n.normalize_expr(&unknown),
        NormalizedExpr::FieldAccess { object: Box::new(NormalizedExpr::IntLit(1)), field: "<unknown>".to_string() }
    );
}

#[test]
fn let_pattern_stands_for_its_first_variable() {
    let mut interner = Interner::new();
    let a = interner.intern("a");
    let b = interner.intern("b");
    let mut n = SemanticNormalizer::new(&interner);
    let stmt = HirStmt::LetPat {
        pattern: HirPattern::Tuple { elements: vec![HirPattern::Var(a), HirPattern::Var(b)], span: sp() },
        mutable: true,
        value: ident(a),
        ty: None,
        span: sp(),
    };
    assert_eq!(
        n.normalize_stmt(&stmt),
        NormalizedStmt::Let { local_id: 0, mutable: true, value: NormalizedExpr::Local(0) }
    );
    let assign = HirStmt::Assign { target: b, value: int_lit(3), span: sp() };
    assert_eq!(n.normalize_stmt(&assign), NormalizedStmt::Assign { local_id: 1, value: NormalizedExpr::IntLit(3) });
}

#[test]
fn match_arm_patterns_bind_new_variables() {
    let mut interner = Interner::new();
    let x = interner.intern("x");
    let v = interner.intern("v");
    let mut n = SemanticNormalizer::new(&interner);
    n.register_param(x);
    let arms = vec![
        MatchArm { pattern: HirPattern::OptionSome(Box::new(HirPattern::Var(v))), guard: None, body: ident(v) },
        MatchArm { pattern: HirPattern::Var(x), guard: Some(ident(x)), body: int_lit(0) },
    ];
    let e = HirExpr::Match { id: id(0), scrutinee: Box::new(ident(x)), arms, span: sp() };
    match n.normalize_expr(&e) {
        NormalizedExpr::Match { scrutinee, arms } => {
            assert_eq!(*scrutinee, NormalizedExpr::Local(0));
            assert_eq!(arms[0].pattern, NormalizedPattern::OptionSome(Box::new(NormalizedPattern::Local(1))));
            assert_eq!(arms[0].body, NormalizedExpr::Local(1));
            assert_eq!(arms[1].pattern, NormalizedPattern::Local(0));
            assert_eq!(arms[1].guard, Some(NormalizedExpr::Local(0)));
        }
        other => panic!("expected a match, got {:?}", other),
    }
}

#[test]
fn decimal_text() {
    assert_eq!(decimal(0), "0");
    assert_eq!(decimal(7), "7");
    assert_eq!(decimal(1234), "1234");
    assert_eq!(decimal(u64::MAX), u64::MAX.to_string());
}

fn derived(o: Ordering) -> Order {
    match o {
        Ordering::Less => Order::Less,
        Ordering::Equal => Order::Equal,
        Ordering::Greater => Order::Greater,
    }
}

fn sample_exprs() -> Vec<NormalizedExpr> {
    vec![
        NormalizedExpr::IntLit(-3),
        NormalizedExpr::IntLit(5),
        NormalizedExpr::FloatLit(7),
        NormalizedExpr::BoolLit(false),
        NormalizedExpr::BoolLit(true),
        NormalizedExpr::StrLit("ab".to_string()),
        NormalizedExpr::StrLit("abc".to_string()),
        NormalizedExpr::StrLit("é".to_string()),
        NormalizedExpr::UnitLit,
        NormalizedExpr::Local(0),
        NormalizedExpr::Local(4),
        NormalizedExpr::Name("z".to_string()),
        NormalizedExpr::Binary {
            op: HirBinOp::Add,
            lhs: Box::new(NormalizedExpr::Local(0)),
            rhs: Box::new(NormalizedExpr::IntLit(1)),
        },
        NormalizedExpr::Binary {
            op: HirBinOp::Or,
            lhs: Box::new(NormalizedExpr::Local(0)),
            rhs: Box::new(NormalizedExpr::IntLit(1)),
        },
        NormalizedExpr::Unary { op: HirUnOp::Neg, operand: Box::new(NormalizedExpr::Local(1)) },
        NormalizedExpr::Block { stmts: vec![] },
        NormalizedExpr::Block {
            stmts: vec![NormalizedStmt::Let { local_id: 1, mutable: true, value: NormalizedExpr::UnitLit }],
        },
        NormalizedExpr::Call { callee: "f".to_string(), args: vec![NormalizedExpr::IntLit(1)] },
        NormalizedExpr::Call { callee: "f".to_string(), args: vec![NormalizedExpr::IntLit(1), NormalizedExpr::UnitLit] },
        NormalizedExpr::MethodCall {
            receiver: Box::new(NormalizedExpr::Local(0)),
            method_name: "len".to_string(),
            resolved_callee: None,
            args: vec![],
        },
        NormalizedExpr::MethodCall {
            receiver: Box::new(NormalizedExpr::Local(0)),
            method_name: "len".to_string(),
            resolved_callee: Some("Vec_len".to_string()),
            args: vec![],
        },
        NormalizedExpr::Return { value: None },
        NormalizedExpr::Return { value: Some(Box::new(NormalizedExpr::Local(2))) },
        NormalizedExpr::As { expr: Box::new(NormalizedExpr::Local(0)), target_type: HirType::Bool },
        NormalizedExpr::As {
            expr: Box::new(NormalizedExpr::Local(0)),
            target_type: HirType::Generic(Symbol(2), vec![HirType::Int]),
        },
        NormalizedExpr::SizeOf { target_type: HirType::Tuple(vec![HirType::Int, HirType::Str]) },
        NormalizedExpr::ForIn {
            pattern: NormalizedPattern::Tuple { elements: vec![NormalizedPattern::Local(1)] },
            iter: Box::new(NormalizedExpr::Local(0)),
            body: Box::new(NormalizedExpr::UnitLit),
        },
        NormalizedExpr::StructLit {
            struct_name: "P".to_string(),
            fields: vec![("x".to_string(), NormalizedExpr::IntLit(1))],
        },
        NormalizedExpr::Println { arg: Box::new(NormalizedExpr::StrLit(String::new())) },
    ]
}

#[test]
fn expression_order_agrees_with_the_derived_order() {
    let xs = sample_exprs();
    for a in &xs {
        for b in &xs {
            assert_eq!(order_expr(a, b), derived(a.cmp(b)), "{:?} vs {:?}", a, b);
        }
    }
}

#[test]
fn type_pattern_statement_and_string_orders_agree_with_the_derived_order() {
    let types = vec![
        HirType::Int,
        HirType::Named(Symbol(1)),
        HirType::Named(Symbol(2)),
        HirType::Generic(Symbol(1), vec![]),
        HirType::Generic(Symbol(1), vec![HirType::Bool]),
        HirType::RawPtr(Box::new(HirType::Int)),
        HirType::Result(Box::new(HirType::Int), Box::new(HirType::Str)),
        HirType::Func(vec![HirType::Int], Box::new(HirType::Unit)),
    ];
    for a in &types {
        for b in &types {
            assert_eq!(order_type(a, b), derived(a.cmp(b)));
        }
    }
    let pats = vec![
        NormalizedPattern::Wild,
        NormalizedPattern::IntLit(3),
        NormalizedPattern::Local(1),
        NormalizedPattern::Struct { name: "S".to_string(), bindings: vec![("a".to_string(), NormalizedPattern::Wild)] },
        NormalizedPattern::OptionSome(Box::new(NormalizedPattern::Unit)),
        NormalizedPattern::OptionNone,
    ];
    for a in &pats {
        for b in &pats {
            assert_eq!(order_pattern(a, b), derived(a.cmp(b)));
        }
    }
    let stmts = vec![
        NormalizedStmt::Let { local_id: 0, mutable: false, value: NormalizedExpr::UnitLit },
        NormalizedStmt::Let { local_id: 0, mutable: true, value: NormalizedExpr::UnitLit },
        NormalizedStmt::Assign { local_id: 0, value: NormalizedExpr::UnitLit },
        NormalizedStmt::Expr(NormalizedExpr::IntLit(1)),
    ];
    for a in &stmts {
        for b in &stmts {
            assert_eq!(order_stmt(a, b), derived(a.cmp(b)));
        }
    }
    for (a, b) in [("", "a"), ("b", "a"), ("ab", "ab"), ("z", "é"), ("abc", "abd")] {
        assert_eq!(order_str(a, b), derived(a.cmp(b)));
    }
}

#[test]
fn struct_hash_covers_name_type_params_and_fields() {
    let mut interner = Interner::new();
    let point = interner.intern("Point");
    let t = interner.intern("T");
    let x = interner.intern("x");
    let s = StructDef {
        doc: None,
        name: point,
        type_params: vec![t],
        fields: vec![StructField { name: x, ty: HirType::Int, doc: None }],
        span: sp(),
        is_pub: true,
    };
    let mut data = b"struct:Point\0T,\0x:".to_vec();
    data.extend_from_slice(format!("{:?}", HirType::Int).as_bytes());
    data.push(0);
    assert_eq!(semantic_hash_item(&HirItem::Struct(s), &interner), SemanticHash::of(&data));
}

#[test]
fn enum_extern_and_impl_hashes() {
    let mut interner = Interner::new();
    let color = interner.intern("Color");
    let red = interner.intern("Red");
    let e = EnumDef {
        doc: None,
        name: color,
        type_params: vec![],
        variants: vec![HirVariant { name: red, fields: vec![], tag: 1, doc: None }],
        span: sp(),
        is_pub: false,
    };
    let mut data = b"enum:Color\0Red:".to_vec();
    data.extend_from_slice(&1u32.to_le_bytes());
    data.push(0);
    assert_eq!(semantic_hash_item(&HirItem::Enum(e), &interner), SemanticHash::of(&data));

    let puts = interner.intern("puts");
    let ext = ExternBlock {
        doc: None,
        functions: vec![ExternFn { name: puts, params: vec![HirType::Str], ret: HirType::Int }],
        span: sp(),
    };
    assert_eq!(semantic_hash_item(&HirItem::Extern(ext), &interner), SemanticHash::of(b"extern:puts\0"));

    let method = add_fn(&mut interner, "a", "b", "c");
    let method_hash = semantic_hash_fn(&method, &interner);
    let target = interner.intern("Vec");
    let imp = HirImplDef { doc: None, target_name: target, type_params: vec![], methods: vec![method], span: sp(), is_pub: false };
    let expected = SemanticHash::combine(SemanticHash::of(b"Vec"), method_hash);
    assert_eq!(semantic_hash_item(&HirItem::Impl(imp), &interner), expected);
}
