use glyim::certificate::{count_nodes, InvariantCertificate};
use glyim::node::{HirExpr, HirFn};
use glyim::semantic_hash::SemanticHash;
use glyim::symbol::Interner;
use glyim::types::{ExprId, HirType, Span};

fn fn_with(name: glyim::symbol::Symbol, params: Vec<(glyim::symbol::Symbol, HirType)>, body: HirExpr) -> HirFn {
    let n = params.len();
    HirFn {
        doc: None,
        name,
        type_params: vec![],
        params,
        param_mutability: vec![false; n],
        ret: Some(HirType::Int),
        body,
        span: Span::new(0, 0),
        is_pub: false,
        is_macro_generated: false,
        is_extern_backed: false,
    }
}

#[test]
fn certificate_deterministic() {
    let mut interner = Interner::new();
    let name = interner.intern("add");
    let x = interner.intern("x");
    let y = interner.intern("y");
    let hir_fn = fn_with(
        name,
        vec![(x, HirType::Int), (y, HirType::Int)],
        HirExpr::IntLit { id: ExprId::new(0), value: 42, span: Span::new(0, 0) },
    );
    let types = vec![HirType::Int];
    let cert1 = InvariantCertificate::compute(&hir_fn, &interner, &types);
    let cert2 = InvariantCertificate::compute(&hir_fn, &interner, &types);
    assert_eq!(cert1, cert2);
}

#[test]
fn certificate_different_functions_different_hash() {
    let mut interner = Interner::new();
    let a = interner.intern("a");
    let x = interner.intern("x");
    let b = interner.intern("b");
    let fn_a = fn_with(a, vec![(x, HirType::Int)], HirExpr::IntLit { id: ExprId::new(0), value: 1, span: Span::new(0, 0) });
    let fn_b = fn_with(b, vec![(x, HirType::Int)], HirExpr::IntLit { id: ExprId::new(0), value: 2, span: Span::new(0, 0) });
    let types = vec![HirType::Int];
    let cert_a = InvariantCertificate::compute(&fn_a, &interner, &types);
    let cert_b = InvariantCertificate::compute(&fn_b, &interner, &types);
    assert_ne!(cert_a.signature_hash, cert_b.signature_hash);
}

#[test]
fn certificate_content_hash_is_deterministic() {
    let mut interner = Interner::new();
    let name = interner.intern("hash_test");
    let x = interner.intern("x");
    let hir_fn = fn_with(name, vec![(x, HirType::Int)], HirExpr::IntLit { id: ExprId::new(0), value: 42, span: Span::new(0, 0) });
    let cert = InvariantCertificate::compute(&hir_fn, &interner, &[]);
    let h1 = cert.content_hash();
    let h2 = cert.content_hash();
    assert_eq!(h1, h2);
}

#[test]
fn certificate_fields_follow_the_function() {
    let mut interner = Interner::new();
    let name = interner.intern("main");
    let callee = interner.intern("helper");
    let x = interner.intern("x");
    let body = HirExpr::Call { id: ExprId::new(3), callee, args: vec![], span: Span::new(1, 2) };
    let hir_fn = fn_with(name, vec![(x, HirType::Bool)], body);
    let cert = InvariantCertificate::compute(&hir_fn, &interner, &[]);

    let mut sig = b"main".to_vec();
    sig.extend_from_slice(format!("{:?}", HirType::Bool).as_bytes());
    sig.extend_from_slice(format!("{:?}", HirType::Int).as_bytes());
    assert_eq!(&cert.signature_hash, SemanticHash::of(&sig).as_bytes());
    assert_eq!(cert.callees, vec!["helper".to_string()]);
    assert_eq!(cert.complexity, 1);
    assert_eq!(cert.ir_size, 1);
    assert!(!cert.is_pure && !cert.may_panic && !cert.may_allocate);
    assert_eq!(cert.rule_set_version, InvariantCertificate::RULE_SET_VERSION);
    assert_eq!(&cert.canonical_form_hash, SemanticHash::of(format!("{:?}", hir_fn.body).as_bytes()).as_bytes());
    assert_eq!(count_nodes(&hir_fn.body), 1);
}

#[test]
fn content_hash_covers_every_field() {
    let cert = InvariantCertificate {
        signature_hash: [7u8; 32],
        is_pure: true,
        may_panic: false,
        may_allocate: true,
        complexity: 3,
        ir_size: 4,
        callees: vec!["f".to_string(), "gh".to_string()],
        canonical_form_hash: [9u8; 32],
        rule_set_version: 1,
    };
    let mut data = vec![7u8; 32];
    data.extend_from_slice(&[1, 0, 1]);
    data.extend_from_slice(&3u32.to_le_bytes());
    data.extend_from_slice(&4u32.to_le_bytes());
    data.extend_from_slice(&[9u8; 32]);
    data.extend_from_slice(&1u32.to_le_bytes());
    data.extend_from_slice(b"fgh");
    assert_eq!(&cert.content_hash(), SemanticHash::of(&data).as_bytes());
}
