use glyim::node::{HirBinOp, HirUnOp};
use glyim::normalize::{NormalizedExpr, NormalizedHirFn, NormalizedMatchArm, NormalizedPattern, NormalizedStmt};
use glyim::semantic_hash::{
    binop_name, hash_normalized_expr, hash_normalized_fn, unop_name, write_normalized_expr, write_normalized_pattern,
    write_normalized_stmt, SemanticHash,
};
use glyim::types::HirType;

#[test]
fn hash_of_empty_input_is_the_sha256_of_nothing() {
    let h = SemanticHash::of(&[]);
    assert_eq!(h.to_hex(), "e3b0c44298fc1c149afbf4c8996fb92427ae41e4649b934ca495991b7852b855");
    assert_eq!(h.as_bytes().len(), 32);
}

#[test]
fn hash_of_abc() {
    let h = SemanticHash::of(b"abc");
    assert_eq!(h.to_hex(), "ba7816bf8f01cfea414140de5dae2223b00361a396177a9cb410ff61f20015ad");
    assert_ne!(SemanticHash::of(b"abd"), h);
}

#[test]
fn zero_hash_is_all_zero_bytes() {
    assert_eq!(SemanticHash::zero().as_bytes(), &[0u8; 32]);
    assert_eq!(SemanticHash::zero().to_hex(), "0".repeat(64));
}

#[test]
fn combine_hashes_the_tagged_concatenation() {
    let a = SemanticHash::of(b"a");
    let b = SemanticHash::of(b"b");
    let mut data = b"combine:".to_vec();
    data.extend_from_slice(a.as_bytes());
    data.extend_from_slice(b.as_bytes());
    assert_eq!(SemanticHash::combine(a, b), SemanticHash::of(&data));
    assert_ne!(SemanticHash::combine(a, b), SemanticHash::combine(b, a));
}

#[test]
fn operator_names_are_their_debug_text() {
    for op in [
        HirBinOp::Add, HirBinOp::Sub, HirBinOp::Mul, HirBinOp::Div, HirBinOp::Mod, HirBinOp::Eq, HirBinOp::Neq,
        HirBinOp::Lt, HirBinOp::Gt, HirBinOp::Lte, HirBinOp::Gte, HirBinOp::And, HirBinOp::Or,
    ] {
        assert_eq!(binop_name(op), format!("{:?}", op));
    }
    for op in [HirUnOp::Neg, HirUnOp::Not] {
        assert_eq!(unop_name(op), format!("{:?}", op));
    }
}

#[test]
fn expression_encoding_bytes() {
    let mut buf = Vec::new();
    write_normalized_expr(&mut buf, &NormalizedExpr::IntLit(-1));
    assert_eq!(buf, vec![0x01, 0xff, 0xff, 0xff, 0xff, 0xff, 0xff, 0xff, 0xff]);

    let mut buf = Vec::new();
    write_normalized_expr(
        &mut buf,
        &NormalizedExpr::Binary {
            op: HirBinOp::Add,
            lhs: Box::new(NormalizedExpr::Local(1)),
            rhs: Box::new(NormalizedExpr::BoolLit(true)),
        },
    );
    assert_eq!(buf, vec![0x08, b'A', b'd', b'd', 0, 0x06, 1, 0, 0, 0, 0x03, 1]);

    let mut buf = Vec::new();
    write_normalized_expr(&mut buf, &NormalizedExpr::Name("hé".to_string()));
    assert_eq!(buf, vec![0x07, 3, 0, 0, 0, 0, 0, 0, 0, b'h', 0xc3, 0xa9]);

    let mut buf = Vec::new();
    write_normalized_expr(&mut buf, &NormalizedExpr::SizeOf { target_type: HirType::Int });
    assert_eq!(buf, vec![0x17, b'I', b'n', b't', 0]);
}

#[test]
fn statement_and_pattern_encoding_bytes() {
    let mut buf = Vec::new();
    write_normalized_stmt(&mut buf, &NormalizedStmt::Let { local_id: 2, mutable: true, value: NormalizedExpr::UnitLit });
    assert_eq!(buf, vec![0x01, 2, 0, 0, 0, 1, 0x05]);

    let mut buf = Vec::new();
    write_normalized_pattern(
        &mut buf,
        &NormalizedPattern::Tuple { elements: vec![NormalizedPattern::Wild, NormalizedPattern::OptionNone] },
    );
    assert_eq!(buf, vec![0x0A, 2, 0, 0, 0, 0, 0, 0, 0, 0x01, 0x0C]);

    let arm = NormalizedMatchArm { pattern: NormalizedPattern::Unit, guard: None, body: NormalizedExpr::UnitLit };
    let mut buf = Vec::new();
    write_normalized_expr(
        &mut buf,
        &NormalizedExpr::Match { scrutinee: Box::new(NormalizedExpr::UnitLit), arms: vec![arm] },
    );
    assert_eq!(buf, vec![0x0F, 0x05, 1, 0, 0, 0, 0, 0, 0, 0, 0x06, 0, 0x05]);
}

#[test]
fn expression_hash_is_the_digest_of_its_encoding() {
    let e = NormalizedExpr::Call { callee: "f".to_string(), args: vec![NormalizedExpr::IntLit(7)] };
    let mut buf = Vec::new();
    write_normalized_expr(&mut buf, &e);
    assert_eq!(hash_normalized_expr(&e), SemanticHash::of(&buf));
    assert_ne!(hash_normalized_expr(&e), hash_normalized_expr(&NormalizedExpr::IntLit(7)));
}

#[test]
fn function_hash_covers_signature_and_body() {
    let f = NormalizedHirFn {
        name: "id".to_string(),
        type_params: vec!["T".to_string()],
        params: vec![("_p0".to_string(), HirType::Int)],
        param_mutability: vec![false],
        ret: Some(HirType::Bool),
        body: NormalizedExpr::Local(0),
        is_pub: true,
        is_extern_backed: false,
    };
    let mut data = b"fn:id\0T,\0_p0:Int,\0Bool\0".to_vec();
    data.push(1);
    data.push(0);
    data.extend_from_slice(hash_normalized_expr(&NormalizedExpr::Local(0)).as_bytes());
    assert_eq!(hash_normalized_fn(&f), SemanticHash::of(&data));
}
