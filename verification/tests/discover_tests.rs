use glyim::item::{EnumDef, Hir, HirItem, StructDef, StructField};
use glyim::monomorphize::call_args::CallTypeArgs;
use glyim::monomorphize::discover::{
    discover_call_specialization, discover_method_call_specialization, discover_type_specializations,
};
use glyim::monomorphize::index::MonoIndex;
use glyim::monomorphize::mangle_table::MangleTable;
use glyim::monomorphize::work::ItemKind;
use glyim::node::{HirExpr, HirFn};
use glyim::symbol::{Interner, Symbol};
use glyim::types::{ExprId, HirType, Span, TypeSubst};

/// A program with a `Vec<T>` struct and an `Option<T>` enum.
fn build_hir_with_vec(interner: &mut Interner) -> Hir {
    let vec_sym = interner.intern("Vec");
    let t_sym = interner.intern("T");
    let data = interner.intern("data");
    let opt_sym = interner.intern("Option");
    Hir {
        items: vec![
            HirItem::Struct(StructDef {
                doc: None,
                name: vec_sym,
                type_params: vec![t_sym],
                fields: vec![StructField { name: data, ty: HirType::Int, doc: None }],
                span: Span::new(0, 0),
                is_pub: false,
            }),
            HirItem::Enum(EnumDef {
                doc: None,
                name: opt_sym,
                type_params: vec![t_sym],
                variants: vec![],
                span: Span::new(0, 0),
                is_pub: false,
            }),
        ],
    }
}

fn unit_body() -> HirExpr {
    HirExpr::IntLit { id: ExprId::new(0), value: 0, span: Span::new(0, 0) }
}

fn function(name: Symbol, type_params: Vec<Symbol>, params: Vec<(Symbol, HirType)>, ret: Option<HirType>) -> HirFn {
    let n = params.len();
    HirFn {
        doc: None,
        name,
        type_params,
        params,
        param_mutability: vec![false; n],
        ret,
        body: unit_body(),
        span: Span::new(0, 0),
        is_pub: false,
        is_macro_generated: false,
        is_extern_backed: false,
    }
}

#[test]
fn discover_type_specializations_generic_struct() {
    let mut interner = Interner::new();
    let vec_sym = interner.intern("Vec");
    let hir = build_hir_with_vec(&mut interner);
    let index = MonoIndex::build(&hir);

    let ty = HirType::Generic(vec_sym, vec![HirType::Int]);
    let items = discover_type_specializations(&ty, &index, &mut interner);

    assert_eq!(items.len(), 1);
    assert_eq!(items[0].kind, ItemKind::StructSpecialize);
    assert_eq!(items[0].def_id, vec_sym);
    assert_eq!(items[0].type_args, vec![HirType::Int]);
}

#[test]
fn discover_type_specializations_unresolved_param_skipped() {
    let mut interner = Interner::new();
    let vec_sym = interner.intern("Vec");
    let t_sym = interner.intern("T");
    let hir = build_hir_with_vec(&mut interner);
    let index = MonoIndex::build(&hir);

    let ty = HirType::Generic(vec_sym, vec![HirType::Named(t_sym)]);
    let items = discover_type_specializations(&ty, &index, &mut interner);

    assert!(items.is_empty(), "Should not specialize with unresolved type param");
}

#[test]
fn discover_type_specializations_option() {
    let mut interner = Interner::new();
    let opt_sym = interner.intern("Option");
    let hir = build_hir_with_vec(&mut interner);
    let index = MonoIndex::build(&hir);

    let ty = HirType::Option(Box::new(HirType::Int));
    let items = discover_type_specializations(&ty, &index, &mut interner);

    assert_eq!(items.len(), 1);
    assert_eq!(items[0].kind, ItemKind::EnumSpecialize);
    assert_eq!(items[0].def_id, opt_sym);
}

#[test]
fn discover_type_specializations_raw_ptr_generic() {
    let mut interner = Interner::new();
    let vec_sym = interner.intern("Vec");
    let hir = build_hir_with_vec(&mut interner);
    let index = MonoIndex::build(&hir);

    let ty = HirType::RawPtr(Box::new(HirType::Generic(vec_sym, vec![HirType::Int])));
    let items = discover_type_specializations(&ty, &index, &mut interner);

    assert_eq!(items.len(), 1);
    assert_eq!(items[0].kind, ItemKind::StructSpecialize);
}

#[test]
fn discover_call_specialization_generic_fn() {
    let mut interner = Interner::new();
    let id_sym = interner.intern("id");
    let t_sym = interner.intern("T");
    let x_sym = interner.intern("x");

    let hir = Hir {
        items: vec![HirItem::Fn(function(
            id_sym,
            vec![t_sym],
            vec![(x_sym, HirType::Named(t_sym))],
            Some(HirType::Named(t_sym)),
        ))],
    };
    let index = MonoIndex::build(&hir);
    let mut mangle_table = MangleTable::new();

    let mut call_type_args = CallTypeArgs::new();
    call_type_args.insert(ExprId::new(42), vec![HirType::Int]);
    let sub = TypeSubst::new();

    let (new_callee, items) = discover_call_specialization(
        ExprId::new(42),
        id_sym,
        &call_type_args,
        &sub,
        &index,
        &mut mangle_table,
        &mut interner,
    );

    let name = interner.resolve(new_callee);
    assert!(name.contains("id"), "Callee should contain 'id', got {}", name);
    assert!(name.contains("i64"), "Callee should contain 'i64', got {}", name);

    assert_eq!(items.len(), 1);
    assert_eq!(items[0].kind, ItemKind::FnSpecialize);
    assert_eq!(items[0].def_id, id_sym);
    assert_eq!(items[0].type_args, vec![HirType::Int]);
}

#[test]
fn discover_call_specialization_non_generic_fn() {
    let mut interner = Interner::new();
    let add_sym = interner.intern("add");

    let hir = Hir { items: vec![HirItem::Fn(function(add_sym, vec![], vec![], Some(HirType::Int)))] };
    let index = MonoIndex::build(&hir);
    let mut mangle_table = MangleTable::new();

    let call_type_args = CallTypeArgs::new();
    let sub = TypeSubst::new();

    let (new_callee, items) = discover_call_specialization(
        ExprId::new(42),
        add_sym,
        &call_type_args,
        &sub,
        &index,
        &mut mangle_table,
        &mut interner,
    );

    assert_eq!(new_callee, add_sym);
    assert!(items.is_empty());
}

#[test]
fn discover_call_specialization_demangles_pre_mangled() {
    let mut interner = Interner::new();
    let mangled_callee = interner.intern("Vec_push__i64");
    let base_push = interner.intern("Vec_push");
    let t_sym = interner.intern("T");

    let hir = Hir { items: vec![HirItem::Fn(function(base_push, vec![t_sym], vec![], None))] };
    let index = MonoIndex::build(&hir);
    let mut mangle_table = MangleTable::new();

    let mut call_type_args = CallTypeArgs::new();
    call_type_args.insert(ExprId::new(42), vec![HirType::Int]);
    let sub = TypeSubst::new();

    let (_new_callee, items) = discover_call_specialization(
        ExprId::new(42),
        mangled_callee,
        &call_type_args,
        &sub,
        &index,
        &mut mangle_table,
        &mut interner,
    );

    assert_eq!(items.len(), 1, "Should discover Vec_push specialization");
    assert_eq!(items[0].def_id, base_push, "Should use demangled base name");
}

#[test]
fn discover_type_specializations_outer_before_inner() {
    let mut interner = Interner::new();
    let vec_sym = interner.intern("Vec");
    let hir = build_hir_with_vec(&mut interner);
    let opt_sym = interner.intern("Option");
    let index = MonoIndex::build(&hir);

    let inner = HirType::Option(Box::new(HirType::Bool));
    let ty = HirType::Generic(vec_sym, vec![inner.clone()]);
    let items = discover_type_specializations(&ty, &index, &mut interner);

    assert_eq!(items.len(), 2);
    assert_eq!(items[0].def_id, vec_sym);
    assert_eq!(items[0].kind, ItemKind::StructSpecialize);
    assert_eq!(items[0].type_args, vec![inner]);
    assert_eq!(items[1].def_id, opt_sym);
    assert_eq!(items[1].kind, ItemKind::EnumSpecialize);
    assert_eq!(items[1].type_args, vec![HirType::Bool]);
}

#[test]
fn discover_type_specializations_option_without_enum_interns_name() {
    let mut interner = Interner::new();
    let hir = Hir { items: vec![] };
    let index = MonoIndex::build(&hir);

    let ty = HirType::Tuple(vec![HirType::Option(Box::new(HirType::Int)), HirType::Int]);
    let items = discover_type_specializations(&ty, &index, &mut interner);

    assert!(items.is_empty());
    assert_eq!(interner.lookup("Option"), Some(Symbol(0)));
}

#[test]
fn discover_type_specializations_result_and_func() {
    let mut interner = Interner::new();
    let res_sym = interner.intern("Result");
    let t_sym = interner.intern("T");
    let e_sym = interner.intern("E");
    let hir = Hir {
        items: vec![HirItem::Enum(EnumDef {
            doc: None,
            name: res_sym,
            type_params: vec![t_sym, e_sym],
            variants: vec![],
            span: Span::new(0, 0),
            is_pub: false,
        })],
    };
    let index = MonoIndex::build(&hir);

    let resolved = HirType::Result(Box::new(HirType::Int), Box::new(HirType::Str));
    let unresolved = HirType::Result(Box::new(HirType::Named(t_sym)), Box::new(HirType::Str));
    let ty = HirType::Func(vec![unresolved], Box::new(resolved));
    let items = discover_type_specializations(&ty, &index, &mut interner);

    assert_eq!(items.len(), 1);
    assert_eq!(items[0].def_id, res_sym);
    assert_eq!(items[0].kind, ItemKind::EnumSpecialize);
    assert_eq!(items[0].type_args, vec![HirType::Int, HirType::Str]);
}

#[test]
fn discover_call_specialization_unresolved_args_keep_callee() {
    let mut interner = Interner::new();
    let id_sym = interner.intern("id");
    let t_sym = interner.intern("T");
    let hir = Hir { items: vec![HirItem::Fn(function(id_sym, vec![t_sym], vec![], None))] };
    let index = MonoIndex::build(&hir);
    let mut mangle_table = MangleTable::new();

    let mut call_type_args = CallTypeArgs::new();
    call_type_args.insert(ExprId::new(7), vec![HirType::Named(t_sym)]);
    let sub = TypeSubst::new();

    let (new_callee, items) = discover_call_specialization(
        ExprId::new(7),
        id_sym,
        &call_type_args,
        &sub,
        &index,
        &mut mangle_table,
        &mut interner,
    );
    assert_eq!(new_callee, id_sym);
    assert!(items.is_empty());
    assert!(mangle_table.is_empty());
}

#[test]
fn discover_call_specialization_substitutes_then_mangles_non_generic() {
    let mut interner = Interner::new();
    let add_sym = interner.intern("add");
    let t_sym = interner.intern("T");
    let hir = Hir { items: vec![HirItem::Fn(function(add_sym, vec![], vec![], None))] };
    let index = MonoIndex::build(&hir);
    let mut mangle_table = MangleTable::new();

    let mut call_type_args = CallTypeArgs::new();
    call_type_args.insert(ExprId::new(3), vec![HirType::Named(t_sym)]);
    let mut sub = TypeSubst::new();
    sub.insert(t_sym, HirType::Bool);

    let (new_callee, items) = discover_call_specialization(
        ExprId::new(3),
        add_sym,
        &call_type_args,
        &sub,
        &index,
        &mut mangle_table,
        &mut interner,
    );
    assert!(items.is_empty(), "a non-generic function is not specialized");
    assert_eq!(interner.resolve(new_callee), "add__bool");
}

#[test]
fn discover_method_call_specialization_generic_receiver() {
    let mut interner = Interner::new();
    let vec_sym = interner.intern("Vec");
    let push = interner.intern("push");
    let hir = build_hir_with_vec(&mut interner);
    let t_sym = interner.intern("T");
    let vec_push = interner.intern("Vec_push");
    let mut items = hir.items;
    items.push(HirItem::Fn(function(vec_push, vec![t_sym], vec![], None)));
    let hir = Hir { items };
    let index = MonoIndex::build(&hir);
    let mut mangle_table = MangleTable::new();

    let input = vec![HirType::Int, HirType::RawPtr(Box::new(HirType::Generic(vec_sym, vec![HirType::Int])))];
    let call_type_args = CallTypeArgs::new();
    let sub = TypeSubst::new();

    let r = discover_method_call_specialization(
        ExprId::new(9),
        ExprId::new(1),
        push,
        &input,
        &call_type_args,
        &sub,
        &index,
        &mut mangle_table,
        &mut interner,
    );
    let (callee, found) = r.expect("a generic receiver gives type arguments");
    assert_eq!(interner.resolve(callee), "Vec_push__i64");
    assert_eq!(found.len(), 1);
    assert_eq!(found[0].def_id, vec_push);
    assert_eq!(found[0].kind, ItemKind::FnSpecialize);
    assert_eq!(found[0].type_args, vec![HirType::Int]);
}

#[test]
fn discover_method_call_specialization_without_type_args_is_none() {
    let mut interner = Interner::new();
    let point = interner.intern("Point");
    let norm = interner.intern("norm");
    let hir = Hir { items: vec![] };
    let index = MonoIndex::build(&hir);
    let mut mangle_table = MangleTable::new();

    let input = vec![HirType::Named(point)];
    let call_type_args = CallTypeArgs::new();
    let sub = TypeSubst::new();

    let r = discover_method_call_specialization(
        ExprId::new(5),
        ExprId::new(0),
        norm,
        &input,
        &call_type_args,
        &sub,
        &index,
        &mut mangle_table,
        &mut interner,
    );
    assert!(r.is_none());
    assert!(interner.lookup("Point_norm").is_some(), "the method's name is interned on the way");

    let missing = discover_method_call_specialization(
        ExprId::new(5),
        ExprId::new(4),
        norm,
        &input,
        &call_type_args,
        &sub,
        &index,
        &mut mangle_table,
        &mut interner,
    );
    assert!(missing.is_none(), "a receiver without a recorded type");
}
