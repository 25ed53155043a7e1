use glyim::monomorphize::work::{ItemKind, WorkItem, WorkQueue};
use glyim::symbol::Interner;
use glyim::types::HirType;

#[test]
fn work_queue_fifo_order() {
    let mut queue = WorkQueue::new();
    let mut i = Interner::new();
    let a = i.intern("a");
    let b = i.intern("b");

    queue.push(WorkItem::fn_passthrough(a));
    queue.push(WorkItem::fn_passthrough(b));

    assert_eq!(queue.pop().unwrap().def_id, a);
    assert_eq!(queue.pop().unwrap().def_id, b);
    assert!(queue.is_empty());
}

#[test]
fn work_queue_deduplicates_identical_items() {
    let mut queue = WorkQueue::new();
    let mut i = Interner::new();
    let foo = i.intern("foo");

    queue.push(WorkItem::fn_specialize(foo, vec![HirType::Int]));
    queue.push(WorkItem::fn_specialize(foo, vec![HirType::Int]));
    queue.push(WorkItem::fn_specialize(foo, vec![HirType::Bool]));

    assert_eq!(queue.len(), 2);

    let first = queue.pop().unwrap();
    assert_eq!(first.type_args, vec![HirType::Int]);

    let second = queue.pop().unwrap();
    assert_eq!(second.type_args, vec![HirType::Bool]);

    assert!(queue.is_empty());
}

#[test]
fn work_queue_different_kinds_not_deduplicated() {
    let mut queue = WorkQueue::new();
    let mut i = Interner::new();
    let foo = i.intern("foo");

    queue.push(WorkItem::fn_specialize(foo, vec![]));
    queue.push(WorkItem::fn_passthrough(foo));

    assert_eq!(queue.len(), 2, "different ItemKinds should not deduplicate");
}

#[test]
fn work_queue_extend() {
    let mut queue = WorkQueue::new();
    let mut i = Interner::new();

    queue.extend(vec![
        WorkItem::fn_passthrough(i.intern("a")),
        WorkItem::fn_passthrough(i.intern("b")),
        WorkItem::fn_passthrough(i.intern("a")),
    ]);

    assert_eq!(queue.len(), 2);
}

#[test]
fn work_item_equality_by_all_fields() {
    let mut i = Interner::new();
    let id = i.intern("id");

    let spec = WorkItem::fn_specialize(id, vec![HirType::Int]);
    let pass = WorkItem::fn_passthrough(id);

    assert_ne!(spec, pass, "FnSpecialize and FnPassthrough are different items");
}

#[test]
fn work_queue_remembers_popped_items() {
    let mut queue = WorkQueue::new();
    let mut i = Interner::new();
    let s = i.intern("S");
    queue.push(WorkItem::struct_specialize(s, vec![HirType::Int]));
    let popped = queue.pop().unwrap();
    assert_eq!(popped.kind, ItemKind::StructSpecialize);
    queue.push(WorkItem::struct_specialize(s, vec![HirType::Int]));
    assert!(queue.is_empty());
    assert_eq!(queue.total_seen(), 1);
    queue.push(WorkItem::enum_passthrough(s));
    assert_eq!(queue.len(), 1);
    assert_eq!(queue.total_seen(), 2);
}
