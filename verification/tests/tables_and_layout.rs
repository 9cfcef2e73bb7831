use co_class::descriptor::InterfaceDescriptor;
use co_class::iid::InterfaceId;
use co_class::layout::{generate, generate_aggregable, FieldKind};
use co_class::vtable::{Vtable, VtableEntry};

#[test]
fn table_starts_with_the_three_shared_operations() {
    let descriptor = InterfaceDescriptor::new(InterfaceId::new(1), vec![], 2);
    let table = Vtable::build(&descriptor, 4);
    assert_eq!(table.len(), 5);
    assert_eq!(table.entry(0), VtableEntry::QueryInterface);
    assert_eq!(table.entry(1), VtableEntry::AddRef);
    assert_eq!(table.entry(2), VtableEntry::Release);
    assert_eq!(table.entry(3), VtableEntry::Method(0));
    assert_eq!(table.entry(4), VtableEntry::Method(1));
    assert_eq!(table.slot_offset(), 4);
    assert!(table.is_delegating());
}

#[test]
fn own_unknown_table_has_only_the_shared_operations() {
    let table = Vtable::build_non_delegating(2);
    assert_eq!(table.len(), 3);
    assert_eq!(table.entry(2), VtableEntry::Release);
    assert_eq!(table.slot_offset(), 2);
    assert!(!table.is_delegating());
}

#[test]
fn standalone_table_does_not_delegate() {
    let table = Vtable::build_standalone(&InterfaceDescriptor::class_factory(), 0);
    assert_eq!(table.len(), 5);
    assert_eq!(table.slot_offset(), 0);
    assert!(!table.is_delegating());
}

#[test]
fn plain_record_layout() {
    assert_eq!(
        generate(2),
        vec![
            FieldKind::InterfaceVptr(0),
            FieldKind::InterfaceVptr(1),
            FieldKind::ReferenceCount,
            FieldKind::Payload,
        ]
    );
    assert_eq!(generate(0), vec![FieldKind::ReferenceCount, FieldKind::Payload]);
}

#[test]
fn aggregable_record_layout() {
    assert_eq!(
        generate_aggregable(2),
        vec![
            FieldKind::InterfaceVptr(0),
            FieldKind::InterfaceVptr(1),
            FieldKind::NonDelegatingUnknown,
            FieldKind::DelegationTarget,
            FieldKind::ReferenceCount,
            FieldKind::Payload,
        ]
    );
    assert_eq!(generate_aggregable(0).len(), 4);
    assert_eq!(generate_aggregable(0)[0], FieldKind::NonDelegatingUnknown);
}
