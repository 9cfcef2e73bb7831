use co_class::arena::ObjectArena;
use co_class::descriptor::{AggregateDescriptor, ClassDescriptor, InterfaceDescriptor, QueryStep};
use co_class::factory::{get_class_object, ClassFactory};
use co_class::iid::InterfaceId;
use co_class::layout::InterfacePointer;
use co_class::object::Delegation;
use co_class::status::Status;

const IID_X: u128 = 0x1000;
const IID_Y: u128 = 0x2000;
const IID_W: u128 = 0x3000;
const IID_Z: u128 = 0x4000;

fn interface(iid: u128, bases: &[u128], methods: u16) -> InterfaceDescriptor {
    let bases = bases.iter().map(|b| InterfaceId::new(*b)).collect();
    InterfaceDescriptor::new(InterfaceId::new(iid), bases, methods)
}

fn class_xy() -> ClassDescriptor {
    ClassDescriptor::new(vec![interface(IID_X, &[], 1), interface(IID_Y, &[], 2)], vec![])
}

fn class_x_aggregating_y() -> ClassDescriptor {
    ClassDescriptor::new(
        vec![interface(IID_X, &[], 1)],
        vec![AggregateDescriptor { advertised: vec![interface(IID_Y, &[IID_W], 2)] }],
    )
}

fn class_y() -> ClassDescriptor {
    ClassDescriptor::new(vec![interface(IID_Y, &[IID_W], 2)], vec![])
}

/// An outer object of class "X aggregating Y" in slot 0 and its sub-object
/// of class "Y" in slot 1, attached; each held by one reference.
fn aggregated_pair() -> (ObjectArena<u32>, InterfacePointer, InterfacePointer) {
    let mut arena: ObjectArena<u32> = ObjectArena::new();
    let outer_class = arena.register_class(class_x_aggregating_y());
    let inner_class = arena.register_class(class_y());
    let outer_factory = get_class_object(outer_class);
    let inner_factory = get_class_object(inner_class);
    let (status, outer) = outer_factory.create_instance(&mut arena, 10, None, &InterfaceId::unknown());
    assert_eq!(status, Status::Success);
    let outer = outer.unwrap();
    let (status, inner) =
        inner_factory.create_instance(&mut arena, 20, Some(outer), &InterfaceId::unknown());
    assert_eq!(status, Status::Success);
    let inner = inner.unwrap();
    assert_eq!(arena.attach_aggregate(outer.object, 0, inner), Status::Success);
    (arena, outer, inner)
}

#[test]
fn end_to_end_two_interfaces() {
    let mut arena: ObjectArena<u32> = ObjectArena::new();
    let class = arena.register_class(class_xy());
    let factory = get_class_object(class);

    let (status, x) = factory.create_instance(&mut arena, 7, None, &InterfaceId::new(IID_X));
    assert_eq!(status, Status::Success);
    let x = x.expect("a pointer comes with success");
    assert_eq!(x, InterfacePointer { object: 0, slot: 0 });
    assert_eq!(arena.ref_count(0), 1);
    assert_eq!(arena.destroyed_count(), 0);

    let (status, y) = arena.query_interface(x, &InterfaceId::new(IID_Y));
    assert_eq!(status, Status::Success);
    let y = y.expect("a pointer comes with success");
    assert_eq!(y, InterfacePointer { object: 0, slot: 1 });
    assert_eq!(arena.ref_count(0), 2);

    assert_eq!(arena.release(y), 1);
    assert!(arena.is_live(0));
    assert_eq!(arena.destroyed_count(), 0);
    assert_eq!(arena.release(x), 0);
    assert!(!arena.is_live(0));
    assert_eq!(arena.destroyed_count(), 1);
    assert_eq!(arena.allocated_count(), 1);
}

#[test]
fn identity_recovery_from_every_interface_pointer() {
    let mut arena: ObjectArena<u32> = ObjectArena::new();
    let class = arena.register_class(class_xy());
    arena.allocate(class, 1);
    let k = arena.allocate(class, 2);
    assert_eq!(k, 1);
    let record = arena.object(k);
    assert_eq!(record.interface_count(), 2);
    for slot in 0..=2usize {
        let p = InterfacePointer::new(k, slot);
        let table = record.vtable(slot);
        assert_eq!(table.slot_offset(), slot);
        assert_eq!(p.recover_base(table.slot_offset()), InterfacePointer::base_of(k));
    }
    assert!(record.vtable(0).is_delegating());
    assert!(record.vtable(1).is_delegating());
    assert!(!record.vtable(2).is_delegating());
}

#[test]
fn querying_unknown_adds_exactly_one_reference() {
    let mut arena: ObjectArena<u32> = ObjectArena::new();
    let class = arena.register_class(class_xy());
    let factory = get_class_object(class);
    let (_, y) = factory.create_instance(&mut arena, 0, None, &InterfaceId::new(IID_Y));
    let y = y.unwrap();
    assert_eq!(arena.ref_count(0), 1);
    let (status, unknown) = arena.query_interface(y, &InterfaceId::unknown());
    assert_eq!(status, Status::Success);
    assert_eq!(unknown, Some(InterfacePointer { object: 0, slot: 2 }));
    assert_eq!(unknown, Some(arena.unknown_of(0)));
    assert_eq!(arena.ref_count(0), 2);
    let (status, again) = arena.query_interface(unknown.unwrap(), &InterfaceId::unknown());
    assert_eq!(status, Status::Success);
    assert_eq!(again, unknown);
    assert_eq!(arena.ref_count(0), 3);
}

#[test]
fn aggregation_leaves_the_sub_object_count_alone() {
    let (mut arena, outer, inner) = aggregated_pair();
    assert_eq!(outer, InterfacePointer { object: 0, slot: 1 });
    assert_eq!(inner, InterfacePointer { object: 1, slot: 1 });
    assert_eq!(arena.ref_count(0), 1);
    assert_eq!(arena.ref_count(1), 1);

    let mut handed_out = Vec::new();
    for n in 1..=3u32 {
        let (status, y) = arena.inner_query_interface(0, &InterfaceId::new(IID_Y));
        assert_eq!(status, Status::Success);
        assert_eq!(y, Some(InterfacePointer { object: 1, slot: 0 }));
        assert_eq!(arena.ref_count(0), 1 + n);
        assert_eq!(arena.ref_count(1), 1);
        handed_out.push(y.unwrap());
    }
    for (n, y) in handed_out.into_iter().enumerate() {
        assert_eq!(arena.controlling_object(y), Some(0));
        assert_eq!(arena.release(y), 3 - n as u32);
        assert_eq!(arena.ref_count(1), 1);
    }
    assert_eq!(arena.ref_count(0), 1);
    assert_eq!(arena.destroyed_count(), 0);
}

#[test]
fn aggregated_interface_is_found_through_its_base() {
    let (mut arena, outer, _) = aggregated_pair();
    let (status, w) = arena.query_interface(outer, &InterfaceId::new(IID_W));
    assert_eq!(status, Status::Success);
    assert_eq!(w, Some(InterfacePointer { object: 1, slot: 0 }));
    assert_eq!(arena.ref_count(0), 2);
    assert_eq!(arena.ref_count(1), 1);
}

#[test]
fn shared_operations_of_the_sub_object_count_on_the_outer_object() {
    let (mut arena, _, _) = aggregated_pair();
    let y = InterfacePointer { object: 1, slot: 0 };
    assert_eq!(arena.object(1).delegation(), Delegation::Outer(InterfacePointer { object: 0, slot: 1 }));
    assert_eq!(arena.controlling_object(y), Some(0));
    assert_eq!(arena.add_ref(y), 2);
    assert_eq!(arena.ref_count(0), 2);
    assert_eq!(arena.ref_count(1), 1);
    let (status, x) = arena.query_interface(y, &InterfaceId::new(IID_X));
    assert_eq!(status, Status::Success);
    assert_eq!(x, Some(InterfacePointer { object: 0, slot: 0 }));
    assert_eq!(arena.ref_count(0), 3);
    assert_eq!(arena.release(y), 2);
    assert_eq!(arena.ref_count(1), 1);
}

#[test]
fn own_unknown_of_the_sub_object_counts_on_the_sub_object() {
    let (mut arena, _, inner) = aggregated_pair();
    assert_eq!(arena.controlling_object(inner), Some(1));
    assert_eq!(arena.add_ref(inner), 2);
    assert_eq!(arena.ref_count(0), 1);
    assert_eq!(arena.release(inner), 1);
    assert_eq!(arena.release(inner), 0);
    assert!(!arena.is_live(1));
    assert!(arena.is_live(0));
    // The field now points at a torn-down object: the query finds nothing.
    let (status, y) = arena.inner_query_interface(0, &InterfaceId::new(IID_Y));
    assert_eq!(status, Status::NoSuchInterface);
    assert_eq!(y, None);
    assert_eq!(arena.ref_count(0), 1);
}

#[test]
fn unoffered_interface_is_rejected_without_counting() {
    let (mut arena, outer, _) = aggregated_pair();
    let (status, z) = arena.query_interface(outer, &InterfaceId::new(IID_Z));
    assert_eq!(status, Status::NoSuchInterface);
    assert_eq!(z, None);
    assert_eq!(arena.ref_count(0), 1);
    assert_eq!(arena.ref_count(1), 1);
    let (status, z) = arena.inner_query_interface(1, &InterfaceId::new(IID_X));
    assert_eq!(status, Status::NoSuchInterface);
    assert_eq!(z, None);
    assert_eq!(arena.ref_count(1), 1);
}

#[test]
fn aggregated_creation_must_ask_for_unknown() {
    let mut arena: ObjectArena<u32> = ObjectArena::new();
    let class = arena.register_class(class_xy());
    let factory = get_class_object(class);
    let (_, outer) = factory.create_instance(&mut arena, 0, None, &InterfaceId::unknown());
    let outer = outer.unwrap();
    assert_eq!(arena.allocated_count(), 1);

    let (status, p) = factory.create_instance(&mut arena, 1, Some(outer), &InterfaceId::new(IID_X));
    assert_eq!(status, Status::InvalidArgument);
    assert_eq!(p, None);
    assert_eq!(arena.allocated_count(), 1);
    assert_eq!(arena.destroyed_count(), 0);
    assert_eq!(arena.ref_count(0), 1);

    let (status, p) = factory.create_instance(&mut arena, 1, Some(outer), &InterfaceId::unknown());
    assert_eq!(status, Status::Success);
    assert_eq!(p, Some(InterfacePointer { object: 1, slot: 2 }));
    assert_eq!(arena.allocated_count(), 2);
    assert_eq!(arena.object(1).delegation(), Delegation::Outer(outer));
    assert_eq!(arena.ref_count(1), 1);
    assert_eq!(*arena.payload(1), 1);
}

#[test]
fn creation_for_an_unoffered_interface_tears_the_object_down() {
    let mut arena: ObjectArena<u32> = ObjectArena::new();
    let class = arena.register_class(class_xy());
    let factory = get_class_object(class);
    let (status, p) = factory.create_instance(&mut arena, 0, None, &InterfaceId::new(IID_Z));
    assert_eq!(status, Status::NoSuchInterface);
    assert_eq!(p, None);
    assert_eq!(arena.allocated_count(), 1);
    assert_eq!(arena.destroyed_count(), 1);
    assert!(!arena.is_live(0));
}

#[test]
fn creation_does_not_find_interfaces_of_fields_that_are_still_empty() {
    let mut arena: ObjectArena<u32> = ObjectArena::new();
    let class = arena.register_class(class_x_aggregating_y());
    let factory = get_class_object(class);
    let (status, p) = factory.create_instance(&mut arena, 0, None, &InterfaceId::new(IID_Y));
    assert_eq!(status, Status::NoSuchInterface);
    assert_eq!(p, None);
    assert_eq!(arena.destroyed_count(), 1);
}

#[test]
fn standalone_object_delegates_to_itself() {
    let mut arena: ObjectArena<u32> = ObjectArena::new();
    let class = arena.register_class(class_xy());
    let k = arena.allocate(class, 5);
    assert_eq!(arena.object(k).delegation(), Delegation::Unset);
    assert_eq!(arena.ref_count(k), 0);
    assert_eq!(arena.controlling_object(InterfacePointer::new(k, 0)), None);
    assert_eq!(arena.controlling_object(InterfacePointer::new(k, 2)), Some(k));
    arena.set_iunknown(k, None);
    assert_eq!(arena.object(k).delegation(), Delegation::Own);
    assert_eq!(arena.controlling_object(InterfacePointer::new(k, 0)), Some(k));
    assert_eq!(arena.controlling_object(InterfacePointer::new(k, 3)), None);
    assert_eq!(arena.inner_add_ref(k), 1);
    assert_eq!(arena.inner_add_ref(k), 2);
    assert_eq!(arena.inner_release(k), 1);
    assert_eq!(arena.inner_release(k), 0);
    assert!(!arena.is_live(k));
    assert_eq!(arena.controlling_object(InterfacePointer::new(k, 2)), None);
}

#[test]
fn first_matching_interface_wins() {
    let class = ClassDescriptor::new(
        vec![
            interface(IID_X, &[IID_W], 0),
            interface(IID_Y, &[IID_W, IID_X], 0),
        ],
        vec![AggregateDescriptor { advertised: vec![interface(IID_Z, &[IID_W], 0)] }],
    );
    assert_eq!(class.query_step(&InterfaceId::new(IID_W)), QueryStep::Interface(0));
    assert_eq!(class.query_step(&InterfaceId::new(IID_X)), QueryStep::Interface(0));
    assert_eq!(class.query_step(&InterfaceId::new(IID_Y)), QueryStep::Interface(1));
    assert_eq!(class.query_step(&InterfaceId::new(IID_Z)), QueryStep::Forward(0));
    assert_eq!(class.query_step(&InterfaceId::unknown()), QueryStep::Interface(2));
    assert_eq!(class.query_step(&InterfaceId::new(0x5000)), QueryStep::Missing);
    assert_eq!(class.find_interface(&InterfaceId::new(IID_W)), Some(0));
    assert_eq!(class.find_interface(&InterfaceId::new(IID_Z)), None);
    assert_eq!(class.find_aggregate(&InterfaceId::new(IID_W)), Some(0));
    assert_eq!(class.find_aggregate(&InterfaceId::new(IID_X)), None);
}

#[test]
fn inheritance_chain_holds_the_interface_and_its_bases() {
    let y = interface(IID_Y, &[IID_W, IID_X], 0);
    assert!(y.iid_in_inheritance_chain(&InterfaceId::new(IID_Y)));
    assert!(y.iid_in_inheritance_chain(&InterfaceId::new(IID_W)));
    assert!(y.iid_in_inheritance_chain(&InterfaceId::new(IID_X)));
    assert!(!y.iid_in_inheritance_chain(&InterfaceId::new(IID_Z)));
    assert!(!y.iid_in_inheritance_chain(&InterfaceId::unknown()));
    let factory = InterfaceDescriptor::class_factory();
    assert!(factory.iid_in_inheritance_chain(&InterfaceId::unknown()));
    assert!(factory.iid_in_inheritance_chain(&InterfaceId::class_factory()));
    assert_eq!(factory.method_count, 2);
}

#[test]
fn attaching_a_sub_object_is_refused_for_anything_but_a_later_own_unknown() {
    let mut arena: ObjectArena<u32> = ObjectArena::new();
    let outer_class = arena.register_class(class_x_aggregating_y());
    let inner_class = arena.register_class(class_y());
    let early = arena.allocate(inner_class, 0);
    let outer = arena.allocate(outer_class, 1);
    let late = arena.allocate(inner_class, 2);
    let early_unknown = arena.unknown_of(early);
    let late_unknown = arena.unknown_of(late);
    assert_eq!(arena.attach_aggregate(outer, 0, early_unknown), Status::InvalidArgument);
    assert_eq!(arena.attach_aggregate(outer, 1, late_unknown), Status::InvalidArgument);
    assert_eq!(
        arena.attach_aggregate(outer, 0, InterfacePointer::new(late, 0)),
        Status::InvalidArgument
    );
    assert_eq!(
        arena.attach_aggregate(outer, 0, InterfacePointer::new(9, 0)),
        Status::InvalidArgument
    );
    assert_eq!(arena.attach_aggregate(outer, 0, arena.unknown_of(outer)), Status::InvalidArgument);
    assert_eq!(arena.object(outer).aggregate(0), None);
    assert_eq!(arena.attach_aggregate(outer, 0, late_unknown), Status::Success);
    assert_eq!(arena.object(outer).aggregate(0), Some(late_unknown));
    assert_eq!(arena.object(outer).aggregate_count(), 1);
}

#[test]
fn payload_is_kept_and_can_be_replaced() {
    let mut arena: ObjectArena<String> = ObjectArena::new();
    let class = arena.register_class(class_xy());
    let k = arena.allocate(class, String::from("first"));
    assert_eq!(arena.payload(k), "first");
    arena.set_payload(k, String::from("second"));
    assert_eq!(arena.payload(k), "second");
    assert_eq!(arena.object(k).class_id(), class);
    assert_eq!(arena.class_count(), 1);
    assert_eq!(arena.class(class).interfaces.len(), 2);
    assert!(arena.is_valid_pointer(InterfacePointer::new(k, 2)));
    assert!(!arena.is_valid_pointer(InterfacePointer::new(k, 3)));
    assert!(!arena.is_valid_pointer(InterfacePointer::new(k + 1, 0)));
}

#[test]
fn factory_answers_to_unknown_and_to_class_factory() {
    let mut factory = ClassFactory::new(3);
    assert_eq!(factory.class_id(), 3);
    assert_eq!(factory.ref_count(), 0);
    assert_eq!(factory.query_interface(&InterfaceId::unknown()), Status::Success);
    assert_eq!(factory.ref_count(), 1);
    assert_eq!(factory.query_interface(&InterfaceId::class_factory()), Status::Success);
    assert_eq!(factory.ref_count(), 2);
    assert_eq!(factory.query_interface(&InterfaceId::new(IID_X)), Status::NoSuchInterface);
    assert_eq!(factory.ref_count(), 2);
    assert_eq!(factory.add_ref(), 3);
    assert_eq!(factory.lock_server(true), Status::Success);
    assert_eq!(factory.lock_server(false), Status::Success);
    assert_eq!(factory.ref_count(), 3);
    let (count, factory) = factory.release();
    assert_eq!(count, 2);
    let (count, factory) = factory.unwrap().release();
    assert_eq!(count, 1);
    let (count, factory) = factory.unwrap().release();
    assert_eq!(count, 0);
    assert!(factory.is_none());
}

#[test]
fn status_maps_to_its_result_code() {
    assert_eq!(Status::Success.hresult(), 0);
    assert_eq!(Status::NoSuchInterface.hresult(), 0x8000_4002u32 as i32);
    assert_eq!(Status::InvalidArgument.hresult(), 0x8007_0057u32 as i32);
    assert!(!Status::Success.failed());
    assert!(Status::NoSuchInterface.failed());
    assert!(Status::InvalidArgument.failed());
}

#[test]
fn well_known_identifiers() {
    assert_eq!(InterfaceId::unknown().value, 0x00000000_0000_0000_C000_000000000046);
    assert_eq!(InterfaceId::class_factory().value, 0x00000001_0000_0000_C000_000000000046);
    assert!(InterfaceId::unknown().is_unknown());
    assert!(!InterfaceId::class_factory().is_unknown());
    assert!(InterfaceId::new(5).is_equal(&InterfaceId::new(5)));
    assert!(!InterfaceId::new(5).is_equal(&InterfaceId::new(6)));
}

#[test]
fn object_is_torn_down_once_when_the_count_goes_from_one_to_zero() {
    let mut arena: ObjectArena<u32> = ObjectArena::new();
    let class = arena.register_class(class_xy());
    let bystander = arena.allocate(class, 0);
    let k = arena.allocate(class, 1);
    arena.set_iunknown(k, None);
    let x = InterfacePointer::new(k, 0);
    // add, add, release, add, release, release
    assert_eq!(arena.add_ref(x), 1);
    assert_eq!(arena.add_ref(x), 2);
    assert_eq!(arena.release(x), 1);
    assert_eq!(arena.destroyed_count(), 0);
    assert_eq!(arena.add_ref(x), 2);
    assert_eq!(arena.release(x), 1);
    assert!(arena.is_live(k));
    assert_eq!(arena.destroyed_count(), 0);
    assert_eq!(arena.release(x), 0);
    assert!(!arena.is_live(k));
    assert_eq!(arena.destroyed_count(), 1);
    // The slot is never handed out again, and nothing else was touched.
    assert!(arena.is_live(bystander));
    assert_eq!(arena.ref_count(bystander), 0);
    assert_eq!(arena.allocate(class, 2), 2);
    assert!(!arena.is_live(k));
    assert_eq!(arena.destroyed_count(), 1);
    assert_eq!(arena.allocated_count(), 3);
    assert!(!arena.is_valid_pointer(x));
    assert_eq!(arena.controlling_object(x), None);
}

#[test]
fn nested_aggregation_forwards_through_every_level() {
    let mut arena: ObjectArena<u32> = ObjectArena::new();
    let outer_class = arena.register_class(class_x_aggregating_y());
    let middle_class = arena.register_class(ClassDescriptor::new(
        vec![],
        vec![AggregateDescriptor { advertised: vec![interface(IID_Y, &[], 0)] }],
    ));
    let inner_class = arena.register_class(class_y());
    let unknown = InterfaceId::unknown();
    let (_, outer) = get_class_object(outer_class).create_instance(&mut arena, 0, None, &unknown);
    let outer = outer.unwrap();
    let (_, middle) =
        get_class_object(middle_class).create_instance(&mut arena, 1, Some(outer), &unknown);
    let middle = middle.unwrap();
    let (_, inner) =
        get_class_object(inner_class).create_instance(&mut arena, 2, Some(outer), &unknown);
    let inner = inner.unwrap();
    assert_eq!(arena.attach_aggregate(0, 0, middle), Status::Success);
    assert_eq!(arena.attach_aggregate(1, 0, inner), Status::Success);

    let (status, y) = arena.query_interface(outer, &InterfaceId::new(IID_Y));
    assert_eq!(status, Status::Success);
    assert_eq!(y, Some(InterfacePointer { object: 2, slot: 0 }));
    assert_eq!(arena.ref_count(0), 2);
    assert_eq!(arena.ref_count(1), 1);
    assert_eq!(arena.ref_count(2), 1);
    assert_eq!(arena.release(y.unwrap()), 1);
    assert_eq!(arena.ref_count(2), 1);
}
