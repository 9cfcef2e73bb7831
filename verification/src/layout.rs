//! Field order of an object record and the handles that point into it.

use vstd::prelude::*;

verus! {

/// A handle to one interface of one object: the object's slot in the arena
/// that owns it, and the position of the interface within the object.
#[derive(Clone, Copy, Debug, PartialEq, Eq, Hash, Structural)]
pub struct InterfacePointer {
    pub object: usize,
    pub slot: usize,
}

impl InterfacePointer {
    /// The handle reached by stepping back `offset` slots.
    pub open spec fn spec_recover_base(self, offset: usize) -> InterfacePointer {
        InterfacePointer { object: self.object, slot: (self.slot - offset) as usize }
    }

    /// The handle of the first slot of `object`.
    pub open spec fn spec_base_of(object: usize) -> InterfacePointer {
        InterfacePointer { object, slot: 0 }
    }

    pub fn new(object: usize, slot: usize) -> (p: InterfacePointer)
        ensures
            p == (InterfacePointer { object, slot }),
    {
        InterfacePointer { object, slot }
    }

    #[verifier::when_used_as_spec(spec_base_of)]
    pub fn base_of(object: usize) -> (p: InterfacePointer)
        ensures
            p == Self::spec_base_of(object),
    {
        InterfacePointer { object, slot: 0 }
    }

    /// Steps back `offset` slots, as the shared operations of a dispatch
    /// table do to find the record they were called on.
    #[verifier::when_used_as_spec(spec_recover_base)]
    pub fn recover_base(self, offset: usize) -> (base: InterfacePointer)
        requires
            offset <= self.slot,
        ensures
            base == self.spec_recover_base(offset),
            base.object == self.object,
            base.slot + offset == self.slot,
    {
        InterfacePointer { object: self.object, slot: self.slot - offset }
    }
}

/// What one field of an object record holds.
#[derive(Clone, Copy, Debug, PartialEq, Eq, Structural)]
pub enum FieldKind {
    /// The dispatch table of the implemented interface of the given position.
    InterfaceVptr(usize),
    /// The dispatch table of the object's own unknown interface.
    NonDelegatingUnknown,
    /// The unknown interface that is in effect for the object.
    DelegationTarget,
    /// The 32-bit reference count.
    ReferenceCount,
    /// The state the object was created with.
    Payload,
}

/// Field order of a record that cannot be aggregated: one dispatch table
/// per interface, the reference count, the payload.
pub open spec fn plain_fields(interface_count: nat) -> Seq<FieldKind> {
    Seq::new(
        interface_count + 2,
        |i: int|
            if i < interface_count {
                FieldKind::InterfaceVptr(i as usize)
            } else if i == interface_count {
                FieldKind::ReferenceCount
            } else {
                FieldKind::Payload
            },
    )
}

/// Field order of a record that can be aggregated: one dispatch table per
/// interface, the object's own unknown interface, the unknown interface in
/// effect, the reference count, the payload.
pub open spec fn aggregable_fields(interface_count: nat) -> Seq<FieldKind> {
    Seq::new(
        interface_count + 4,
        |i: int|
            if i < interface_count {
                FieldKind::InterfaceVptr(i as usize)
            } else if i == interface_count {
                FieldKind::NonDelegatingUnknown
            } else if i == interface_count + 1 {
                FieldKind::DelegationTarget
            } else if i == interface_count + 2 {
                FieldKind::ReferenceCount
            } else {
                FieldKind::Payload
            },
    )
}

fn interface_fields(interface_count: usize) -> (fields: Vec<FieldKind>)
    ensures
        fields@.len() == interface_count,
        forall|i: int| 0 <= i < interface_count ==> fields@[i] == FieldKind::InterfaceVptr(i as usize),
{
    let mut fields: Vec<FieldKind> = Vec::new();
    let mut i: usize = 0;
    while i < interface_count
        invariant
            i <= interface_count,
            fields@.len() == i,
            forall|j: int| 0 <= j < i ==> fields@[j] == FieldKind::InterfaceVptr(j as usize),
        decreases interface_count - i,
    {
        fields.push(FieldKind::InterfaceVptr(i));
        i += 1;
    }
    fields
}

/// Lays out the record of a class with `interface_count` interfaces that
/// cannot be aggregated.
pub fn generate(interface_count: usize) -> (fields: Vec<FieldKind>)
    ensures
        fields@ == plain_fields(interface_count as nat),
{
    let mut fields = interface_fields(interface_count);
    fields.push(FieldKind::ReferenceCount);
    fields.push(FieldKind::Payload);
    assert(fields@ =~= plain_fields(interface_count as nat));
    fields
}

/// Lays out the record of a class with `interface_count` interfaces that
/// can be aggregated.
pub fn generate_aggregable(interface_count: usize) -> (fields: Vec<FieldKind>)
    ensures
        fields@ == aggregable_fields(interface_count as nat),
{
    let mut fields = interface_fields(interface_count);
    fields.push(FieldKind::NonDelegatingUnknown);
    fields.push(FieldKind::DelegationTarget);
    fields.push(FieldKind::ReferenceCount);
    fields.push(FieldKind::Payload);
    assert(fields@ =~= aggregable_fields(interface_count as nat));
    fields
}

} // verus!
