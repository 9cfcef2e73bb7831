//! One object record: its dispatch tables, its bookkeeping and its payload.

use crate::descriptor::{ClassDescriptor, ClassModel};
use crate::layout::InterfacePointer;
use crate::vtable::{vtable_shape, Vtable, VtableModel};
use vstd::prelude::*;

verus! {

/// The unknown interface that answers the shared operations called through
/// any implemented interface of an object.
#[derive(Clone, Copy, Debug, PartialEq, Eq, Structural)]
pub enum Delegation {
    /// Not configured yet.
    Unset,
    /// The object's own unknown interface: the object stands alone.
    Own,
    /// The unknown interface of the outer object that aggregates this one.
    Outer(InterfacePointer),
}

/// Mathematical value of an object record.
pub struct ObjectModel<P> {
    pub class: nat,
    pub tables: Seq<VtableModel>,
    pub own_table: VtableModel,
    pub delegation: Delegation,
    pub ref_count: nat,
    pub aggregates: Seq<Option<InterfacePointer>>,
    pub payload: P,
}

impl<P> ObjectModel<P> {
    /// The record has the layout that `class` prescribes: one delegating
    /// table per implemented interface, each carrying its own position as
    /// offset; then the object's own table, whose offset is the number of
    /// implemented interfaces; and one sub-object reference per field.
    pub open spec fn wf(self, class: ClassModel) -> bool {
        &&& self.tables.len() == class.interfaces.len()
        &&& forall|i: int|
            0 <= i < self.tables.len() ==> #[trigger] self.tables[i] == (VtableModel {
                slot_offset: i as nat,
                delegating: true,
                entries: vtable_shape(class.interfaces[i].method_count),
            })
        &&& self.own_table == (VtableModel {
            slot_offset: class.interfaces.len(),
            delegating: false,
            entries: vtable_shape(0),
        })
        &&& self.aggregates.len() == class.aggregates.len()
        &&& self.ref_count <= u32::MAX
    }

    /// The table that an interface pointer with the given slot dispatches through.
    pub open spec fn table_at(self, slot: int) -> VtableModel {
        if 0 <= slot < self.tables.len() {
            self.tables[slot]
        } else {
            self.own_table
        }
    }

    /// The record as it is right after allocation.
    pub open spec fn fresh(class_id: nat, class: ClassModel, payload: P) -> ObjectModel<P> {
        ObjectModel {
            class: class_id,
            tables: Seq::new(
                class.interfaces.len(),
                |i: int|
                    VtableModel {
                        slot_offset: i as nat,
                        delegating: true,
                        entries: vtable_shape(class.interfaces[i].method_count),
                    },
            ),
            own_table: VtableModel {
                slot_offset: class.interfaces.len(),
                delegating: false,
                entries: vtable_shape(0),
            },
            delegation: Delegation::Unset,
            ref_count: 0,
            aggregates: Seq::new(class.aggregates.len(), |j: int| None),
            payload,
        }
    }
}

/// Stepping back from any interface pointer of a well-formed record by the
/// offset that the pointer's table carries reaches the record's first slot,
/// whichever interface the pointer belongs to.
pub proof fn lemma_identity_recovery<P>(
    record: ObjectModel<P>,
    class: ClassModel,
    object: usize,
    slot: usize,
)
    requires
        record.wf(class),
        slot <= class.interfaces.len(),
    ensures
        record.table_at(slot as int).slot_offset == slot,
        (InterfacePointer { object, slot }).spec_recover_base(
            record.table_at(slot as int).slot_offset as usize,
        ) == InterfacePointer::spec_base_of(object),
{
}

/// A freshly allocated record is well formed for its class.
pub proof fn lemma_fresh_wf<P>(class_id: nat, class: ClassModel, payload: P)
    ensures
        ObjectModel::fresh(class_id, class, payload).wf(class),
{
}

/// An object record.  Its dispatch tables are owned by it alone and go when
/// it goes.
#[derive(Debug)]
pub struct CompositeObject<P> {
    class: usize,
    vtables: Vec<Vtable>,
    non_delegating: Vtable,
    delegation: Delegation,
    ref_count: u32,
    aggregates: Vec<Option<InterfacePointer>>,
    payload: P,
}

impl<P> View for CompositeObject<P> {
    type V = ObjectModel<P>;

    closed spec fn view(&self) -> ObjectModel<P> {
        ObjectModel {
            class: self.class as nat,
            tables: Seq::new(self.vtables@.len(), |i: int| self.vtables@[i]@),
            own_table: self.non_delegating@,
            delegation: self.delegation,
            ref_count: self.ref_count as nat,
            aggregates: self.aggregates@,
            payload: self.payload,
        }
    }
}

impl<P> CompositeObject<P> {
    /// Allocates the record of a new object of the class `class`, which is
    /// known to its arena as `class_id`: builds one table per implemented
    /// interface in declared order, then the object's own table, starts the
    /// reference count at zero, leaves the delegation unset and every
    /// aggregation field empty, and stores the payload.
    pub fn allocate(class_id: usize, class: &ClassDescriptor, payload: P) -> (record: Self)
        ensures
            record@ == ObjectModel::fresh(class_id as nat, class@, payload),
            record@.wf(class@),
    {
        let count = class.interfaces.len();
        let mut vtables: Vec<Vtable> = Vec::new();
        let mut i: usize = 0;
        while i < count
            invariant
                count == class.interfaces@.len(),
                i <= count,
                vtables@.len() == i,
                forall|j: int|
                    0 <= j < i ==> (#[trigger] vtables@[j])@ == (VtableModel {
                        slot_offset: j as nat,
                        delegating: true,
                        entries: vtable_shape(class@.interfaces[j].method_count),
                    }),
            decreases count - i,
        {
            let table = Vtable::build(&class.interfaces[i], i);
            vtables.push(table);
            i += 1;
        }
        let non_delegating = Vtable::build_non_delegating(count);
        let fields = class.aggregates.len();
        let mut aggregates: Vec<Option<InterfacePointer>> = Vec::new();
        let mut j: usize = 0;
        while j < fields
            invariant
                j <= fields,
                aggregates@.len() == j,
                forall|f: int| 0 <= f < j ==> aggregates@[f] is None,
            decreases fields - j,
        {
            aggregates.push(None);
            j += 1;
        }
        let record = CompositeObject {
            class: class_id,
            vtables,
            non_delegating,
            delegation: Delegation::Unset,
            ref_count: 0,
            aggregates,
            payload,
        };
        proof {
            let fresh = ObjectModel::fresh(class_id as nat, class@, payload);
            assert(record@.tables =~= fresh.tables);
            assert(record@.aggregates =~= fresh.aggregates);
        }
        record
    }

    /// Puts the unknown interface in effect: the object's own when `outer`
    /// is absent, the outer object's when it is given.
    pub fn set_iunknown(&mut self, outer: Option<InterfacePointer>)
        ensures
            final(self)@ == (ObjectModel {
                delegation: match outer {
                    Some(p) => Delegation::Outer(p),
                    None => Delegation::Own,
                },
                ..old(self)@
            }),
    {
        self.delegation = match outer {
            Some(p) => Delegation::Outer(p),
            None => Delegation::Own,
        };
    }

    /// Adds one reference to the object itself and returns the new count.
    pub fn inner_add_ref(&mut self) -> (count: u32)
        requires
            old(self)@.ref_count < u32::MAX,
        ensures
            count == old(self)@.ref_count + 1,
            final(self)@ == (ObjectModel { ref_count: count as nat, ..old(self)@ }),
    {
        self.ref_count = self.ref_count + 1;
        self.ref_count
    }

    /// Takes one reference away from the object itself and returns the new
    /// count.  At zero the record is to be dropped by the arena that owns it.
    pub fn inner_release(&mut self) -> (count: u32)
        requires
            old(self)@.ref_count > 0,
        ensures
            count == old(self)@.ref_count - 1,
            final(self)@ == (ObjectModel { ref_count: count as nat, ..old(self)@ }),
    {
        self.ref_count = self.ref_count - 1;
        self.ref_count
    }

    /// Stores the reference to the sub-object of the field at `field`.
    pub fn set_aggregate(&mut self, field: usize, target: InterfacePointer)
        requires
            field < old(self)@.aggregates.len(),
        ensures
            final(self)@ == (ObjectModel {
                aggregates: old(self)@.aggregates.update(field as int, Some(target)),
                ..old(self)@
            }),
    {
        self.aggregates[field] = Some(target);
    }

    /// Replaces the payload.
    pub fn set_payload(&mut self, payload: P)
        ensures
            final(self)@ == (ObjectModel { payload, ..old(self)@ }),
    {
        self.payload = payload;
    }

    pub fn payload(&self) -> (payload: &P)
        ensures
            *payload == self@.payload,
    {
        &self.payload
    }

    pub fn class_id(&self) -> (id: usize)
        ensures
            id == self@.class,
    {
        self.class
    }

    pub fn ref_count(&self) -> (count: u32)
        ensures
            count == self@.ref_count,
    {
        self.ref_count
    }

    pub fn delegation(&self) -> (d: Delegation)
        ensures
            d == self@.delegation,
    {
        self.delegation
    }

    pub fn interface_count(&self) -> (n: usize)
        ensures
            n == self@.tables.len(),
    {
        self.vtables.len()
    }

    pub fn aggregate_count(&self) -> (n: usize)
        ensures
            n == self@.aggregates.len(),
    {
        self.aggregates.len()
    }

    pub fn aggregate(&self, field: usize) -> (target: Option<InterfacePointer>)
        requires
            field < self@.aggregates.len(),
        ensures
            target == self@.aggregates[field as int],
    {
        self.aggregates[field]
    }

    /// The table that an interface pointer with the given slot dispatches
    /// through: that of the implemented interface at `slot`, or the object's
    /// own for the slot after the last implemented interface.
    pub fn vtable(&self, slot: usize) -> (table: &Vtable)
        requires
            slot <= self@.tables.len(),
        ensures
            table@ == self@.table_at(slot as int),
    {
        if slot < self.vtables.len() {
            &self.vtables[slot]
        } else {
            &self.non_delegating
        }
    }
}

} // verus!
