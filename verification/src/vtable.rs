//! Dispatch tables: one per implemented interface, plus the object's own.

use crate::descriptor::InterfaceDescriptor;
use vstd::prelude::*;

verus! {

/// What one slot of a dispatch table is bound to.
#[derive(Clone, Copy, Debug, PartialEq, Eq, Structural)]
pub enum VtableEntry {
    /// The query operation; always the first slot.
    QueryInterface,
    /// The add-reference operation; always the second slot.
    AddRef,
    /// The release operation; always the third slot.
    Release,
    /// The interface's own method of the given position.
    Method(u16),
}

/// The entry that the slot at `position` of any dispatch table holds.
pub open spec fn entry_at(position: int) -> VtableEntry {
    if position == 0 {
        VtableEntry::QueryInterface
    } else if position == 1 {
        VtableEntry::AddRef
    } else if position == 2 {
        VtableEntry::Release
    } else {
        VtableEntry::Method((position - 3) as u16)
    }
}

/// The slots of a dispatch table for an interface with `method_count`
/// methods of its own: the three shared operations, then the methods in order.
pub open spec fn vtable_shape(method_count: nat) -> Seq<VtableEntry> {
    Seq::new(3 + method_count, |position: int| entry_at(position))
}

/// Mathematical value of a dispatch table.
pub struct VtableModel {
    pub slot_offset: nat,
    pub delegating: bool,
    pub entries: Seq<VtableEntry>,
}

/// A dispatch table owned by one object.  Its three shared operations find
/// the owning object by stepping back `slot_offset` slots from the interface
/// pointer they are called through.
#[derive(Debug)]
pub struct Vtable {
    slot_offset: usize,
    delegating: bool,
    entries: Vec<VtableEntry>,
}

impl View for Vtable {
    type V = VtableModel;

    closed spec fn view(&self) -> VtableModel {
        VtableModel {
            slot_offset: self.slot_offset as nat,
            delegating: self.delegating,
            entries: self.entries@,
        }
    }
}

impl Vtable {
    /// Builds the table of an implemented interface that sits at
    /// `slot_offset` among its object's interfaces.  Its shared operations
    /// forward to whichever unknown interface is in effect for the object.
    pub fn build(descriptor: &InterfaceDescriptor, slot_offset: usize) -> (table: Vtable)
        ensures
            table@ == (VtableModel {
                slot_offset: slot_offset as nat,
                delegating: true,
                entries: vtable_shape(descriptor@.method_count),
            }),
    {
        let entries = Self::entries_for(descriptor.method_count);
        Vtable { slot_offset, delegating: true, entries }
    }

    /// Builds the table of the object's own unknown interface, which sits
    /// at `slot_offset`, after every implemented interface.  Its operations
    /// act on the object itself, never on an outer object.
    pub fn build_non_delegating(slot_offset: usize) -> (table: Vtable)
        ensures
            table@ == (VtableModel {
                slot_offset: slot_offset as nat,
                delegating: false,
                entries: vtable_shape(0),
            }),
    {
        let entries = Self::entries_for(0);
        Vtable { slot_offset, delegating: false, entries }
    }

    /// Builds the table of the single interface of an object that cannot
    /// be aggregated, such as a class factory.  Its shared operations act on
    /// the object itself.
    pub fn build_standalone(descriptor: &InterfaceDescriptor, slot_offset: usize) -> (table: Vtable)
        ensures
            table@ == (VtableModel {
                slot_offset: slot_offset as nat,
                delegating: false,
                entries: vtable_shape(descriptor@.method_count),
            }),
    {
        let entries = Self::entries_for(descriptor.method_count);
        Vtable { slot_offset, delegating: false, entries }
    }

    fn entries_for(method_count: u16) -> (entries: Vec<VtableEntry>)
        ensures
            entries@ == vtable_shape(method_count as nat),
    {
        let mut entries: Vec<VtableEntry> = Vec::new();
        entries.push(VtableEntry::QueryInterface);
        entries.push(VtableEntry::AddRef);
        entries.push(VtableEntry::Release);
        let mut m: u16 = 0;
        while m < method_count
            invariant
                m <= method_count,
                entries@.len() == 3 + m,
                forall|p: int| 0 <= p < entries@.len() ==> entries@[p] == entry_at(p),
            decreases method_count - m,
        {
            entries.push(VtableEntry::Method(m));
            m += 1;
        }
        assert(entries@ =~= vtable_shape(method_count as nat));
        entries
    }

    /// How many slots an interface pointer using this table lies past
    /// its object's first slot.
    pub fn slot_offset(&self) -> (offset: usize)
        ensures
            offset == self@.slot_offset,
    {
        self.slot_offset
    }

    /// Whether the shared operations forward to the unknown interface in effect.
    pub fn is_delegating(&self) -> (yes: bool)
        ensures
            yes == self@.delegating,
    {
        self.delegating
    }

    /// The number of slots.
    pub fn len(&self) -> (n: usize)
        ensures
            n == self@.entries.len(),
    {
        self.entries.len()
    }

    /// The entry of the slot at `position`.
    pub fn entry(&self, position: usize) -> (e: VtableEntry)
        requires
            position < self@.entries.len(),
        ensures
            e == self@.entries[position as int],
    {
        self.entries[position]
    }
}

} // verus!
