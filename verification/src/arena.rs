//! The arena that owns every object and resolves interface pointers to them.

use crate::descriptor::{ClassDescriptor, QueryStep};
use crate::iid::InterfaceId;
use crate::layout::InterfacePointer;
use crate::model::{
    lemma_new_object_keeps_wf, lemma_replace_keeps_wf, lemma_torn_down_keeps_wf, ArenaModel,
};
use crate::object::{CompositeObject, Delegation, ObjectModel};
use crate::status::Status;
use vstd::prelude::*;

verus! {

/// Owns the classes registered with it and the objects created from them.
/// Callers hold interface pointers, never the objects; a slot is handed out
/// once and never again.
#[derive(Debug)]
pub struct ObjectArena<P> {
    classes: Vec<ClassDescriptor>,
    objects: Vec<Option<CompositeObject<P>>>,
}

/// The value of one slot.
pub open spec fn slot_model<P>(slot: Option<CompositeObject<P>>) -> Option<ObjectModel<P>> {
    match slot {
        Some(record) => Some(record@),
        None => None,
    }
}

impl<P> View for ObjectArena<P> {
    type V = ArenaModel<P>;

    closed spec fn view(&self) -> ArenaModel<P> {
        ArenaModel {
            classes: Seq::new(self.classes@.len(), |c: int| self.classes@[c]@),
            objects: Seq::new(self.objects@.len(), |k: int| slot_model(self.objects@[k])),
        }
    }
}

impl<P> ObjectArena<P> {
    /// An arena without classes or objects.
    pub fn new() -> (arena: Self)
        ensures
            arena@.wf(),
            arena@.classes.len() == 0,
            arena@.objects.len() == 0,
    {
        ObjectArena { classes: Vec::new(), objects: Vec::new() }
    }

    /// Makes a class known and returns the number it goes by.
    pub fn register_class(&mut self, class: ClassDescriptor) -> (id: usize)
        requires
            old(self)@.wf(),
        ensures
            final(self)@.wf(),
            id == old(self)@.classes.len(),
            final(self)@.classes == old(self)@.classes.push(class@),
            final(self)@.objects == old(self)@.objects,
    {
        let id = self.classes.len();
        self.classes.push(class);
        assert(self@.classes =~= old(self)@.classes.push(class@));
        assert(self@.objects =~= old(self)@.objects);
        assert forall|k: int| #![trigger self@.objects[k]] self@.live(k) implies self@.object(k).class
            < self@.classes.len() && self@.object(k).wf(self@.class_of(k)) by {
            assert(old(self)@.live(k));
            assert(old(self)@.objects[k] == self@.objects[k]);
        }
        id
    }

    /// The number of classes registered.
    pub fn class_count(&self) -> (n: usize)
        ensures
            n == self@.classes.len(),
    {
        self.classes.len()
    }

    /// The class that goes by `id`.
    pub fn class(&self, id: usize) -> (class: &ClassDescriptor)
        requires
            id < self@.classes.len(),
        ensures
            class@ == self@.classes[id as int],
    {
        &self.classes[id]
    }

    /// The number of objects ever allocated.
    pub fn allocated_count(&self) -> (n: usize)
        ensures
            n == self@.objects.len(),
    {
        self.objects.len()
    }

    /// The number of objects torn down so far.
    pub fn destroyed_count(&self) -> (n: usize)
        ensures
            n == self@.torn_down_count(),
    {
        let mut n: usize = 0;
        let mut k: usize = 0;
        while k < self.objects.len()
            invariant
                k <= self.objects@.len(),
                self@.objects.len() == self.objects@.len(),
                n == self@.torn_down_upto(k as int),
                n <= k,
            decreases self.objects@.len() - k,
        {
            assert(self@.objects[k as int] == slot_model(self.objects@[k as int]));
            if self.objects[k].is_none() {
                n += 1;
            }
            k += 1;
        }
        n
    }

    /// Whether slot `k` holds a living object.
    pub fn is_live(&self, k: usize) -> (yes: bool)
        ensures
            yes == self@.live(k as int),
    {
        if k < self.objects.len() {
            assert(self@.objects[k as int] == slot_model(self.objects@[k as int]));
            self.objects[k].is_some()
        } else {
            false
        }
    }

    /// The record of the living object in slot `k`.
    pub fn object(&self, k: usize) -> (record: &CompositeObject<P>)
        requires
            self@.live(k as int),
        ensures
            record@ == self@.object(k as int),
    {
        assert(self@.objects[k as int] == slot_model(self.objects@[k as int]));
        self.objects[k].as_ref().unwrap()
    }

    /// Whether `p` is an interface pointer of a living object.
    pub fn is_valid_pointer(&self, p: InterfacePointer) -> (yes: bool)
        requires
            self@.wf(),
        ensures
            yes == self@.valid_pointer(p),
    {
        if self.is_live(p.object) {
            let record = self.object(p.object);
            assert(self@.objects[p.object as int] is Some);
            p.slot <= record.interface_count()
        } else {
            false
        }
    }

    /// The pointer to the own unknown interface of the object in slot `k`.
    pub fn unknown_of(&self, k: usize) -> (p: InterfacePointer)
        requires
            self@.wf(),
            self@.live(k as int),
        ensures
            p == (InterfacePointer { object: k, slot: self@.interface_count(k as int) as usize }),
            self@.valid_pointer(p),
            self@.controlling(p) == Some(k as int),
    {
        let record = self.object(k);
        assert(self@.objects[k as int] is Some);
        InterfacePointer::new(k, record.interface_count())
    }

    /// The payload of the living object in slot `k`.
    pub fn payload(&self, k: usize) -> (payload: &P)
        requires
            self@.live(k as int),
        ensures
            *payload == self@.object(k as int).payload,
    {
        self.object(k).payload()
    }

    /// The reference count of the living object in slot `k`.
    pub fn ref_count(&self, k: usize) -> (count: u32)
        requires
            self@.live(k as int),
        ensures
            count == self@.ref_count(k as int),
    {
        self.object(k).ref_count()
    }

    /// Allocates an object of the class `class_id` in a new slot and returns
    /// the slot.  The object starts without references, with its delegation
    /// unset and its aggregation fields empty.
    pub fn allocate(&mut self, class_id: usize, payload: P) -> (k: usize)
        requires
            old(self)@.wf(),
            class_id < old(self)@.classes.len(),
        ensures
            final(self)@.wf(),
            k == old(self)@.objects.len(),
            final(self)@ == old(self)@.with_new_object(
                ObjectModel::fresh(class_id as nat, old(self)@.classes[class_id as int], payload),
            ),
    {
        let k = self.objects.len();
        let record = CompositeObject::allocate(class_id, &self.classes[class_id], payload);
        let ghost fresh = record@;
        self.objects.push(Some(record));
        proof {
            assert(self@.objects =~= old(self)@.objects.push(Some(fresh)));
            assert(self@.classes =~= old(self)@.classes);
            lemma_new_object_keeps_wf(old(self)@, fresh);
        }
        k
    }

    /// Configures which unknown interface answers the shared operations
    /// called through the implemented interfaces of the object in slot `k`:
    /// its own when `outer` is absent, the outer object's when it is given.
    pub fn set_iunknown(&mut self, k: usize, outer: Option<InterfacePointer>)
        requires
            old(self)@.wf(),
            old(self)@.live(k as int),
        ensures
            final(self)@.wf(),
            final(self)@ == old(self)@.with_delegation(
                k as int,
                match outer {
                    Some(p) => Delegation::Outer(p),
                    None => Delegation::Own,
                },
            ),
    {
        assert(self@.objects[k as int] == slot_model(self.objects@[k as int]));
        match &mut self.objects[k] {
            Some(record) => {
                record.set_iunknown(outer);
            },
            None => {},
        }
        proof {
            let delegation = match outer {
                Some(p) => Delegation::Outer(p),
                None => Delegation::Own,
            };
            let after = ObjectModel { delegation, ..old(self)@.object(k as int) };
            assert(self@.objects =~= old(self)@.objects.update(k as int, Some(after)));
            assert(self@.classes =~= old(self)@.classes);
            lemma_replace_keeps_wf(old(self)@, k as int, after);
        }
    }

    /// Replaces the payload of the living object in slot `k`.
    pub fn set_payload(&mut self, k: usize, payload: P)
        requires
            old(self)@.wf(),
            old(self)@.live(k as int),
        ensures
            final(self)@.wf(),
            final(self)@ == old(self)@.with_payload(k as int, payload),
    {
        assert(self@.objects[k as int] == slot_model(self.objects@[k as int]));
        match &mut self.objects[k] {
            Some(record) => {
                record.set_payload(payload);
            },
            None => {},
        }
        proof {
            let after = ObjectModel { payload, ..old(self)@.object(k as int) };
            assert(self@.objects =~= old(self)@.objects.update(k as int, Some(after)));
            assert(self@.classes =~= old(self)@.classes);
            lemma_replace_keeps_wf(old(self)@, k as int, after);
        }
    }

    /// Adds one reference to the object in slot `k` itself and returns the
    /// new count.
    pub fn inner_add_ref(&mut self, k: usize) -> (count: u32)
        requires
            old(self)@.wf(),
            old(self)@.live(k as int),
            old(self)@.ref_count(k as int) < u32::MAX,
        ensures
            final(self)@.wf(),
            count == old(self)@.ref_count(k as int) + 1,
            final(self)@ == old(self)@.after_add_ref(k as int),
    {
        assert(self@.objects[k as int] == slot_model(self.objects@[k as int]));
        let count = match &mut self.objects[k] {
            Some(record) => record.inner_add_ref(),
            None => 0,
        };
        proof {
            let after = ObjectModel { ref_count: count as nat, ..old(self)@.object(k as int) };
            assert(self@.objects =~= old(self)@.objects.update(k as int, Some(after)));
            assert(self@.classes =~= old(self)@.classes);
            lemma_replace_keeps_wf(old(self)@, k as int, after);
        }
        count
    }

    /// Takes one reference from the object in slot `k` itself and returns
    /// the new count.  When the count reaches zero the object is torn down:
    /// its dispatch tables and its record go, and its slot stays empty.
    pub fn inner_release(&mut self, k: usize) -> (count: u32)
        requires
            old(self)@.wf(),
            old(self)@.live(k as int),
            old(self)@.ref_count(k as int) >= 1,
        ensures
            final(self)@.wf(),
            count == old(self)@.ref_count(k as int) - 1,
            final(self)@ == old(self)@.after_release(k as int),
            final(self)@.live(k as int) == (count != 0),
    {
        assert(self@.objects[k as int] == slot_model(self.objects@[k as int]));
        let count = match &mut self.objects[k] {
            Some(record) => record.inner_release(),
            None => 0,
        };
        if count == 0 {
            self.objects[k] = None;
            proof {
                assert(self@.objects =~= old(self)@.objects.update(k as int, None));
                assert(self@.classes =~= old(self)@.classes);
                lemma_torn_down_keeps_wf(old(self)@, k as int);
            }
        } else {
            proof {
                let after = ObjectModel { ref_count: count as nat, ..old(self)@.object(k as int) };
                assert(self@.objects =~= old(self)@.objects.update(k as int, Some(after)));
                assert(self@.classes =~= old(self)@.classes);
                lemma_replace_keeps_wf(old(self)@, k as int, after);
            }
        }
        count
    }

    /// Stores `target` in the aggregation field at `field` of the object in
    /// slot `k`.  The field takes only the own unknown interface of a living
    /// object that was allocated after `k`; anything else is refused and
    /// changes nothing.
    pub fn attach_aggregate(&mut self, k: usize, field: usize, target: InterfacePointer) -> (status:
        Status)
        requires
            old(self)@.wf(),
            old(self)@.live(k as int),
        ensures
            final(self)@.wf(),
            status == Status::Success || status == Status::InvalidArgument,
            status == Status::Success <==> field < old(self)@.object(k as int).aggregates.len() && k
                < target.object && old(self)@.valid_pointer(target) && target.slot == old(
                self,
            )@.interface_count(target.object as int),
            status == Status::Success ==> final(self)@ == old(self)@.with_aggregate(
                k as int,
                field as int,
                target,
            ) && final(self)@.sub_object(k as int, field as int) == Some(target.object as int),
            status != Status::Success ==> final(self)@ == old(self)@,
    {
        if field >= self.object(k).aggregate_count() || target.object <= k || !self.is_live(
            target.object,
        ) {
            return Status::InvalidArgument;
        }
        assert(self@.objects[target.object as int] is Some);
        if target.slot != self.object(target.object).interface_count() {
            return Status::InvalidArgument;
        }
        assert(self@.objects[k as int] == slot_model(self.objects@[k as int]));
        match &mut self.objects[k] {
            Some(record) => {
                record.set_aggregate(field, target);
            },
            None => {},
        }
        proof {
            let before = old(self)@.object(k as int);
            let after = ObjectModel {
                aggregates: before.aggregates.update(field as int, Some(target)),
                ..before
            };
            assert(self@.objects =~= old(self)@.objects.update(k as int, Some(after)));
            assert(self@.classes =~= old(self)@.classes);
            lemma_replace_keeps_wf(old(self)@, k as int, after);
        }
        Status::Success
    }

    /// Answers a query for `riid` on the object in slot `k` itself.  First
    /// match wins: the unknown identifier yields the object's own unknown
    /// interface; an identifier in the chain of an implemented interface
    /// yields that interface; an identifier advertised by an aggregation
    /// field is asked of the field's sub-object, whose reference for the
    /// answer is handed back at once, so that only this object counts it.
    /// Success adds exactly one reference to this object; failure changes
    /// nothing.
    pub fn inner_query_interface(&mut self, k: usize, riid: &InterfaceId) -> (result: (
        Status,
        Option<InterfacePointer>,
    ))
        requires
            old(self)@.wf(),
            old(self)@.live(k as int),
            old(self)@.admits_query(k as int, *riid),
        ensures
            final(self)@.wf(),
            result.1 == old(self)@.resolve(k as int, *riid),
            result.0 == Status::Success <==> result.1 is Some,
            result.0 == Status::NoSuchInterface <==> result.1 is None,
            final(self)@ == old(self)@.after_query(k as int, *riid),
        decreases old(self)@.objects.len() - k,
    {
        assert(self@.objects[k as int] is Some);
        let class_id = self.object(k).class_id();
        let step = self.classes[class_id].query_step(riid);
        match step {
            QueryStep::Interface(slot) => {
                self.inner_add_ref(k);
                (Status::Success, Some(InterfacePointer::new(k, slot)))
            },
            QueryStep::Forward(field) => {
                let target = self.object(k).aggregate(field);
                match target {
                    Some(sub) => {
                        if sub.object > k && self.is_live(sub.object) {
                            assert(self@.objects[sub.object as int] is Some);
                            if sub.slot == self.object(sub.object).interface_count() {
                                let answer = self.inner_query_interface(sub.object, riid);
                                if answer.0.failed() {
                                    (Status::NoSuchInterface, None)
                                } else {
                                    self.inner_release(sub.object);
                                    proof {
                                        assert(self@.objects =~= old(self)@.objects);
                                    }
                                    self.inner_add_ref(k);
                                    (Status::Success, answer.1)
                                }
                            } else {
                                (Status::NoSuchInterface, None)
                            }
                        } else {
                            (Status::NoSuchInterface, None)
                        }
                    },
                    None => (Status::NoSuchInterface, None),
                }
            },
            QueryStep::Missing => (Status::NoSuchInterface, None),
        }
    }

    /// Finds the object whose own unknown interface answers the shared
    /// operations called through `p`, by stepping back to the record of `p`
    /// and following its delegation.
    pub fn controlling_object(&self, p: InterfacePointer) -> (owner: Option<usize>)
        requires
            self@.wf(),
        ensures
            match owner {
                Some(c) => self@.controlling(p) == Some(c as int) && self@.live(c as int),
                None => self@.controlling(p) is None,
            },
        decreases p.object,
    {
        if !self.is_valid_pointer(p) {
            return None;
        }
        assert(self@.objects[p.object as int] is Some);
        let record = self.object(p.object);
        let table = record.vtable(p.slot);
        let base = p.recover_base(table.slot_offset());
        if !table.is_delegating() {
            return Some(base.object);
        }
        match record.delegation() {
            Delegation::Unset => None,
            Delegation::Own => Some(base.object),
            Delegation::Outer(outer) => {
                if outer.object < base.object {
                    self.controlling_object(outer)
                } else {
                    None
                }
            },
        }
    }

    /// The query operation as reached through the interface pointer `p`:
    /// answered by the own unknown interface of the object that controls `p`.
    pub fn query_interface(&mut self, p: InterfacePointer, riid: &InterfaceId) -> (result: (
        Status,
        Option<InterfacePointer>,
    ))
        requires
            old(self)@.wf(),
            old(self)@.controlling(p) is Some,
            old(self)@.admits_query(old(self)@.controlling(p)->0, *riid),
        ensures
            final(self)@.wf(),
            result.1 == old(self)@.resolve(old(self)@.controlling(p)->0, *riid),
            result.0 == Status::Success <==> result.1 is Some,
            result.0 == Status::NoSuchInterface <==> result.1 is None,
            final(self)@ == old(self)@.after_query(old(self)@.controlling(p)->0, *riid),
    {
        match self.controlling_object(p) {
            Some(owner) => self.inner_query_interface(owner, riid),
            None => (Status::NoSuchInterface, None),
        }
    }

    /// The add-reference operation as reached through the interface pointer
    /// `p`: counted by the object that controls `p`.
    pub fn add_ref(&mut self, p: InterfacePointer) -> (count: u32)
        requires
            old(self)@.wf(),
            old(self)@.controlling(p) is Some,
            old(self)@.ref_count(old(self)@.controlling(p)->0) < u32::MAX,
        ensures
            final(self)@.wf(),
            count == old(self)@.ref_count(old(self)@.controlling(p)->0) + 1,
            final(self)@ == old(self)@.after_add_ref(old(self)@.controlling(p)->0),
    {
        match self.controlling_object(p) {
            Some(owner) => self.inner_add_ref(owner),
            None => 0,
        }
    }

    /// The release operation as reached through the interface pointer `p`:
    /// counted by the object that controls `p`, which is torn down when its
    /// last reference goes.
    pub fn release(&mut self, p: InterfacePointer) -> (count: u32)
        requires
            old(self)@.wf(),
            old(self)@.controlling(p) is Some,
            old(self)@.ref_count(old(self)@.controlling(p)->0) >= 1,
        ensures
            final(self)@.wf(),
            count == old(self)@.ref_count(old(self)@.controlling(p)->0) - 1,
            final(self)@ == old(self)@.after_release(old(self)@.controlling(p)->0),
    {
        match self.controlling_object(p) {
            Some(owner) => self.inner_release(owner),
            None => 0,
        }
    }
}

} // verus!
