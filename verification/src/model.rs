//! Mathematical value of an arena of objects, and what each operation of the
//! object model does to it.

use crate::descriptor::{ClassModel, QueryStep};
use crate::iid::InterfaceId;
use crate::layout::InterfacePointer;
use crate::object::{Delegation, ObjectModel};
use vstd::prelude::*;

verus! {

/// One counting operation on an object.
#[derive(Clone, Copy, Debug, PartialEq, Eq, Structural)]
pub enum RefOp {
    AddRef,
    Release,
}

/// The classes known to an arena and every slot it ever handed out, in
/// order of allocation.  A slot holds its object while the object lives and
/// stays empty for good once the object is torn down.
pub struct ArenaModel<P> {
    pub classes: Seq<ClassModel>,
    pub objects: Seq<Option<ObjectModel<P>>>,
}

impl<P> ArenaModel<P> {
    /// Whether slot `k` holds a living object.
    pub open spec fn live(self, k: int) -> bool {
        0 <= k < self.objects.len() && self.objects[k] is Some
    }

    /// The object in slot `k`.
    pub open spec fn object(self, k: int) -> ObjectModel<P>
        recommends
            self.live(k),
    {
        self.objects[k]->0
    }

    /// The class of the object in slot `k`.
    pub open spec fn class_of(self, k: int) -> ClassModel
        recommends
            self.live(k),
    {
        self.classes[self.object(k).class as int]
    }

    /// The number of interfaces that the object in slot `k` implements,
    /// which is also the slot of its own unknown interface.
    pub open spec fn interface_count(self, k: int) -> nat
        recommends
            self.live(k),
    {
        self.class_of(k).interfaces.len()
    }

    /// The reference count of the object in slot `k`.
    pub open spec fn ref_count(self, k: int) -> nat
        recommends
            self.live(k),
    {
        self.object(k).ref_count
    }

    /// Every living object belongs to a known class and is laid out as that
    /// class prescribes.
    pub open spec fn wf(self) -> bool {
        forall|k: int|
            #![trigger self.objects[k]]
            self.live(k) ==> self.object(k).class < self.classes.len() && self.object(k).wf(
                self.class_of(k),
            )
    }

    /// Whether `p` is an interface pointer of a living object.
    pub open spec fn valid_pointer(self, p: InterfacePointer) -> bool {
        self.live(p.object as int) && p.slot <= self.interface_count(p.object as int)
    }

    /// The number of empty slots among the first `n`.
    pub open spec fn torn_down_upto(self, n: int) -> nat
        decreases n,
    {
        if n <= 0 {
            0
        } else {
            self.torn_down_upto(n - 1) + if self.objects[n - 1] is None {
                1nat
            } else {
                0nat
            }
        }
    }

    /// The number of objects torn down so far.
    pub open spec fn torn_down_count(self) -> nat {
        self.torn_down_upto(self.objects.len() as int)
    }

    /// The object that answers queries forwarded through field `j` of the
    /// object in slot `k`: the field must hold the own unknown interface of
    /// a living object that was allocated after `k`.
    pub open spec fn sub_object(self, k: int, j: int) -> Option<int>
        recommends
            self.live(k),
    {
        if 0 <= j < self.object(k).aggregates.len() {
            match self.object(k).aggregates[j] {
                Some(b) => if k < b.object && self.live(b.object as int) && b.slot
                    == self.interface_count(b.object as int) {
                    Some(b.object as int)
                } else {
                    None
                },
                None => None,
            }
        } else {
            None
        }
    }

    /// The interface pointer that a query for `riid` on the object in slot
    /// `k` itself yields, or nothing where the object does not offer `riid`.
    /// A query that falls to an aggregation field is answered by the
    /// field's sub-object in the same way.
    pub open spec fn resolve(self, k: int, riid: InterfaceId) -> Option<InterfacePointer>
        decreases self.objects.len() - k,
    {
        if !self.live(k) {
            None
        } else {
            match self.class_of(k).query_step(riid) {
                QueryStep::Interface(slot) => Some(InterfacePointer { object: k as usize, slot }),
                QueryStep::Forward(j) => match self.sub_object(k, j as int) {
                    Some(b) => self.resolve(b, riid),
                    None => None,
                },
                QueryStep::Missing => None,
            }
        }
    }

    /// Whether the counts allow a query for `riid` on the object in slot
    /// `k`: where the query succeeds, the count of `k` can take one more
    /// reference, and a sub-object that the query is forwarded to is held by
    /// at least one reference and admits the query in turn.
    pub open spec fn admits_query(self, k: int, riid: InterfaceId) -> bool
        decreases self.objects.len() - k,
    {
        if !self.live(k) || self.resolve(k, riid) is None {
            true
        } else {
            self.ref_count(k) < u32::MAX && match self.class_of(k).query_step(riid) {
                QueryStep::Forward(j) => match self.sub_object(k, j as int) {
                    Some(b) => self.ref_count(b) >= 1 && self.admits_query(b, riid),
                    None => true,
                },
                _ => true,
            }
        }
    }

    /// The object whose own unknown interface answers the shared operations
    /// called through `p`: the object of `p` where `p` is its own unknown
    /// interface or the object stands alone, else whatever controls the
    /// outer pointer it was configured with.  An outer object always
    /// predates the objects it controls.
    pub open spec fn controlling(self, p: InterfacePointer) -> Option<int>
        decreases p.object,
    {
        if !self.valid_pointer(p) {
            None
        } else if p.slot == self.interface_count(p.object as int) {
            Some(p.object as int)
        } else {
            match self.object(p.object as int).delegation {
                Delegation::Unset => None,
                Delegation::Own => Some(p.object as int),
                Delegation::Outer(q) => if q.object < p.object {
                    self.controlling(q)
                } else {
                    None
                },
            }
        }
    }

    /// The arena with the count of the object in slot `k` set to `count`.
    pub open spec fn with_ref_count(self, k: int, count: nat) -> ArenaModel<P>
        recommends
            self.live(k),
    {
        ArenaModel {
            objects: self.objects.update(k, Some(ObjectModel { ref_count: count, ..self.object(k) })),
            ..self
        }
    }

    /// The arena with the object in slot `k` torn down.
    pub open spec fn torn_down(self, k: int) -> ArenaModel<P> {
        ArenaModel { objects: self.objects.update(k, None), ..self }
    }

    /// The arena after one reference was added to the object in slot `k`.
    pub open spec fn after_add_ref(self, k: int) -> ArenaModel<P>
        recommends
            self.live(k),
    {
        self.with_ref_count(k, self.ref_count(k) + 1)
    }

    /// The arena after one reference was taken from the object in slot `k`:
    /// the object is torn down exactly when that was its last reference.
    pub open spec fn after_release(self, k: int) -> ArenaModel<P>
        recommends
            self.live(k),
            self.ref_count(k) >= 1,
    {
        if self.ref_count(k) == 1 {
            self.torn_down(k)
        } else {
            self.with_ref_count(k, (self.ref_count(k) - 1) as nat)
        }
    }

    /// The arena after a query for `riid` on the object in slot `k` itself:
    /// a successful query adds one reference to `k` and changes nothing
    /// else, a failed one changes nothing.
    pub open spec fn after_query(self, k: int, riid: InterfaceId) -> ArenaModel<P> {
        if self.resolve(k, riid) is Some {
            self.after_add_ref(k)
        } else {
            self
        }
    }

    /// The arena with one more slot, holding a new object.
    pub open spec fn with_new_object(self, record: ObjectModel<P>) -> ArenaModel<P> {
        ArenaModel { objects: self.objects.push(Some(record)), ..self }
    }

    /// The arena with the delegation of the object in slot `k` replaced.
    pub open spec fn with_delegation(self, k: int, delegation: Delegation) -> ArenaModel<P>
        recommends
            self.live(k),
    {
        ArenaModel {
            objects: self.objects.update(k, Some(ObjectModel { delegation, ..self.object(k) })),
            ..self
        }
    }

    /// The arena with field `j` of the object in slot `k` pointing at `target`.
    pub open spec fn with_aggregate(self, k: int, j: int, target: InterfacePointer) -> ArenaModel<P>
        recommends
            self.live(k),
    {
        ArenaModel {
            objects: self.objects.update(
                k,
                Some(
                    ObjectModel {
                        aggregates: self.object(k).aggregates.update(j, Some(target)),
                        ..self.object(k)
                    },
                ),
            ),
            ..self
        }
    }

    /// The arena with the payload of the object in slot `k` replaced.
    pub open spec fn with_payload(self, k: int, payload: P) -> ArenaModel<P>
        recommends
            self.live(k),
    {
        ArenaModel {
            objects: self.objects.update(k, Some(ObjectModel { payload, ..self.object(k) })),
            ..self
        }
    }

    /// The arena after `n` queries for `riid` on the object in slot `k` itself.
    pub open spec fn after_queries(self, k: int, riid: InterfaceId, n: nat) -> ArenaModel<P>
        decreases n,
    {
        if n == 0 {
            self
        } else {
            self.after_queries(k, riid, (n - 1) as nat).after_query(k, riid)
        }
    }

    /// The arena after the release operation was called `n` times through
    /// the interface pointer `p`.
    pub open spec fn after_releases_through(self, p: InterfacePointer, n: nat) -> ArenaModel<P>
        decreases n,
    {
        if n == 0 {
            self
        } else {
            let before = self.after_releases_through(p, (n - 1) as nat);
            before.after_release(before.controlling(p)->0)
        }
    }

    /// The arena after one counting operation on the object in slot `k`.
    pub open spec fn after_op(self, k: int, op: RefOp) -> ArenaModel<P> {
        match op {
            RefOp::AddRef => self.after_add_ref(k),
            RefOp::Release => self.after_release(k),
        }
    }

    /// The arena after the counting operations `ops`, in order, on the
    /// object in slot `k`.
    pub open spec fn after_ops(self, k: int, ops: Seq<RefOp>) -> ArenaModel<P>
        decreases ops.len(),
    {
        if ops.len() == 0 {
            self
        } else {
            self.after_ops(k, ops.drop_last()).after_op(k, ops.last())
        }
    }

    /// Whether `ops` is a sequence that a caller may apply to the object in
    /// slot `k`: every operation finds the object alive, a release finds a
    /// reference to take, and an added reference fits the count.
    pub open spec fn allows_ops(self, k: int, ops: Seq<RefOp>) -> bool
        decreases ops.len(),
    {
        if ops.len() == 0 {
            true
        } else {
            let before = self.after_ops(k, ops.drop_last());
            &&& self.allows_ops(k, ops.drop_last())
            &&& before.live(k)
            &&& match ops.last() {
                RefOp::AddRef => before.ref_count(k) < u32::MAX,
                RefOp::Release => before.ref_count(k) >= 1,
            }
        }
    }

    /// How many times the object in slot `k` goes from alive to torn down
    /// in the course of `ops`.
    pub open spec fn teardowns(self, k: int, ops: Seq<RefOp>) -> nat
        decreases ops.len(),
    {
        if ops.len() == 0 {
            0
        } else {
            let before = self.after_ops(k, ops.drop_last());
            self.teardowns(k, ops.drop_last()) + if before.live(k) && !before.after_op(
                k,
                ops.last(),
            ).live(k) {
                1nat
            } else {
                0nat
            }
        }
    }
}

/// Replacing a living object by a record of the same class that is laid out
/// as the class prescribes keeps the arena well formed.
pub proof fn lemma_replace_keeps_wf<P>(arena: ArenaModel<P>, k: int, record: ObjectModel<P>)
    requires
        arena.wf(),
        arena.live(k),
        record.class == arena.object(k).class,
        record.wf(arena.class_of(k)),
    ensures
        (ArenaModel { objects: arena.objects.update(k, Some(record)), ..arena }).wf(),
{
    let after = ArenaModel { objects: arena.objects.update(k, Some(record)), ..arena };
    assert forall|i: int| #![trigger after.objects[i]] after.live(i) implies after.object(i).class
        < after.classes.len() && after.object(i).wf(after.class_of(i)) by {
        if i != k {
            assert(arena.objects[i] == after.objects[i]);
        } else {
            assert(arena.objects[k] is Some);
        }
    }
}

/// Tearing an object down keeps the arena well formed.
pub proof fn lemma_torn_down_keeps_wf<P>(arena: ArenaModel<P>, k: int)
    requires
        arena.wf(),
        arena.live(k),
    ensures
        arena.torn_down(k).wf(),
{
    let after = arena.torn_down(k);
    assert forall|i: int| #![trigger after.objects[i]] after.live(i) implies after.object(i).class
        < after.classes.len() && after.object(i).wf(after.class_of(i)) by {
        assert(arena.objects[i] == after.objects[i]);
    }
}

/// A new object of a known class, laid out as the class prescribes, keeps
/// the arena well formed.
pub proof fn lemma_new_object_keeps_wf<P>(arena: ArenaModel<P>, record: ObjectModel<P>)
    requires
        arena.wf(),
        record.class < arena.classes.len(),
        record.wf(arena.classes[record.class as int]),
    ensures
        arena.with_new_object(record).wf(),
{
    let after = arena.with_new_object(record);
    assert forall|i: int| #![trigger after.objects[i]] after.live(i) implies after.object(i).class
        < after.classes.len() && after.object(i).wf(after.class_of(i)) by {
        if i < arena.objects.len() {
            assert(arena.objects[i] == after.objects[i]);
        }
    }
}

} // verus!
