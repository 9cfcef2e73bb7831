//! Class factories: objects whose one task is to create instances of a class.

use crate::arena::ObjectArena;
use crate::descriptor::{ClassModel, InterfaceDescriptor, QueryStep};
use crate::iid::InterfaceId;
use crate::layout::InterfacePointer;
use crate::object::{Delegation, ObjectModel};
use crate::status::Status;
use crate::vtable::{vtable_shape, Vtable, VtableModel};
use vstd::prelude::*;

verus! {

/// Mathematical value of a class factory.
pub struct FactoryModel {
    pub class: nat,
    pub table: VtableModel,
    pub ref_count: nat,
}

/// A factory for the objects of one class.  It has its own dispatch table
/// and its own reference count, and lives independently of what it creates.
#[derive(Debug)]
pub struct ClassFactory {
    class: usize,
    inner: Vtable,
    ref_count: u32,
}

impl View for ClassFactory {
    type V = FactoryModel;

    closed spec fn view(&self) -> FactoryModel {
        FactoryModel { class: self.class as nat, table: self.inner@, ref_count: self.ref_count as nat }
    }
}

/// The delegation that creation configures for the outer pointer it was given.
pub open spec fn delegation_for(aggr: Option<InterfacePointer>) -> Delegation {
    match aggr {
        Some(outer) => Delegation::Outer(outer),
        None => Delegation::Own,
    }
}

/// The object that creation leaves behind when the requested interface was
/// found: configured, and held by the one reference handed to the caller.
pub open spec fn created_object<P>(
    class_id: nat,
    class: ClassModel,
    payload: P,
    aggr: Option<InterfacePointer>,
) -> ObjectModel<P> {
    ObjectModel {
        delegation: delegation_for(aggr),
        ref_count: 1,
        ..ObjectModel::fresh(class_id, class, payload)
    }
}

/// The interface pointer that creation returns for `riid` from the new
/// object in slot `k`.  A new object has no sub-objects yet, so only the
/// unknown identifier and the implemented interfaces are found.
pub open spec fn created_pointer(class: ClassModel, k: usize, riid: InterfaceId) -> Option<
    InterfacePointer,
> {
    match class.query_step(riid) {
        QueryStep::Interface(slot) => Some(InterfacePointer { object: k, slot }),
        _ => None,
    }
}

/// Creates the factory for the class that goes by `class`.
pub fn get_class_object(class: usize) -> (factory: ClassFactory)
    ensures
        factory@.class == class,
        factory@.ref_count == 0,
        factory@.table == (VtableModel { slot_offset: 0, delegating: false, entries: vtable_shape(2) }),
{
    ClassFactory::new(class)
}

impl ClassFactory {
    /// A factory for the class that goes by `class`, without references.
    pub fn new(class: usize) -> (factory: ClassFactory)
        ensures
            factory@.class == class,
            factory@.ref_count == 0,
            factory@.table == (VtableModel {
                slot_offset: 0,
                delegating: false,
                entries: vtable_shape(2),
            }),
    {
        let descriptor = InterfaceDescriptor::class_factory();
        let inner = Vtable::build_standalone(&descriptor, 0);
        ClassFactory { class, inner, ref_count: 0 }
    }

    pub fn class_id(&self) -> (id: usize)
        ensures
            id == self@.class,
    {
        self.class
    }

    pub fn ref_count(&self) -> (count: u32)
        ensures
            count == self@.ref_count,
    {
        self.ref_count
    }

    /// Creates an object of the factory's class in `arena` and returns the
    /// interface asked for.
    ///
    /// A request to create the object inside an outer object must ask for
    /// the unknown interface; any other is refused as an invalid argument
    /// before anything is allocated.  Else the object is allocated with
    /// `payload`, configured to delegate to `aggr` or to itself, held by one
    /// reference while it is queried for `riid`, and that reference is let
    /// go again: an object that offers `riid` is left with the one reference
    /// the caller receives, one that does not is torn down.
    pub fn create_instance<P>(
        &self,
        arena: &mut ObjectArena<P>,
        payload: P,
        aggr: Option<InterfacePointer>,
        riid: &InterfaceId,
    ) -> (result: (Status, Option<InterfacePointer>))
        requires
            old(arena)@.wf(),
            self@.class < old(arena)@.classes.len(),
        ensures
            final(arena)@.wf(),
            final(arena)@.classes == old(arena)@.classes,
            result.0 == Status::InvalidArgument <==> aggr is Some && *riid
                != InterfaceId::spec_unknown(),
            result.0 == Status::InvalidArgument ==> result.1 is None && final(arena)@ == old(arena)@,
            result.0 != Status::InvalidArgument ==> {
                let k = old(arena)@.objects.len() as usize;
                let class = old(arena)@.classes[self@.class as int];
                &&& result.1 == created_pointer(class, k, *riid)
                &&& result.0 == Status::Success <==> result.1 is Some
                &&& result.0 == Status::NoSuchInterface <==> result.1 is None
                &&& result.1 is Some ==> final(arena)@ == old(arena)@.with_new_object(
                    created_object(self@.class, class, payload, aggr),
                )
                &&& result.1 is None ==> final(arena)@.objects == old(arena)@.objects.push(None)
            },
    {
        if aggr.is_some() && !riid.is_unknown() {
            return (Status::InvalidArgument, None);
        }
        let k = arena.allocate(self.class, payload);
        let ghost class = old(arena)@.classes[self@.class as int];
        let ghost fresh = ObjectModel::fresh(self@.class, class, payload);
        arena.set_iunknown(k, aggr);
        arena.inner_add_ref(k);
        proof {
            assert(arena@.objects[k as int] is Some);
            assert(arena@.object(k as int).aggregates =~= fresh.aggregates);
            assert(arena@.resolve(k as int, *riid) == created_pointer(class, k, *riid));
        }
        let answer = arena.inner_query_interface(k, riid);
        arena.inner_release(k);
        proof {
            if answer.1 is Some {
                assert(arena@.objects =~= old(arena)@.objects.push(
                    Some(created_object(self@.class, class, payload, aggr)),
                ));
            } else {
                assert(arena@.objects =~= old(arena)@.objects.push(None));
            }
        }
        answer
    }

    /// Notes that a caller wants the server kept in memory, or no longer
    /// does.  Advisory: it always succeeds and changes nothing.
    pub fn lock_server(&mut self, increment: bool) -> (status: Status)
        ensures
            status == Status::Success,
            final(self)@ == old(self)@,
    {
        Status::Success
    }

    /// Whether the factory answers to `riid`: it does to the unknown
    /// identifier and to that of the class-creation interface.
    pub open spec fn offers(riid: InterfaceId) -> bool {
        riid == InterfaceId::spec_unknown() || riid == InterfaceId::spec_class_factory()
    }

    /// Answers a query for `riid` on the factory.  Success yields the
    /// factory's one interface and adds a reference; failure changes nothing.
    pub fn query_interface(&mut self, riid: &InterfaceId) -> (status: Status)
        requires
            Self::offers(*riid) ==> old(self)@.ref_count < u32::MAX,
        ensures
            status == Status::Success <==> Self::offers(*riid),
            status == Status::NoSuchInterface <==> !Self::offers(*riid),
            Self::offers(*riid) ==> final(self)@ == (FactoryModel {
                ref_count: old(self)@.ref_count + 1,
                ..old(self)@
            }),
            !Self::offers(*riid) ==> final(self)@ == old(self)@,
    {
        if riid.is_unknown() || riid.is_equal(&InterfaceId::class_factory()) {
            self.add_ref();
            Status::Success
        } else {
            Status::NoSuchInterface
        }
    }

    /// Adds one reference to the factory and returns the new count.
    pub fn add_ref(&mut self) -> (count: u32)
        requires
            old(self)@.ref_count < u32::MAX,
        ensures
            count == old(self)@.ref_count + 1,
            final(self)@ == (FactoryModel { ref_count: count as nat, ..old(self)@ }),
    {
        self.ref_count = self.ref_count + 1;
        self.ref_count
    }

    /// Takes one reference from the factory and returns the new count
    /// together with the factory, unless that was its last reference: then
    /// the factory is gone.
    pub fn release(self) -> (result: (u32, Option<ClassFactory>))
        requires
            self@.ref_count >= 1,
        ensures
            result.0 == self@.ref_count - 1,
            result.1 is None <==> result.0 == 0,
            result.1 matches Some(factory) ==> factory@ == (FactoryModel {
                ref_count: result.0 as nat,
                ..self@
            }),
    {
        let mut factory = self;
        factory.ref_count = factory.ref_count - 1;
        let count = factory.ref_count;
        if count == 0 {
            (count, None)
        } else {
            (count, Some(factory))
        }
    }
}

} // verus!
