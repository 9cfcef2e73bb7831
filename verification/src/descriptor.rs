//! Static description of interfaces and of the classes that implement them.

use crate::iid::InterfaceId;
use vstd::prelude::*;

verus! {

/// Mathematical value of an interface descriptor.
pub struct InterfaceModel {
    pub iid: InterfaceId,
    pub bases: Seq<InterfaceId>,
    pub method_count: nat,
}

impl InterfaceModel {
    /// Whether `riid` names this interface or one it inherits from.
    pub open spec fn in_chain(self, riid: InterfaceId) -> bool {
        riid == self.iid || self.bases.contains(riid)
    }
}

/// Whether any interface of `list` answers to `riid`.
pub open spec fn any_in_chain(list: Seq<InterfaceModel>, riid: InterfaceId) -> bool {
    exists|i: int| 0 <= i < list.len() && (#[trigger] list[i]).in_chain(riid)
}

/// The first position at or after `from` whose interface answers to `riid`.
pub open spec fn first_interface_from(list: Seq<InterfaceModel>, riid: InterfaceId, from: int) -> Option<
    int,
>
    decreases list.len() - from,
{
    if from < 0 || from >= list.len() {
        None
    } else if list[from].in_chain(riid) {
        Some(from)
    } else {
        first_interface_from(list, riid, from + 1)
    }
}

/// The first interface of `list`, in order, that answers to `riid`.
pub open spec fn first_interface(list: Seq<InterfaceModel>, riid: InterfaceId) -> Option<int> {
    first_interface_from(list, riid, 0)
}

/// The first field at or after `from` that advertises an interface answering to `riid`.
pub open spec fn first_aggregate_from(
    fields: Seq<Seq<InterfaceModel>>,
    riid: InterfaceId,
    from: int,
) -> Option<int>
    decreases fields.len() - from,
{
    if from < 0 || from >= fields.len() {
        None
    } else if any_in_chain(fields[from], riid) {
        Some(from)
    } else {
        first_aggregate_from(fields, riid, from + 1)
    }
}

/// The first aggregation field, in order, that advertises `riid`.
pub open spec fn first_aggregate(fields: Seq<Seq<InterfaceModel>>, riid: InterfaceId) -> Option<int> {
    first_aggregate_from(fields, riid, 0)
}

/// `first_interface_from` returns the least matching position, and nothing
/// exactly when no position from `from` on matches.
pub proof fn lemma_first_interface_from(list: Seq<InterfaceModel>, riid: InterfaceId, from: int)
    requires
        0 <= from,
    ensures
        match first_interface_from(list, riid, from) {
            Some(i) => from <= i < list.len() && list[i].in_chain(riid) && forall|j: int|
                from <= j < i ==> !(#[trigger] list[j]).in_chain(riid),
            None => forall|j: int| from <= j < list.len() ==> !(#[trigger] list[j]).in_chain(riid),
        },
    decreases list.len() - from,
{
    if from < list.len() && !list[from].in_chain(riid) {
        lemma_first_interface_from(list, riid, from + 1);
    }
}

/// `first_aggregate_from` returns the least advertising field, and nothing
/// exactly when no field from `from` on advertises `riid`.
pub proof fn lemma_first_aggregate_from(fields: Seq<Seq<InterfaceModel>>, riid: InterfaceId, from: int)
    requires
        0 <= from,
    ensures
        match first_aggregate_from(fields, riid, from) {
            Some(i) => from <= i < fields.len() && any_in_chain(fields[i], riid) && forall|j: int|
                from <= j < i ==> !any_in_chain(#[trigger] fields[j], riid),
            None => forall|j: int| from <= j < fields.len() ==> !any_in_chain(#[trigger] fields[j], riid),
        },
    decreases fields.len() - from,
{
    if from < fields.len() && !any_in_chain(fields[from], riid) {
        lemma_first_aggregate_from(fields, riid, from + 1);
    }
}

/// Identity and shape of one interface: its identifier, the identifiers it
/// inherits from, and how many methods follow the three every interface has.
#[derive(Debug)]
pub struct InterfaceDescriptor {
    pub iid: InterfaceId,
    pub bases: Vec<InterfaceId>,
    pub method_count: u16,
}

impl View for InterfaceDescriptor {
    type V = InterfaceModel;

    open spec fn view(&self) -> InterfaceModel {
        InterfaceModel { iid: self.iid, bases: self.bases@, method_count: self.method_count as nat }
    }
}

/// The values of a list of descriptors, in order.
pub open spec fn interface_models(list: Seq<InterfaceDescriptor>) -> Seq<InterfaceModel> {
    Seq::new(list.len(), |i: int| list[i]@)
}

impl InterfaceDescriptor {
    pub fn new(iid: InterfaceId, bases: Vec<InterfaceId>, method_count: u16) -> (d: InterfaceDescriptor)
        ensures
            d@ == (InterfaceModel { iid, bases: bases@, method_count: method_count as nat }),
    {
        InterfaceDescriptor { iid, bases, method_count }
    }

    /// The class-creation interface: it inherits from the unknown interface
    /// and has two methods of its own, creation and server locking.
    pub fn class_factory() -> (d: InterfaceDescriptor)
        ensures
            d@ == (InterfaceModel {
                iid: InterfaceId::spec_class_factory(),
                bases: seq![InterfaceId::spec_unknown()],
                method_count: 2,
            }),
    {
        let mut bases: Vec<InterfaceId> = Vec::new();
        bases.push(InterfaceId::unknown());
        assert(bases@ =~= seq![InterfaceId::spec_unknown()]);
        InterfaceDescriptor { iid: InterfaceId::class_factory(), bases, method_count: 2 }
    }

    /// Whether `riid` names this interface or one of its bases.
    pub fn iid_in_inheritance_chain(&self, riid: &InterfaceId) -> (found: bool)
        ensures
            found == self@.in_chain(*riid),
    {
        if self.iid.is_equal(riid) {
            return true;
        }
        let mut i: usize = 0;
        while i < self.bases.len()
            invariant
                i <= self.bases@.len(),
                forall|j: int| 0 <= j < i ==> self.bases@[j] != *riid,
            decreases self.bases@.len() - i,
        {
            if self.bases[i].is_equal(riid) {
                return true;
            }
            i += 1;
        }
        false
    }
}

/// Whether any descriptor of `list` answers to `riid`.
pub fn advertises(list: &Vec<InterfaceDescriptor>, riid: &InterfaceId) -> (found: bool)
    ensures
        found == any_in_chain(interface_models(list@), *riid),
{
    let mut i: usize = 0;
    while i < list.len()
        invariant
            i <= list@.len(),
            forall|j: int| 0 <= j < i ==> !(#[trigger] interface_models(list@)[j]).in_chain(*riid),
        decreases list@.len() - i,
    {
        if list[i].iid_in_inheritance_chain(riid) {
            assert(interface_models(list@)[i as int].in_chain(*riid));
            return true;
        }
        i += 1;
    }
    false
}

/// Mathematical value of a class descriptor.
pub struct ClassModel {
    pub interfaces: Seq<InterfaceModel>,
    pub aggregates: Seq<Seq<InterfaceModel>>,
}

/// One aggregation field of a class: the interfaces that the sub-object
/// held in the field is advertised as offering on the class's behalf.
#[derive(Debug)]
pub struct AggregateDescriptor {
    pub advertised: Vec<InterfaceDescriptor>,
}

/// What an object type declares: the interfaces it implements, in
/// declaration order, and its aggregation fields, in declaration order.
#[derive(Debug)]
pub struct ClassDescriptor {
    pub interfaces: Vec<InterfaceDescriptor>,
    pub aggregates: Vec<AggregateDescriptor>,
}

impl View for ClassDescriptor {
    type V = ClassModel;

    open spec fn view(&self) -> ClassModel {
        ClassModel {
            interfaces: interface_models(self.interfaces@),
            aggregates: Seq::new(
                self.aggregates@.len(),
                |j: int| interface_models(self.aggregates@[j].advertised@),
            ),
        }
    }
}

impl ClassDescriptor {
    pub fn new(interfaces: Vec<InterfaceDescriptor>, aggregates: Vec<AggregateDescriptor>) -> (c:
        ClassDescriptor)
        ensures
            c.interfaces == interfaces,
            c.aggregates == aggregates,
    {
        ClassDescriptor { interfaces, aggregates }
    }

    /// The position of the first implemented interface that answers to `riid`.
    pub fn find_interface(&self, riid: &InterfaceId) -> (found: Option<usize>)
        ensures
            match found {
                Some(i) => first_interface(self@.interfaces, *riid) == Some(i as int),
                None => first_interface(self@.interfaces, *riid) is None,
            },
    {
        let mut i: usize = 0;
        while i < self.interfaces.len()
            invariant
                i <= self.interfaces@.len(),
                first_interface(self@.interfaces, *riid) == first_interface_from(
                    self@.interfaces,
                    *riid,
                    i as int,
                ),
            decreases self.interfaces@.len() - i,
        {
            if self.interfaces[i].iid_in_inheritance_chain(riid) {
                return Some(i);
            }
            i += 1;
        }
        None
    }

    /// The position of the first aggregation field that advertises `riid`.
    pub fn find_aggregate(&self, riid: &InterfaceId) -> (found: Option<usize>)
        ensures
            match found {
                Some(j) => first_aggregate(self@.aggregates, *riid) == Some(j as int),
                None => first_aggregate(self@.aggregates, *riid) is None,
            },
    {
        let mut j: usize = 0;
        while j < self.aggregates.len()
            invariant
                j <= self.aggregates@.len(),
                first_aggregate(self@.aggregates, *riid) == first_aggregate_from(
                    self@.aggregates,
                    *riid,
                    j as int,
                ),
            decreases self.aggregates@.len() - j,
        {
            if advertises(&self.aggregates[j].advertised, riid) {
                return Some(j);
            }
            j += 1;
        }
        None
    }
}

/// Where a query for an identifier is answered within one object.
#[derive(Clone, Copy, Debug, PartialEq, Eq, Structural)]
pub enum QueryStep {
    /// By the object itself, at the given slot.
    Interface(usize),
    /// By the sub-object held in the aggregation field of the given position.
    Forward(usize),
    /// Nowhere: the object does not offer the interface.
    Missing,
}

impl ClassModel {
    /// First match wins: the unknown identifier is answered by the object's
    /// own unknown interface, which sits after every implemented interface;
    /// then the implemented interfaces are tried in order, each with its
    /// bases; then the aggregation fields in order.
    pub open spec fn query_step(self, riid: InterfaceId) -> QueryStep {
        if riid == InterfaceId::spec_unknown() {
            QueryStep::Interface(self.interfaces.len() as usize)
        } else if let Some(i) = first_interface(self.interfaces, riid) {
            QueryStep::Interface(i as usize)
        } else if let Some(j) = first_aggregate(self.aggregates, riid) {
            QueryStep::Forward(j as usize)
        } else {
            QueryStep::Missing
        }
    }
}

impl ClassDescriptor {
    /// Decides where a query for `riid` on an object of this class is answered.
    pub fn query_step(&self, riid: &InterfaceId) -> (step: QueryStep)
        ensures
            step == self@.query_step(*riid),
            step matches QueryStep::Interface(s) ==> s <= self@.interfaces.len(),
            step matches QueryStep::Forward(j) ==> j < self@.aggregates.len(),
    {
        if riid.is_unknown() {
            return QueryStep::Interface(self.interfaces.len());
        }
        match self.find_interface(riid) {
            Some(i) => {
                proof {
                    lemma_first_interface_from(self@.interfaces, *riid, 0);
                }
                QueryStep::Interface(i)
            },
            None => match self.find_aggregate(riid) {
                Some(j) => {
                    proof {
                        lemma_first_aggregate_from(self@.aggregates, *riid, 0);
                    }
                    QueryStep::Forward(j)
                },
                None => QueryStep::Missing,
            },
        }
    }
}

} // verus!
