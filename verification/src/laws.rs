//! What holds of the object model as a whole, proved from the meaning of
//! its operations.

use crate::descriptor::{
    any_in_chain, first_aggregate, first_interface, lemma_first_aggregate_from,
    lemma_first_interface_from, ClassModel, QueryStep,
};
use crate::iid::InterfaceId;
use crate::layout::InterfacePointer;
use crate::model::{lemma_replace_keeps_wf, ArenaModel, RefOp};
use crate::object::{lemma_fresh_wf, lemma_identity_recovery, Delegation, ObjectModel};
use vstd::prelude::*;

verus! {

/// Identity recovery.  For every interface pointer of a living object,
/// stepping back by the offset that the pointer's dispatch table carries
/// reaches the first slot of the object: the same handle for every
/// interface of that object.
pub proof fn law_identity_recovery<P>(arena: ArenaModel<P>, p: InterfacePointer)
    requires
        arena.wf(),
        arena.valid_pointer(p),
    ensures
        p.spec_recover_base(arena.object(p.object as int).table_at(p.slot as int).slot_offset as usize)
            == InterfacePointer::spec_base_of(p.object),
{
    assert(arena.objects[p.object as int] is Some);
    lemma_identity_recovery(
        arena.object(p.object as int),
        arena.class_of(p.object as int),
        p.object,
        p.slot,
    );
}

/// Identity recovery at allocation.  Every interface pointer of a freshly
/// allocated object, that of its own unknown interface included, steps back
/// to the first slot of the object.
pub proof fn law_identity_recovery_fresh<P>(
    class_id: nat,
    class: ClassModel,
    payload: P,
    object: usize,
    slot: usize,
)
    requires
        slot <= class.interfaces.len(),
    ensures
        (InterfacePointer { object, slot }).spec_recover_base(
            ObjectModel::fresh(class_id, class, payload).table_at(slot as int).slot_offset as usize,
        ) == InterfacePointer::spec_base_of(object),
{
    lemma_fresh_wf(class_id, class, payload);
    lemma_identity_recovery(ObjectModel::fresh(class_id, class, payload), class, object, slot);
}

/// Delegation.  The shared operations called through an interface pointer
/// count on the object that controls the pointer; where that is an outer
/// object, the pointer's own object is left as it was.
pub proof fn law_delegating_calls_leave_inner_object<P>(
    arena: ArenaModel<P>,
    p: InterfacePointer,
    riid: InterfaceId,
)
    requires
        arena.wf(),
        arena.controlling(p) is Some,
        arena.controlling(p)->0 != p.object,
    ensures
        ({
            let c = arena.controlling(p)->0;
            &&& arena.after_add_ref(c).objects[p.object as int] == arena.objects[p.object as int]
            &&& arena.after_release(c).objects[p.object as int] == arena.objects[p.object as int]
            &&& arena.after_query(c, riid).objects[p.object as int] == arena.objects[p.object as int]
        }),
{
    law_controlling_is_live(arena, p);
}

/// The object that controls an interface pointer is alive and is the
/// pointer's own object or one allocated before it.
pub proof fn law_controlling_is_live<P>(arena: ArenaModel<P>, p: InterfacePointer)
    requires
        arena.controlling(p) is Some,
    ensures
        arena.live(arena.controlling(p)->0),
        arena.controlling(p)->0 <= p.object,
    decreases p.object,
{
    let k = p.object as int;
    if p.slot != arena.interface_count(k) {
        match arena.object(k).delegation {
            Delegation::Outer(q) => {
                law_controlling_is_live(arena, q);
            },
            _ => {},
        }
    }
}

/// Query reflexivity.  Asking any living interface pointer for the unknown
/// identifier succeeds: it yields the own unknown interface of the object
/// that controls the pointer, and adds exactly one reference to that object
/// and none to any other.
pub proof fn law_query_unknown_succeeds<P>(arena: ArenaModel<P>, p: InterfacePointer)
    requires
        arena.wf(),
        arena.controlling(p) is Some,
    ensures
        ({
            let c = arena.controlling(p)->0;
            let after = arena.after_query(c, InterfaceId::spec_unknown());
            &&& arena.resolve(c, InterfaceId::spec_unknown()) == Some(
                InterfacePointer { object: c as usize, slot: arena.interface_count(c) as usize },
            )
            &&& after.live(c)
            &&& after.ref_count(c) == arena.ref_count(c) + 1
            &&& forall|i: int| 0 <= i < arena.objects.len() && i != c ==> after.objects[i] == arena.objects[i]
        }),
{
    law_controlling_is_live(arena, p);
}

/// Unknown interface rejection.  An identifier that is not the unknown
/// one, is in the chain of no implemented interface and is advertised by no
/// aggregation field is not found, and the query changes nothing.
pub proof fn law_unoffered_interface_rejected<P>(arena: ArenaModel<P>, k: int, riid: InterfaceId)
    requires
        arena.wf(),
        arena.live(k),
        riid != InterfaceId::spec_unknown(),
        !any_in_chain(arena.class_of(k).interfaces, riid),
        forall|j: int|
            0 <= j < arena.class_of(k).aggregates.len() ==> !any_in_chain(
                #[trigger] arena.class_of(k).aggregates[j],
                riid,
            ),
    ensures
        arena.class_of(k).query_step(riid) == QueryStep::Missing,
        arena.resolve(k, riid) is None,
        arena.after_query(k, riid) == arena,
{
    let class = arena.class_of(k);
    lemma_first_interface_from(class.interfaces, riid, 0);
    lemma_first_aggregate_from(class.aggregates, riid, 0);
    assert(first_interface(class.interfaces, riid) is None);
    assert(first_aggregate(class.aggregates, riid) is None);
}

/// Counting the references of one object leaves every other slot as it was.
pub proof fn law_ops_touch_one_object<P>(arena: ArenaModel<P>, k: int, ops: Seq<RefOp>, i: int)
    requires
        arena.allows_ops(k, ops),
        0 <= i < arena.objects.len(),
        i != k,
    ensures
        arena.after_ops(k, ops).objects.len() == arena.objects.len(),
        arena.after_ops(k, ops).objects[i] == arena.objects[i],
        arena.after_ops(k, ops).classes == arena.classes,
    decreases ops.len(),
{
    if ops.len() > 0 {
        law_ops_touch_one_object(arena, k, ops.drop_last(), i);
    }
}

/// Single teardown.  Along any sequence of add-reference and release calls
/// that a caller may make on an object, the object is torn down at most
/// once; it is torn down exactly when the sequence ends with the release
/// that takes the count from one to zero, and then its slot is empty.
pub proof fn law_torn_down_once<P>(arena: ArenaModel<P>, k: int, ops: Seq<RefOp>)
    requires
        arena.allows_ops(k, ops),
    ensures
        ops.len() > 0 ==> arena.live(k),
        arena.teardowns(k, ops) <= 1,
        arena.teardowns(k, ops) == 1 <==> ops.len() > 0 && ops.last() == RefOp::Release
            && arena.after_ops(k, ops.drop_last()).ref_count(k) == 1,
        arena.teardowns(k, ops) == 1 <==> arena.live(k) && !arena.after_ops(k, ops).live(k),
        arena.teardowns(k, ops) == 0 && arena.live(k) ==> arena.after_ops(k, ops).live(k),
        arena.after_ops(k, ops).torn_down_count() == arena.torn_down_count() + arena.teardowns(k, ops),
    decreases ops.len(),
{
    if ops.len() > 0 {
        let prefix = ops.drop_last();
        let before = arena.after_ops(k, prefix);
        let after = before.after_op(k, ops.last());
        if after.live(k) {
            lemma_torn_down_upto_agrees(before, after, before.objects.len() as int);
        } else {
            lemma_torn_down_upto_grows(before, k, before.objects.len() as int);
        }
        law_torn_down_once(arena, k, prefix);
        assert(before.live(k));
        if prefix.len() == 0 {
            assert(before == arena);
        }
    } else {
        assert(arena.after_ops(k, ops) == arena);
    }
}

/// Arenas whose first `n` slots are empty in the same places have equally
/// many empty slots among them.
pub proof fn lemma_torn_down_upto_agrees<P>(one: ArenaModel<P>, other: ArenaModel<P>, n: int)
    requires
        forall|i: int| 0 <= i < n ==> (one.objects[i] is None) == (other.objects[i] is None),
    ensures
        one.torn_down_upto(n) == other.torn_down_upto(n),
    decreases n,
{
    if n > 0 {
        lemma_torn_down_upto_agrees(one, other, n - 1);
    }
}

/// Tearing down the living object in slot `k` adds one empty slot to every
/// range that holds `k`.
pub proof fn lemma_torn_down_upto_grows<P>(arena: ArenaModel<P>, k: int, n: int)
    requires
        arena.live(k),
        n <= arena.objects.len(),
    ensures
        arena.torn_down(k).torn_down_upto(n) == arena.torn_down_upto(n) + if k < n {
            1nat
        } else {
            0nat
        },
    decreases n,
{
    if n > 0 {
        lemma_torn_down_upto_grows(arena, k, n - 1);
    }
}

/// What a query yields does not depend on any reference count.
pub proof fn lemma_resolve_ignores_counts<P>(
    arena: ArenaModel<P>,
    a: int,
    count: nat,
    k: int,
    riid: InterfaceId,
)
    requires
        arena.live(a),
    ensures
        arena.with_ref_count(a, count).resolve(k, riid) == arena.resolve(k, riid),
    decreases arena.objects.len() - k,
{
    let counted = arena.with_ref_count(a, count);
    if arena.live(k) {
        assert(counted.live(k));
        assert(counted.class_of(k) == arena.class_of(k));
        match arena.class_of(k).query_step(riid) {
            QueryStep::Forward(j) => {
                assert(counted.object(k).aggregates == arena.object(k).aggregates);
                if 0 <= j < arena.object(k).aggregates.len() {
                    match arena.object(k).aggregates[j as int] {
                        Some(b) => {
                            if k < b.object && arena.live(b.object as int) {
                                assert(counted.live(b.object as int));
                                assert(counted.class_of(b.object as int) == arena.class_of(
                                    b.object as int,
                                ));
                                lemma_resolve_ignores_counts(arena, a, count, b.object as int, riid);
                            }
                        },
                        None => {},
                    }
                }
            },
            _ => {},
        }
    }
}

/// Which object controls an interface pointer does not depend on any
/// reference count.
pub proof fn lemma_controlling_ignores_counts<P>(
    arena: ArenaModel<P>,
    a: int,
    count: nat,
    p: InterfacePointer,
)
    requires
        arena.live(a),
    ensures
        arena.with_ref_count(a, count).controlling(p) == arena.controlling(p),
    decreases p.object,
{
    let counted = arena.with_ref_count(a, count);
    let k = p.object as int;
    if arena.live(k) {
        assert(counted.live(k));
        assert(counted.class_of(k) == arena.class_of(k));
        assert(counted.object(k).delegation == arena.object(k).delegation);
        match arena.object(k).delegation {
            Delegation::Outer(q) => {
                if q.object < p.object {
                    lemma_controlling_ignores_counts(arena, a, count, q);
                }
            },
            _ => {},
        }
    }
}

/// Queries that succeed on an object add up on that object's count alone.
pub proof fn lemma_queries_add_up<P>(arena: ArenaModel<P>, a: int, riid: InterfaceId, n: nat)
    requires
        arena.live(a),
        arena.resolve(a, riid) is Some,
    ensures
        arena.after_queries(a, riid, n) == arena.with_ref_count(a, arena.ref_count(a) + n),
    decreases n,
{
    if n == 0 {
        assert(arena.with_ref_count(a, arena.ref_count(a)).objects =~= arena.objects);
    } else {
        lemma_queries_add_up(arena, a, riid, (n - 1) as nat);
        let before = arena.with_ref_count(a, (arena.ref_count(a) + n - 1) as nat);
        lemma_resolve_ignores_counts(arena, a, (arena.ref_count(a) + n - 1) as nat, a, riid);
        assert(before.after_add_ref(a).objects =~= arena.with_ref_count(
            a,
            arena.ref_count(a) + n,
        ).objects);
    }
}

/// Releases through a pointer that an object controls come off that
/// object's count alone, as long as references remain.
pub proof fn lemma_releases_come_off<P>(
    arena: ArenaModel<P>,
    a: int,
    p: InterfacePointer,
    n: nat,
)
    requires
        arena.controlling(p) == Some(a),
        arena.ref_count(a) > n,
    ensures
        arena.after_releases_through(p, n) == arena.with_ref_count(
            a,
            (arena.ref_count(a) - n) as nat,
        ),
    decreases n,
{
    law_controlling_is_live(arena, p);
    if n == 0 {
        assert(arena.with_ref_count(a, arena.ref_count(a)).objects =~= arena.objects);
    } else {
        lemma_releases_come_off(arena, a, p, (n - 1) as nat);
        let left = (arena.ref_count(a) - (n - 1)) as nat;
        let before = arena.with_ref_count(a, left);
        lemma_controlling_ignores_counts(arena, a, left, p);
        assert(before.after_release(a).objects =~= arena.with_ref_count(
            a,
            (arena.ref_count(a) - n) as nat,
        ).objects);
    }
}

/// Aggregation neutrality.  Let an object forward queries for `riid` to a
/// sub-object that offers it.  Then `n` such queries through the outer
/// object all yield the same pointer, raise the outer object's count by `n`
/// and leave every other object, the sub-object and its count included, as
/// it was.  Where the outer object controls the pointer that was handed out
/// and was itself held by a reference, `n` releases through that pointer
/// bring the whole arena back to where it started.
pub proof fn law_aggregation_neutral<P>(arena: ArenaModel<P>, a: int, riid: InterfaceId, n: nat)
    requires
        arena.wf(),
        arena.live(a),
        arena.class_of(a).query_step(riid) is Forward,
        arena.resolve(a, riid) is Some,
    ensures
        ({
            let sub = arena.sub_object(a, arena.class_of(a).query_step(riid)->Forward_0 as int);
            let handed_out = arena.resolve(a, riid)->0;
            let queried = arena.after_queries(a, riid, n);
            &&& sub is Some
            &&& arena.resolve(sub->0, riid) == Some(handed_out)
            &&& queried.resolve(a, riid) == Some(handed_out)
            &&& queried.live(a) && queried.ref_count(a) == arena.ref_count(a) + n
            &&& queried.objects.len() == arena.objects.len()
            &&& forall|i: int| 0 <= i < arena.objects.len() && i != a ==> queried.objects[i] == arena.objects[i]
            &&& queried.objects[sub->0] == arena.objects[sub->0]
            &&& arena.controlling(handed_out) == Some(a) && arena.ref_count(a) >= 1
                ==> queried.after_releases_through(handed_out, n) == arena
        }),
{
    let count = arena.ref_count(a);
    let handed_out = arena.resolve(a, riid)->0;
    lemma_queries_add_up(arena, a, riid, n);
    lemma_resolve_ignores_counts(arena, a, count + n, a, riid);
    let queried = arena.after_queries(a, riid, n);
    if arena.controlling(handed_out) == Some(a) && count >= 1 {
        lemma_controlling_ignores_counts(arena, a, count + n, handed_out);
        lemma_releases_come_off(queried, a, handed_out, n);
        assert(queried.with_ref_count(a, count).objects =~= arena.objects);
    }
}

/// Whether the counts allow a query on an object does not depend on the
/// count of an object allocated before it.
pub proof fn lemma_admits_ignores_earlier_counts<P>(
    arena: ArenaModel<P>,
    a: int,
    count: nat,
    k: int,
    riid: InterfaceId,
)
    requires
        arena.live(a),
        a < k,
    ensures
        arena.with_ref_count(a, count).admits_query(k, riid) == arena.admits_query(k, riid),
    decreases arena.objects.len() - k,
{
    let counted = arena.with_ref_count(a, count);
    lemma_resolve_ignores_counts(arena, a, count, k, riid);
    if arena.live(k) && arena.resolve(k, riid) is Some {
        assert(counted.objects[k] == arena.objects[k]);
        match arena.class_of(k).query_step(riid) {
            QueryStep::Forward(j) => {
                match arena.sub_object(k, j as int) {
                    Some(b) => {
                        assert(counted.objects[b] == arena.objects[b]);
                        assert(counted.sub_object(k, j as int) == Some(b));
                        lemma_admits_ignores_earlier_counts(arena, a, count, b, riid);
                    },
                    None => {},
                }
            },
            _ => {},
        }
    }
}

/// Queries through an outer object stay admissible.  Where the counts allow
/// a query for `riid` on an object and its count has room for `n` more
/// references, the counts allow each of `n` queries in a row.
pub proof fn law_repeated_queries_admitted<P>(
    arena: ArenaModel<P>,
    a: int,
    riid: InterfaceId,
    n: nat,
    done: nat,
)
    requires
        arena.wf(),
        arena.live(a),
        arena.admits_query(a, riid),
        arena.resolve(a, riid) is Some,
        arena.ref_count(a) + n <= u32::MAX,
        done < n,
    ensures
        arena.after_queries(a, riid, done).live(a),
        arena.after_queries(a, riid, done).wf(),
        arena.after_queries(a, riid, done).admits_query(a, riid),
{
    let count = arena.ref_count(a) + done;
    let queried = arena.with_ref_count(a, count);
    lemma_queries_add_up(arena, a, riid, done);
    lemma_resolve_ignores_counts(arena, a, count, a, riid);
    assert(arena.objects[a] is Some);
    lemma_replace_keeps_wf(
        arena,
        a,
        ObjectModel { ref_count: count, ..arena.object(a) },
    );
    match arena.class_of(a).query_step(riid) {
        QueryStep::Forward(j) => {
            match arena.sub_object(a, j as int) {
                Some(b) => {
                    assert(queried.objects[b] == arena.objects[b]);
                    assert(queried.sub_object(a, j as int) == Some(b));
                    lemma_admits_ignores_earlier_counts(arena, a, count, b, riid);
                },
                None => {},
            }
        },
        _ => {},
    }
}

} // verus!
