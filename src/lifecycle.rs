//! Facts about sequences of structural operations on a registry.
use vstd::prelude::*;

use crate::entity::table_wf;
use crate::kinds::Kind;
use crate::registry::{aligned, attached, committed, issued, registered, withdrawn, Registry};

verus! {

/// Issuing an identity, releasing one or registering a kind keeps every
/// column exactly as long as the identity table.
pub proof fn lemma_structural_steps_keep_alignment<V>(
    old: Registry<V>,
    new: Registry<V>,
    id: usize,
    kind: Kind,
)
    requires
        old.wf(),
        issued(old, new, id) || withdrawn(old, new, id) || registered(old, new, kind),
    ensures
        aligned(new),
{
    if issued(old, new, id) {
        if old.released().len() > 0 {
            assert(old.released()[old.released().len() - 1] < old.entities().len());
        }
        assert forall|k: Kind| #[trigger] new.columns().contains_key(k) implies new.columns()[k].len()
            == new.entities().len() by {
            assert(old.columns().contains_key(k));
        }
    } else if withdrawn(old, new, id) {
        assert forall|k: Kind| #[trigger] new.columns().contains_key(k) implies new.columns()[k].len()
            == new.entities().len() by {
            assert(old.columns().contains_key(k));
        }
    } else {
        assert forall|k: Kind| #[trigger] new.columns().contains_key(k) implies new.columns()[k].len()
            == new.entities().len() by {
            if k != kind {
                assert(old.columns().contains_key(k));
            }
        }
    }
}

/// Once an active identity is released, the next identity issued is that
/// same id, and it reads as empty in every column.
pub proof fn lemma_reissued_id_reads_empty<V>(
    r0: Registry<V>,
    r1: Registry<V>,
    r2: Registry<V>,
    id: usize,
    reused: usize,
)
    requires
        r0.wf(),
        id < r0.entities().len(),
        r0.entities()[id as int].is_active,
        withdrawn(r0, r1, id),
        issued(r1, r2, reused),
    ensures
        reused == id,
        forall|k: Kind| #[trigger] r2.columns().contains_key(k) ==> r2.columns()[k][id as int] is None,
{
    assert(r1.released().last() == id);
    assert forall|k: Kind| #[trigger] r2.columns().contains_key(k) implies r2.columns()[k][id as int] is None by {
        assert(r1.columns().contains_key(k));
        assert(r0.columns().contains_key(k));
        assert(r1.columns()[k].len() == r0.entities().len());
    }
}

/// A slot keeps its content until a value is attached at that very id and
/// kind: attaching elsewhere, or recording an identity's kinds, leaves it as
/// it was.
pub proof fn lemma_slot_kept_until_attached<V>(
    old: Registry<V>,
    new: Registry<V>,
    id: usize,
    kind: Kind,
    other_id: usize,
    other_kind: Kind,
    value: V,
    kinds: Set<Kind>,
)
    requires
        old.wf(),
        old.columns().contains_key(kind),
        id < old.entities().len(),
        other_id < old.entities().len(),
        other_id != id || other_kind != kind,
        attached(old, new, other_id, other_kind, value) || committed(old, new, other_id, kinds),
    ensures
        new.columns().contains_key(kind),
        new.columns()[kind][id as int] == old.columns()[kind][id as int],
{
    if attached(old, new, other_id, other_kind, value) && other_kind == kind {
        assert(old.columns()[kind].len() == old.entities().len());
        assert(new.columns()[kind] == old.columns()[kind].update(other_id as int, Some(value)));
    }
}

/// Released ids are reused last released first: releasing `a` and then `b`
/// makes the next two identities issued `b` and then `a`.
pub proof fn lemma_release_order_reversed<V>(
    r0: Registry<V>,
    r1: Registry<V>,
    r2: Registry<V>,
    r3: Registry<V>,
    r4: Registry<V>,
    a: usize,
    b: usize,
    first: usize,
    second: usize,
)
    requires
        r0.wf(),
        a != b,
        a < r0.entities().len() && r0.entities()[a as int].is_active,
        b < r0.entities().len() && r0.entities()[b as int].is_active,
        withdrawn(r0, r1, a),
        withdrawn(r1, r2, b),
        issued(r2, r3, first),
        issued(r3, r4, second),
    ensures
        first == b,
        second == a,
{
    assert(r1.entities()[b as int] == r0.entities()[b as int]);
    assert(r2.released() == r0.released().push(a).push(b));
    assert(r3.released() == r0.released().push(a));
}

/// Releasing an id that is out of range or already released changes
/// nothing, and the release stack stays free of repeats.
pub proof fn lemma_release_of_inactive_is_noop<V>(old: Registry<V>, new: Registry<V>, id: usize)
    requires
        old.wf(),
        !(id < old.entities().len() && old.entities()[id as int].is_active),
        withdrawn(old, new, id),
    ensures
        new.columns() == old.columns(),
        new.entities() == old.entities(),
        new.released() == old.released(),
        table_wf(new.entities(), new.released()),
{
}

} // verus!
