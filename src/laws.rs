use vstd::prelude::*;
use crate::screens::Mode;
use crate::query::{
    finalise_head, first_preferred, resolve_modes, unset_head, Action, Anomaly, Event,
    HeadAttribute, HeadModel, QueryModel,
};
use crate::query::lemma_step_wf;

verus! {

/// The state after handing every event of `evs` to the state machine, in order.
pub open spec fn run(m: QueryModel, evs: Seq<Event>) -> QueryModel
    decreases evs.len(),
{
    if evs.len() == 0 {
        m
    } else {
        run(m, evs.drop_last()).step(evs.last()).0
    }
}

/// Whether `e` reports the creation of head `id`.
pub open spec fn creates_head(e: Event, id: u32) -> bool {
    match e {
        Event::HeadCreated { head } => head == id,
        _ => false,
    }
}

/// Whether `e` ends the batch.
pub open spec fn completes_batch(e: Event) -> bool {
    match e {
        Event::BatchComplete => true,
        _ => false,
    }
}

/// The first mode flagged as preferred, stated by position: the result is
/// the mode at the smallest index whose flag is set, or `None` when no
/// mode has it.
pub proof fn lemma_first_preferred(modes: Seq<Mode>)
    ensures
        match first_preferred(modes) {
            Some(p) => exists|j: int|
                0 <= j < modes.len() && modes[j] == p && p.preferred && forall|i: int|
                    0 <= i < j ==> !(#[trigger] modes[i]).preferred,
            None => forall|i: int| 0 <= i < modes.len() ==> !(#[trigger] modes[i]).preferred,
        },
    decreases modes.len(),
{
    if modes.len() > 0 && !modes[0].preferred {
        let rest = modes.drop_first();
        lemma_first_preferred(rest);
        match first_preferred(rest) {
            Some(p) => {
                let j = choose|j: int|
                    0 <= j < rest.len() && rest[j] == p && p.preferred && forall|i: int|
                        0 <= i < j ==> !(#[trigger] rest[i]).preferred;
                assert(modes[j + 1] == p);
                assert forall|i: int| 0 <= i < j + 1 implies !(#[trigger] modes[i]).preferred by {
                    if i > 0 {
                        assert(modes[i] == rest[i - 1]);
                    }
                }
            },
            None => {
                assert forall|i: int| 0 <= i < modes.len() implies !(#[trigger] modes[i]).preferred by {
                    if i > 0 {
                        assert(modes[i] == rest[i - 1]);
                    }
                }
            },
        }
    } else if modes.len() > 0 {
        assert(modes[0] == modes[0]);
    }
}

/// Every snapshot taken at the end of a batch has as its preferred mode the
/// first of its modes flagged as preferred, or none when no mode is
/// flagged, whatever its current mode is.
pub proof fn lemma_preferred_is_first_flagged(m: QueryModel, k: int)
    requires
        m.running,
        0 <= k < m.step(Event::BatchComplete).0.finalised.len(),
    ensures
        ({
            let o = m.step(Event::BatchComplete).0.finalised[k];
            match o.preferred_mode {
                Some(p) => exists|j: int|
                    0 <= j < o.modes.len() && o.modes[j] == p && p.preferred && forall|i: int|
                        0 <= i < j ==> !(#[trigger] o.modes[i]).preferred,
                None => forall|i: int| 0 <= i < o.modes.len() ==> !(#[trigger] o.modes[i]).preferred,
            }
        }),
{
    let o = m.step(Event::BatchComplete).0.finalised[k];
    lemma_first_preferred(o.modes);
}

/// An attribute event for a head or a mode that was never created changes
/// nothing and is reported as an anomaly.
pub proof fn lemma_unknown_reference_is_noop(m: QueryModel, e: Event)
    requires
        m.running,
        match e {
            Event::HeadAttribute { head, attribute } => !m.heads.contains_key(head),
            Event::ModeAttribute { mode, attribute } => !m.modes.contains_key(mode),
            _ => false,
        },
    ensures
        m.step(e).0 == m,
        match e {
            Event::HeadAttribute { head, attribute } => m.step(e).1 == Action::Warn(
                Anomaly::UnknownHead(head),
            ),
            Event::ModeAttribute { mode, attribute } => m.step(e).1 == Action::Warn(
                Anomaly::UnknownMode(mode),
            ),
            _ => false,
        },
{
}

/// Once a batch is complete no event changes the state, and a second
/// completion leaves the snapshot as the first one took it.
pub proof fn lemma_after_batch_complete(m: QueryModel, e: Event)
    ensures
        m.step(Event::BatchComplete).0.step(e).0 == m.step(Event::BatchComplete).0,
        m.step(Event::BatchComplete).0.step(Event::BatchComplete).0.finalised == m.step(
            Event::BatchComplete,
        ).0.finalised,
{
}

/// Which of the five head attributes `a` reports.
pub open spec fn attribute_kind(a: HeadAttribute) -> int {
    match a {
        HeadAttribute::Name(_) => 0,
        HeadAttribute::Description(_) => 1,
        HeadAttribute::Enabled(_) => 2,
        HeadAttribute::Scale(_) => 3,
        HeadAttribute::Position(_) => 4,
    }
}

/// The last report of attribute `kind` for head `id` in `evs` that follows
/// the last creation of `id`, if any.
pub open spec fn last_write(evs: Seq<Event>, id: u32, kind: int) -> Option<HeadAttribute>
    decreases evs.len(),
{
    if evs.len() == 0 {
        None
    } else {
        match evs.last() {
            Event::HeadCreated { head } => if head == id {
                None
            } else {
                last_write(evs.drop_last(), id, kind)
            },
            Event::HeadAttribute { head, attribute } => if head == id && attribute_kind(attribute)
                == kind {
                Some(attribute)
            } else {
                last_write(evs.drop_last(), id, kind)
            },
            _ => last_write(evs.drop_last(), id, kind),
        }
    }
}

/// Head `id` as it stood at its last creation in `evs`, or in `m` when
/// `evs` does not create it.
pub open spec fn head_base(m: QueryModel, evs: Seq<Event>, id: u32) -> HeadModel
    decreases evs.len(),
{
    if evs.len() == 0 {
        m.heads[id]
    } else if creates_head(evs.last(), id) {
        unset_head()
    } else {
        head_base(m, evs.drop_last(), id)
    }
}

/// Whether the five attributes of `h` are those last written in `evs` for
/// head `id`, or those of `base` where `evs` writes none.
pub open spec fn holds_last_writes(h: HeadModel, base: HeadModel, evs: Seq<Event>, id: u32) -> bool {
    &&& h.name == match last_write(evs, id, 0) {
        Some(HeadAttribute::Name(n)) => n@,
        _ => base.name,
    }
    &&& h.description == match last_write(evs, id, 1) {
        Some(HeadAttribute::Description(d)) => d@,
        _ => base.description,
    }
    &&& h.enabled == match last_write(evs, id, 2) {
        Some(HeadAttribute::Enabled(e)) => e,
        _ => base.enabled,
    }
    &&& h.scale == match last_write(evs, id, 3) {
        Some(HeadAttribute::Scale(sc)) => sc,
        _ => base.scale,
    }
    &&& h.position == match last_write(evs, id, 4) {
        Some(HeadAttribute::Position(p)) => Some(p),
        _ => base.position,
    }
}

/// Running a sequence without a batch completion keeps the state running and
/// well formed, and keeps every head it had.
pub proof fn lemma_run_keeps_heads(m: QueryModel, evs: Seq<Event>)
    requires
        m.wf(),
        m.running,
        forall|i: int| 0 <= i < evs.len() ==> !completes_batch(#[trigger] evs[i]),
    ensures
        run(m, evs).wf(),
        run(m, evs).running,
        forall|k: u32| m.heads.contains_key(k) ==> run(m, evs).heads.contains_key(k),
        forall|i: int, k: u32|
            0 <= i < evs.len() && #[trigger] creates_head(evs[i], k) ==> run(
                m,
                evs,
            ).heads.contains_key(k),
    decreases evs.len(),
{
    if evs.len() > 0 {
        let prev = evs.drop_last();
        assert forall|i: int| 0 <= i < prev.len() implies !completes_batch(#[trigger] prev[i]) by {
            assert(prev[i] == evs[i]);
        }
        lemma_run_keeps_heads(m, prev);
        lemma_step_wf(run(m, prev), evs.last());
        assert forall|i: int, k: u32|
            0 <= i < evs.len() && #[trigger] creates_head(evs[i], k) implies run(
                m,
                evs,
            ).heads.contains_key(k) by {
            if i < prev.len() {
                assert(prev[i] == evs[i]);
            }
        }
    }
}

/// Last write wins: in any sequence of events before the batch completes,
/// each attribute of a head ends as the last value reported for it since
/// the head was created, however the events of other heads and modes
/// interleave; and the head's snapshot at the end of the batch carries
/// those values.
pub proof fn lemma_last_write_wins(m: QueryModel, evs: Seq<Event>, id: u32)
    requires
        m.wf(),
        m.running,
        m.heads.contains_key(id) || exists|i: int| 0 <= i < evs.len() && creates_head(#[trigger] evs[i], id),
        forall|i: int| 0 <= i < evs.len() ==> !completes_batch(#[trigger] evs[i]),
    ensures
        run(m, evs).heads.contains_key(id),
        holds_last_writes(run(m, evs).heads[id], head_base(m, evs, id), evs, id),
        ({
            let r = run(m, evs);
            let fin = r.step(Event::BatchComplete).0.finalised;
            let k = r.order.index_of(id);
            &&& 0 <= k < fin.len()
            &&& fin[k] == finalise_head(r.heads[id], r.modes)
        }),
    decreases evs.len(),
{
    lemma_run_keeps_heads(m, evs);
    let r = run(m, evs);
    if evs.len() > 0 {
        let prev = evs.drop_last();
        let e = evs.last();
        assert forall|i: int| 0 <= i < prev.len() implies !completes_batch(#[trigger] prev[i]) by {
            assert(prev[i] == evs[i]);
        }
        lemma_run_keeps_heads(m, prev);
        if !creates_head(e, id) {
            if !m.heads.contains_key(id) {
                let i = choose|i: int| 0 <= i < evs.len() && creates_head(#[trigger] evs[i], id);
                assert(i < prev.len());
                assert(prev[i] == evs[i]);
            }
            lemma_last_write_wins(m, prev, id);
        }
    }
    assert(r.order.contains(id));
    let k = r.order.index_of(id);
}

/// The identifiers of the modes that `evs` creates for head `id`, in order.
pub open spec fn modes_created_for(evs: Seq<Event>, id: u32) -> Seq<u32>
    decreases evs.len(),
{
    if evs.len() == 0 {
        Seq::empty()
    } else {
        let rest = modes_created_for(evs.drop_last(), id);
        match evs.last() {
            Event::ModeCreated { head, mode } => if head == id {
                rest.push(mode)
            } else {
                rest
            },
            _ => rest,
        }
    }
}

/// Whether `x` is one of the modes that `ids` names in `modes`.
pub open spec fn resolves_to(ids: Seq<u32>, modes: Map<u32, Mode>, x: Mode) -> bool {
    exists|i: int| 0 <= i < ids.len() && modes.contains_key(ids[i]) && modes[ids[i]] == x
}

/// Resolving identifiers keeps exactly the modes they name, in their order.
pub proof fn lemma_resolve_modes(ids: Seq<u32>, modes: Map<u32, Mode>, more: Seq<u32>)
    ensures
        resolve_modes(ids + more, modes) == resolve_modes(ids, modes) + resolve_modes(more, modes),
        forall|x: Mode| resolve_modes(ids, modes).contains(x) <==> resolves_to(ids, modes, x),
        resolve_modes(ids, modes).len() <= ids.len(),
    decreases ids.len() + more.len(),
{
    if more.len() > 0 {
        lemma_resolve_modes(ids, modes, more.drop_last());
        assert((ids + more).drop_last() == ids + more.drop_last());
    } else {
        assert(ids + more == ids);
        if ids.len() > 0 {
            let prev = ids.drop_last();
            lemma_resolve_modes(prev, modes, more);
            assert forall|x: Mode| resolve_modes(ids, modes).contains(x) <==> resolves_to(
                ids,
                modes,
                x,
            ) by {
                if resolves_to(ids, modes, x) {
                    let i = choose|i: int|
                        0 <= i < ids.len() && modes.contains_key(ids[i]) && modes[ids[i]] == x;
                    let rp = resolve_modes(prev, modes);
                    let rm = resolve_modes(ids, modes);
                    if i < prev.len() {
                        assert(prev[i] == ids[i]);
                        assert(resolves_to(prev, modes, x));
                        let j = choose|j: int| 0 <= j < rp.len() && rp[j] == x;
                        assert(rm[j] == x);
                    } else {
                        assert(rm[rm.len() - 1] == x);
                    }
                    assert(rm.contains(x));
                }
                if resolve_modes(ids, modes).contains(x) {
                    let rp = resolve_modes(prev, modes);
                    let rm = resolve_modes(ids, modes);
                    if rp.contains(x) {
                        assert(resolves_to(prev, modes, x));
                        let i = choose|i: int|
                            0 <= i < prev.len() && modes.contains_key(prev[i]) && modes[prev[i]]
                                == x;
                        assert(ids[i] == prev[i]);
                    } else {
                        let j = choose|j: int| 0 <= j < rm.len() && rm[j] == x;
                        if modes.contains_key(ids.last()) {
                            if j < rp.len() {
                                assert(rp[j] == x);
                            }
                            assert(modes[ids[ids.len() - 1]] == x);
                        } else {
                            assert(rp[j] == x);
                        }
                    }
                }
            }
        }
    }
}

/// The modes of a head are those created for it, in creation order: over
/// any sequence of events before the batch completes that does not create
/// the head anew, its mode identifiers grow by exactly the modes that the
/// sequence creates for it, and its snapshot lists exactly the modes among
/// them (and among those it had) that resolve, in that order.
pub proof fn lemma_modes_in_creation_order(m: QueryModel, evs: Seq<Event>, id: u32)
    requires
        m.wf(),
        m.running,
        m.heads.contains_key(id),
        forall|i: int|
            0 <= i < evs.len() ==> !completes_batch(#[trigger] evs[i]) && !creates_head(evs[i], id),
    ensures
        run(m, evs).heads.contains_key(id),
        run(m, evs).heads[id].mode_ids == m.heads[id].mode_ids + modes_created_for(evs, id),
        ({
            let r = run(m, evs);
            let fin = r.step(Event::BatchComplete).0.finalised;
            let k = r.order.index_of(id);
            let ids = m.heads[id].mode_ids + modes_created_for(evs, id);
            &&& 0 <= k < fin.len()
            &&& fin[k].modes == resolve_modes(ids, r.modes)
            &&& forall|x: Mode| fin[k].modes.contains(x) <==> resolves_to(ids, r.modes, x)
        }),
    decreases evs.len(),
{
    assert forall|i: int| 0 <= i < evs.len() implies !completes_batch(#[trigger] evs[i]) by {}
    lemma_run_keeps_heads(m, evs);
    let r = run(m, evs);
    if evs.len() > 0 {
        let prev = evs.drop_last();
        assert forall|i: int|
            0 <= i < prev.len() implies !completes_batch(#[trigger] prev[i]) && !creates_head(
                prev[i],
                id,
            ) by {
            assert(prev[i] == evs[i]);
        }
        lemma_modes_in_creation_order(m, prev, id);
        let base = m.heads[id].mode_ids;
        match evs.last() {
            Event::ModeCreated { head, mode } => {
                if head == id {
                    assert(base + modes_created_for(evs, id) == (base + modes_created_for(
                        prev,
                        id,
                    )).push(mode));
                }
            },
            _ => {},
        }
    }
    assert(r.order.contains(id));
    let ids = m.heads[id].mode_ids + modes_created_for(evs, id);
    lemma_resolve_modes(ids, r.modes, Seq::empty());
}

} // verus!
