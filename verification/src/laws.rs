//! The guarantees the lifecycle engine gives, stated and proved over the
//! spec-level model: spawn geometry, marker discipline, sweep idempotence,
//! liveness until the deadline, and cascading removal.

use vstd::prelude::*;

use crate::geom::Orientation;
use crate::geom::Vec3Fx;
use crate::tracer::TRACER_DURATION_MILLIS;
use crate::tracer::plan_for;
use crate::world::Entity;
use crate::world::expired_at;
use crate::world::lemma_swept_membership;
use crate::world::root_alive;
use crate::world::survives;
use crate::world::swept;
use crate::world::unique_ids;
use crate::world::wf_entity;
use crate::world::wf_seq;

verus! {

/// For every non-degenerate descriptor, the planned beam spans exactly
/// `origin -> end`: its direction is `end - origin`, its squared length is
/// exactly `|end - origin|^2`, its midpoint offset is `(end - origin) / 2`
/// on the grid, and its orientation is the identity precisely when the
/// direction already lies on the canonical beam axis.
pub proof fn lemma_beam_geometry(origin: Vec3Fx, end: Vec3Fx, now: u64)
    requires
        origin.in_range(),
        end.in_range(),
        end != origin,
    ensures
        plan_for(origin, end, now).beam matches Some(b) && {
            &&& b.dir == Vec3Fx::diff(end, origin)
            &&& b.len_sq == b.dir.spec_norm_sq()
            &&& b.midpoint == b.dir.spec_half()
            &&& (b.orientation == Orientation::Identity <==> b.dir.points_up())
        },
{
    let dir = Vec3Fx::diff(end, origin);
    crate::geom::lemma_square_bound(dir.x as int);
    crate::geom::lemma_square_bound(dir.y as int);
    crate::geom::lemma_square_bound(dir.z as int);
    assert(0 <= dir.spec_norm_sq() <= i64::MAX);
}

/// Every spawn attaches exactly one expiry marker, with the fixed duration,
/// created at spawn time; and in any well-formed store the tracer roots are
/// exactly the entities carrying a marker, always with that duration.
pub proof fn lemma_marker_discipline(origin: Vec3Fx, end: Vec3Fx, now: u64, s: Seq<Entity>)
    requires
        wf_seq(s),
    ensures
        plan_for(origin, end, now).marker.created_at == now,
        plan_for(origin, end, now).marker.duration == TRACER_DURATION_MILLIS,
        forall|i: int|
            0 <= i < s.len() && (#[trigger] s[i]).kind is Root ==> (s[i].marker matches Some(m)
                && m.duration == TRACER_DURATION_MILLIS),
        forall|i: int|
            0 <= i < s.len() && !((#[trigger] s[i]).kind is Root) ==> s[i].marker is None,
{
    assert forall|i: int| 0 <= i < s.len() implies (((#[trigger] s[i]).kind is Root
        ==> (s[i].marker matches Some(m) && m.duration == TRACER_DURATION_MILLIS)) && (!(s[i].kind
        is Root) ==> s[i].marker is None)) by {
        assert(wf_entity(s, s[i]));
    }
}

/// The sweep is idempotent: sweeping the result of a sweep again, with the
/// clock unchanged, removes nothing further and returns it unchanged.
pub proof fn lemma_sweep_idempotent(s: Seq<Entity>, now: u64)
    ensures
        swept(swept(s, now), now) == swept(s, now),
{
    let t = swept(s, now);
    lemma_swept_membership(s, now);
    assert forall|j: int| 0 <= j < t.len() implies survives(t, #[trigger] t[j], now) by {
        let e = t[j];
        assert(survives(s, e, now));
        match e.marker {
            Some(_) => {},
            None => match e.parent {
                Some(p) => {
                    assert(root_alive(s, p, now));
                    let w = choose|w: int|
                        0 <= w < s.len() && (#[trigger] s[w]).id == p && match s[w].marker {
                            Some(m) => !expired_at(m, now),
                            None => false,
                        };
                    assert(survives(s, s[w], now));
                    assert(t.contains(s[w]));
                    let v = choose|v: int| 0 <= v < t.len() && t[v] == s[w];
                    assert(0 <= v < t.len() && t[v].id == p && match t[v].marker {
                        Some(m) => !expired_at(m, now),
                        None => false,
                    });
                },
                None => {},
            },
        }
    }
    crate::world::lemma_filter_all(t, crate::world::sweep_pred(t, now));
}

/// Liveness up to the deadline: a tracer root whose marker has not passed
/// its deadline at `now` survives a sweep at `now`, and so does every
/// entity parented to it. With `created_at == t0` and the fixed duration,
/// this keeps the whole family queryable for every sweep time
/// `t0 <= now <= t0 + duration`.
pub proof fn lemma_live_tracer_present(s: Seq<Entity>, now: u64, i: int)
    requires
        wf_seq(s),
        0 <= i < s.len(),
        s[i].marker matches Some(m) && now <= m.created_at + m.duration,
    ensures
        swept(s, now).contains(s[i]),
        forall|j: int|
            0 <= j < s.len() && (#[trigger] s[j]).parent == Some(s[i].id) ==> swept(
                s,
                now,
            ).contains(s[j]),
{
    lemma_swept_membership(s, now);
    assert(survives(s, s[i], now));
    assert forall|j: int|
        0 <= j < s.len() && (#[trigger] s[j]).parent == Some(s[i].id) implies swept(
        s,
        now,
    ).contains(s[j]) by {
        assert(wf_entity(s, s[j]));
        assert(s[j].marker is None);
        assert(root_alive(s, s[i].id, now));
        assert(survives(s, s[j], now));
    }
}

/// The store after a whole series of sweeps, one per tick, in order.
pub open spec fn swept_many(s: Seq<Entity>, ts: Seq<u64>) -> Seq<Entity>
    decreases ts.len(),
{
    if ts.len() == 0 {
        s
    } else {
        swept_many(swept(s, ts[0]), ts.subrange(1, ts.len() as int))
    }
}

/// Liveness across ticks: a tracer root, and any child parented to it,
/// stays queryable through every series of sweeps whose times all lie at
/// or before the root's deadline `created_at + duration`.
pub proof fn lemma_family_present_through(
    s: Seq<Entity>,
    ts: Seq<u64>,
    root: Entity,
    child: Entity,
)
    requires
        s.contains(root),
        root.marker is Some,
        forall|k: int|
            0 <= k < ts.len() ==> ts[k] <= root.marker->0.created_at + root.marker->0.duration,
        s.contains(child),
        child.marker is None,
        child.parent == Some(root.id),
    ensures
        swept_many(s, ts).contains(root),
        swept_many(s, ts).contains(child),
    decreases ts.len(),
{
    if ts.len() > 0 {
        let now = ts[0];
        lemma_swept_membership(s, now);
        let i = choose|i: int| 0 <= i < s.len() && s[i] == root;
        assert(survives(s, root, now));
        assert(swept(s, now).contains(root));
        let j = choose|j: int| 0 <= j < s.len() && s[j] == child;
        assert(root_alive(s, root.id, now));
        assert(survives(s, child, now));
        assert(swept(s, now).contains(child));
        lemma_family_present_through(swept(s, now), ts.subrange(1, ts.len() as int), root, child);
    }
}

/// Removal is terminal: a sweep never brings an id back. Once an entity is
/// gone from the store, every later sweep still finds nothing under its id.
pub proof fn lemma_removal_terminal(s: Seq<Entity>, now: u64, id: u64)
    requires
        !crate::world::has_id(s, id),
    ensures
        !crate::world::has_id(swept(s, now), id),
{
    lemma_swept_membership(s, now);
    assert forall|j: int| 0 <= j < swept(s, now).len() implies (#[trigger] swept(s, now)[j]).id
        != id by {
        let e = swept(s, now)[j];
        let k = choose|k: int| 0 <= k < s.len() && s[k] == e;
    }
}

/// Expiry and cascading removal: once a tracer root's deadline has passed
/// at `now`, a sweep at `now` removes it, and with it every entity
/// parented to it — no child visual outlives its root, and re-evaluating
/// the removed family later finds nothing to remove.
pub proof fn lemma_expired_tracer_removed(s: Seq<Entity>, now: u64, i: int)
    requires
        wf_seq(s),
        0 <= i < s.len(),
        s[i].marker matches Some(m) && now > m.created_at + m.duration,
    ensures
        forall|j: int| 0 <= j < swept(s, now).len() ==> (#[trigger] swept(s, now)[j]).id != s[i].id,
        forall|j: int|
            0 <= j < swept(s, now).len() ==> (#[trigger] swept(s, now)[j]).parent != Some(s[i].id),
{
    let t = swept(s, now);
    lemma_swept_membership(s, now);
    assert forall|j: int| 0 <= j < t.len() implies ((#[trigger] t[j]).id != s[i].id && t[j].parent
        != Some(s[i].id)) by {
        let e = t[j];
        assert(s.contains(e) && survives(s, e, now));
        let k = choose|k: int| 0 <= k < s.len() && s[k] == e;
        if e.id == s[i].id {
            assert(unique_ids(s));
            assert(k == i);
            assert(!survives(s, e, now));
        }
        if e.parent == Some(s[i].id) {
            assert(wf_entity(s, s[k]));
            assert(e.marker is None);
            assert(root_alive(s, s[i].id, now));
            let w = choose|w: int|
                0 <= w < s.len() && (#[trigger] s[w]).id == s[i].id && match s[w].marker {
                    Some(m) => !expired_at(m, now),
                    None => false,
                };
            assert(w == i);
        }
    }
}

} // verus!
