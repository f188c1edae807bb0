//! A model of the entity store the lifecycle engine drives.
//!
//! Entities are plain records: a tracer root carries the expiry marker, its
//! child visuals (beam, flash, burst) carry a parent link back to the root.
//! Spawning appends a tracer's whole entity family atomically; the expiry
//! sweep keeps exactly the entities whose governing marker — their own for a
//! root, the parent root's for a child — has not passed its deadline, so a
//! removed root never leaves a child behind.

use vstd::prelude::*;

use crate::geom::Vec3Fx;
use crate::tracer::ExpiryMarker;
use crate::tracer::SpawnPlan;
use crate::tracer::TRACER_DURATION_MILLIS;
use crate::tracer::Tracer;
use crate::tracer::make_spawn_plan;
use crate::tracer::plan_for;

verus! {

broadcast use vstd::seq_lib::group_filter_ensures;

/// What role an entity plays in a tracer effect.
#[derive(Clone, Copy, Debug, PartialEq, Eq)]
pub enum EntityKind {
    /// The host entity the descriptor was attached to; owns the marker.
    Root,
    /// The beam cylinder child.
    Beam,
    /// The point-light flash child.
    Flash,
    /// The particle-burst child.
    Burst,
}

/// One entity of the store, as the lifecycle engine sees it.
#[derive(Clone, Copy, Debug, PartialEq, Eq)]
pub struct Entity {
    pub id: u64,
    /// The owning tracer root, for child visuals; `None` for a root.
    pub parent: Option<u64>,
    /// The expiry marker; exactly the roots carry one.
    pub marker: Option<ExpiryMarker>,
    pub kind: EntityKind,
}

/// The entity store: entities in creation order, and the next fresh id.
pub struct World {
    pub entities: Vec<Entity>,
    pub next_id: u64,
}

/// The marker's deadline has passed at time `now`.
pub open spec fn expired_at(m: ExpiryMarker, now: u64) -> bool {
    now > m.created_at + m.duration
}

/// Some entity with id `id` carries an unexpired marker.
pub open spec fn root_alive(s: Seq<Entity>, id: u64, now: u64) -> bool {
    exists|i: int|
        0 <= i < s.len() && (#[trigger] s[i]).id == id && match s[i].marker {
            Some(m) => !expired_at(m, now),
            None => false,
        }
}

/// The sweep at time `now` keeps entity `e`: its own marker is unexpired,
/// or it has none and its parent root is still alive. An entity with
/// neither marker nor parent is outside the engine's control and is kept.
pub open spec fn survives(s: Seq<Entity>, e: Entity, now: u64) -> bool {
    match e.marker {
        Some(m) => !expired_at(m, now),
        None => match e.parent {
            Some(p) => root_alive(s, p, now),
            None => true,
        },
    }
}

/// The sweep's keep-predicate over a fixed snapshot of the store.
pub open spec fn sweep_pred(s: Seq<Entity>, now: u64) -> spec_fn(Entity) -> bool {
    |e: Entity| survives(s, e, now)
}

/// The store after one sweep at time `now`: the surviving entities, in
/// their original order.
pub open spec fn swept(s: Seq<Entity>, now: u64) -> Seq<Entity> {
    s.filter(sweep_pred(s, now))
}

/// Some entity with id `id` is a tracer root.
pub open spec fn has_root(s: Seq<Entity>, id: u64) -> bool {
    exists|i: int| 0 <= i < s.len() && (#[trigger] s[i]).id == id && s[i].kind is Root
}

/// Some entity has id `id`.
pub open spec fn has_id(s: Seq<Entity>, id: u64) -> bool {
    exists|i: int| 0 <= i < s.len() && (#[trigger] s[i]).id == id
}

/// Shape of one entity: a root has no parent and carries a well-formed
/// marker with the fixed duration; every other entity carries no marker and
/// points at an existing root.
pub open spec fn wf_entity(s: Seq<Entity>, e: Entity) -> bool {
    match e.kind {
        EntityKind::Root => e.parent is None && match e.marker {
            Some(m) => m.duration == TRACER_DURATION_MILLIS && m.wf(),
            None => false,
        },
        _ => e.marker is None && match e.parent {
            Some(p) => has_root(s, p),
            None => false,
        },
    }
}

/// No two entities share an id.
pub open spec fn unique_ids(s: Seq<Entity>) -> bool {
    forall|i: int, j: int| 0 <= i < j < s.len() ==> s[i].id != s[j].id
}

/// Well-formed store contents.
pub open spec fn wf_seq(s: Seq<Entity>) -> bool {
    unique_ids(s) && forall|i: int| 0 <= i < s.len() ==> wf_entity(s, #[trigger] s[i])
}

/// Every element of a filtered sequence occurs in the original.
pub(crate) proof fn lemma_filter_subset(s: Seq<Entity>, pred: spec_fn(Entity) -> bool)
    ensures
        forall|j: int| 0 <= j < s.filter(pred).len() ==> s.contains(#[trigger] s.filter(pred)[j]),
    decreases s.len(),
{
    reveal(Seq::filter);
    if s.len() != 0 {
        let dl = s.drop_last();
        lemma_filter_subset(dl, pred);
        assert forall|j: int| 0 <= j < s.filter(pred).len() implies s.contains(
            #[trigger] s.filter(pred)[j],
        ) by {
            let f = s.filter(pred);
            let fd = dl.filter(pred);
            if pred(s.last()) && j == f.len() - 1 {
                assert(f[j] == s.last());
                assert(s[s.len() - 1] == s.last());
            } else {
                assert(f[j] == fd[j]);
                assert(dl.contains(fd[j]));
                let k = choose|k: int| 0 <= k < dl.len() && dl[k] == fd[j];
                assert(s[k] == fd[j]);
            }
        }
    }
}

/// Filtering with a predicate that every element satisfies changes nothing.
pub(crate) proof fn lemma_filter_all(s: Seq<Entity>, pred: spec_fn(Entity) -> bool)
    requires
        forall|i: int| 0 <= i < s.len() ==> pred(#[trigger] s[i]),
    ensures
        s.filter(pred) == s,
    decreases s.len(),
{
    reveal(Seq::filter);
    if s.len() == 0 {
        assert(s.filter(pred) =~= s);
    } else {
        let dl = s.drop_last();
        assert(forall|i: int| 0 <= i < dl.len() ==> dl[i] == #[trigger] s[i]);
        lemma_filter_all(dl, pred);
        assert(pred(s.last()));
        assert(s.filter(pred) == dl.push(s.last()));
        assert(dl.push(s.last()) =~= s);
    }
}

/// Filtering one element keeps it or drops it.
pub(crate) proof fn lemma_filter_singleton(x: Entity, pred: spec_fn(Entity) -> bool)
    ensures
        pred(x) ==> seq![x].filter(pred) == seq![x],
        !pred(x) ==> seq![x].filter(pred) == Seq::<Entity>::empty(),
{
    reveal_with_fuel(Seq::filter, 2);
    let s = seq![x];
    assert(s.drop_last() =~= Seq::<Entity>::empty());
    assert(s.last() == x);
    if pred(x) {
        assert(s.filter(pred) =~= s);
    } else {
        assert(s.filter(pred) =~= Seq::<Entity>::empty());
    }
}

/// Filtering preserves id uniqueness.
pub(crate) proof fn lemma_filter_unique(s: Seq<Entity>, pred: spec_fn(Entity) -> bool)
    requires
        unique_ids(s),
    ensures
        unique_ids(s.filter(pred)),
    decreases s.len(),
{
    reveal(Seq::filter);
    if s.len() != 0 {
        let dl = s.drop_last();
        assert(forall|i: int| 0 <= i < dl.len() ==> dl[i] == #[trigger] s[i]);
        lemma_filter_unique(dl, pred);
        if pred(s.last()) {
            lemma_filter_subset(dl, pred);
            let f = s.filter(pred);
            let fd = dl.filter(pred);
            assert(f == fd.push(s.last()));
            assert forall|i: int, j: int| 0 <= i < j < f.len() implies f[i].id != f[j].id by {
                if j < fd.len() {
                    assert(f[i] == fd[i] && f[j] == fd[j]);
                } else {
                    assert(f[j] == s.last());
                    assert(f[i] == fd[i]);
                    assert(dl.contains(fd[i]));
                    let k = choose|k: int| 0 <= k < dl.len() && dl[k] == fd[i];
                    assert(s[k] == fd[i]);
                    assert(s[k].id != s[s.len() - 1].id);
                }
            }
        }
    }
}

/// What one sweep keeps: exactly the entities of the snapshot that survive
/// it, each appearing in the result, and nothing else.
pub proof fn lemma_swept_membership(s: Seq<Entity>, now: u64)
    ensures
        forall|j: int|
            0 <= j < swept(s, now).len() ==> s.contains(#[trigger] swept(s, now)[j]) && survives(
                s,
                swept(s, now)[j],
                now,
            ),
        forall|i: int|
            0 <= i < s.len() && survives(s, #[trigger] s[i], now) ==> swept(s, now).contains(s[i]),
        swept(s, now).len() <= s.len(),
{
    lemma_filter_subset(s, sweep_pred(s, now));
}

/// A sweep preserves well-formedness: ids stay unique and no surviving
/// child is orphaned, because a surviving child's parent root survives too.
pub proof fn lemma_swept_wf(s: Seq<Entity>, now: u64)
    requires
        wf_seq(s),
    ensures
        wf_seq(swept(s, now)),
{
    let t = swept(s, now);
    lemma_filter_unique(s, sweep_pred(s, now));
    lemma_swept_membership(s, now);
    assert forall|j: int| 0 <= j < t.len() implies wf_entity(t, #[trigger] t[j]) by {
        let e = t[j];
        assert(s.contains(e));
        let i = choose|i: int| 0 <= i < s.len() && s[i] == e;
        assert(wf_entity(s, e));
        match e.kind {
            EntityKind::Root => {},
            _ => {
                let p = e.parent->0;
                assert(survives(s, e, now));
                assert(root_alive(s, p, now));
                let w = choose|w: int|
                    0 <= w < s.len() && (#[trigger] s[w]).id == p && match s[w].marker {
                        Some(m) => !expired_at(m, now),
                        None => false,
                    };
                assert(wf_entity(s, s[w]));
                assert(s[w].kind is Root);
                assert(survives(s, s[w], now));
                assert(t.contains(s[w]));
                let v = choose|v: int| 0 <= v < t.len() && t[v] == s[w];
                assert(t[v].id == p && t[v].kind is Root);
            },
        }
    }
}

/// How many entities spawning with this plan creates: the root, the flash
/// and the burst, plus the beam when it is not degenerate.
pub open spec fn spawn_count(plan: SpawnPlan) -> int {
    if plan.beam is Some {
        4
    } else {
        3
    }
}

/// The store contents after spawning with `plan` on top of `s`, using fresh
/// ids counted up from `base`: the root carrying the marker, then its child
/// visuals, each parented to the root.
pub open spec fn spawned_entities(s: Seq<Entity>, base: u64, plan: SpawnPlan) -> Seq<Entity> {
    let root = Entity { id: base, parent: None, marker: Some(plan.marker), kind: EntityKind::Root };
    if plan.beam is Some {
        s.push(root).push(
            Entity {
                id: (base + 1) as u64,
                parent: Some(base),
                marker: None,
                kind: EntityKind::Beam,
            },
        ).push(
            Entity {
                id: (base + 2) as u64,
                parent: Some(base),
                marker: None,
                kind: EntityKind::Flash,
            },
        ).push(
            Entity {
                id: (base + 3) as u64,
                parent: Some(base),
                marker: None,
                kind: EntityKind::Burst,
            },
        )
    } else {
        s.push(root).push(
            Entity {
                id: (base + 1) as u64,
                parent: Some(base),
                marker: None,
                kind: EntityKind::Flash,
            },
        ).push(
            Entity {
                id: (base + 2) as u64,
                parent: Some(base),
                marker: None,
                kind: EntityKind::Burst,
            },
        )
    }
}

impl World {
    /// The store is well formed and every id it holds is already used up.
    pub open spec fn wf(self) -> bool {
        &&& wf_seq(self.entities@)
        &&& forall|i: int|
            0 <= i < self.entities@.len() ==> (#[trigger] self.entities@[i]).id < self.next_id
    }

    /// An empty store.
    pub fn new() -> (r: World)
        ensures
            r.wf(),
            r.entities@ == Seq::<Entity>::empty(),
            r.next_id == 0,
    {
        World { entities: Vec::new(), next_id: 0 }
    }

    /// Number of entities currently stored.
    pub fn entity_count(&self) -> (r: usize)
        ensures
            r == self.entities@.len(),
    {
        self.entities.len()
    }

    /// Whether an entity with this id is still queryable.
    pub fn contains_entity(&self, id: u64) -> (r: bool)
        ensures
            r == has_id(self.entities@, id),
    {
        let n = self.entities.len();
        let mut i: usize = 0;
        while i < n
            invariant
                0 <= i <= n,
                n == self.entities@.len(),
                forall|k: int| 0 <= k < i ==> (#[trigger] self.entities@[k]).id != id,
            decreases n - i,
        {
            if self.entities[i].id == id {
                return true;
            }
            i = i + 1;
        }
        false
    }

    /// The ids of all stored entities, in creation order.
    pub fn entity_ids(&self) -> (r: Vec<u64>)
        ensures
            r@ == self.entities@.map_values(|e: Entity| e.id),
    {
        let n = self.entities.len();
        let mut ids: Vec<u64> = Vec::new();
        let mut i: usize = 0;
        while i < n
            invariant
                0 <= i <= n,
                n == self.entities@.len(),
                ids@ == self.entities@.subrange(0, i as int).map_values(|e: Entity| e.id),
            decreases n - i,
        {
            ids.push(self.entities[i].id);
            proof {
                assert(self.entities@.subrange(0, i + 1).map_values(|e: Entity| e.id) =~= self
                    .entities@.subrange(0, i as int).map_values(|e: Entity| e.id).push(
                    self.entities@[i as int].id,
                ));
            }
            i = i + 1;
        }
        proof {
            assert(self.entities@.subrange(0, n as int) =~= self.entities@);
        }
        ids
    }

    /// The expiry marker of the entity with this id, if both exist.
    pub fn marker_of(&self, id: u64) -> (r: Option<ExpiryMarker>)
        requires
            self.wf(),
        ensures
            match r {
                Some(m) => exists|i: int|
                    0 <= i < self.entities@.len() && (#[trigger] self.entities@[i]).id == id
                        && self.entities@[i].marker == Some(m),
                None => forall|i: int|
                    0 <= i < self.entities@.len() ==> ((#[trigger] self.entities@[i]).id != id
                        || self.entities@[i].marker is None),
            },
    {
        let n = self.entities.len();
        let mut i: usize = 0;
        while i < n
            invariant
                0 <= i <= n,
                n == self.entities@.len(),
                unique_ids(self.entities@),
                forall|k: int| 0 <= k < i ==> (#[trigger] self.entities@[k]).id != id,
            decreases n - i,
        {
            if self.entities[i].id == id {
                return self.entities[i].marker;
            }
            i = i + 1;
        }
        None
    }

    /// The spawn orchestrator: consume a descriptor attached to a host at
    /// position `origin`, derive the plan, and append the tracer's whole
    /// entity family — root with marker, then child visuals — atomically.
    /// Returns the root's id and the plan, for the renderer.
    pub fn spawn_tracer(&mut self, tracer: &Tracer, origin: Vec3Fx, now: u64) -> (r: (
        u64,
        SpawnPlan,
    ))
        requires
            old(self).wf(),
            origin.in_range(),
            tracer.end.in_range(),
            now <= u64::MAX - TRACER_DURATION_MILLIS,
            old(self).next_id <= u64::MAX - 4,
        ensures
            final(self).wf(),
            r.0 == old(self).next_id,
            r.1 == plan_for(origin, tracer.end, now),
            r.1.marker.created_at == now,
            r.1.marker.duration == TRACER_DURATION_MILLIS,
            final(self).entities@ == spawned_entities(old(self).entities@, r.0, r.1),
            final(self).next_id == old(self).next_id + spawn_count(r.1),
    {
        let plan = make_spawn_plan(origin, tracer, now);
        let base = self.next_id;
        let ghost orig = self.entities@;
        self.entities.push(
            Entity { id: base, parent: None, marker: Some(plan.marker), kind: EntityKind::Root },
        );
        let mut next: u64 = base + 1;
        if plan.beam.is_some() {
            self.entities.push(
                Entity { id: next, parent: Some(base), marker: None, kind: EntityKind::Beam },
            );
            next = next + 1;
        }
        self.entities.push(
            Entity { id: next, parent: Some(base), marker: None, kind: EntityKind::Flash },
        );
        self.entities.push(
            Entity { id: next + 1, parent: Some(base), marker: None, kind: EntityKind::Burst },
        );
        self.next_id = next + 2;
        proof {
            let s2 = self.entities@;
            assert(s2 == spawned_entities(orig, base, plan));
            let n0 = orig.len() as int;
            assert(forall|i: int| 0 <= i < n0 ==> s2[i] == #[trigger] orig[i]);
            assert(s2[n0].kind is Root && s2[n0].id == base);
            assert forall|i: int| 0 <= i < s2.len() implies wf_entity(s2, #[trigger] s2[i]) by {
                if i < n0 {
                    assert(wf_entity(orig, orig[i]));
                    match orig[i].kind {
                        EntityKind::Root => {},
                        _ => {
                            let p = orig[i].parent->0;
                            let w = choose|w: int|
                                0 <= w < orig.len() && (#[trigger] orig[w]).id == p
                                    && orig[w].kind is Root;
                            assert(s2[w] == orig[w]);
                        },
                    }
                } else {
                    assert(has_root(s2, base));
                }
            }
        }
        (base, plan)
    }

    /// The expiry sweep: one pass over the store at time `now`, keeping
    /// exactly the surviving entities in order. Removal cascades: a child
    /// is kept only while its parent root's marker is unexpired, so no
    /// child outlives its root.
    pub fn sweep(&mut self, now: u64)
        requires
            old(self).wf(),
        ensures
            final(self).wf(),
            final(self).next_id == old(self).next_id,
            final(self).entities@ == swept(old(self).entities@, now),
    {
        let ghost orig: Seq<Entity> = self.entities@;
        let ghost pred = sweep_pred(orig, now);
        let n = self.entities.len();
        let mut kept: Vec<Entity> = Vec::new();
        let mut i: usize = 0;
        while i < n
            invariant
                0 <= i <= n,
                n == self.entities@.len(),
                self.entities@ == orig,
                self.wf(),
                pred == sweep_pred(orig, now),
                kept@ == orig.subrange(0, i as int).filter(pred),
            decreases n - i,
        {
            let e = self.entities[i];
            let keep = survives_exec(&self.entities, e, now);
            proof {
                let head = orig.subrange(0, i as int);
                assert(orig.subrange(0, i + 1) =~= head + seq![orig[i as int]]);
                Seq::filter_distributes_over_add(head, seq![orig[i as int]], pred);
                lemma_filter_singleton(orig[i as int], pred);
                if pred(orig[i as int]) {
                    assert(head.filter(pred) + seq![orig[i as int]] =~= head.filter(pred).push(
                        orig[i as int],
                    ));
                } else {
                    assert(head.filter(pred) + Seq::<Entity>::empty() =~= head.filter(pred));
                }
            }
            if keep {
                kept.push(e);
            }
            i = i + 1;
        }
        proof {
            assert(orig.subrange(0, n as int) =~= orig);
            lemma_swept_wf(orig, now);
            lemma_swept_membership(orig, now);
            assert forall|j: int| 0 <= j < swept(orig, now).len() implies (#[trigger] swept(
                orig,
                now,
            )[j]).id < self.next_id by {
                let k = choose|k: int| 0 <= k < orig.len() && orig[k] == swept(orig, now)[j];
            }
        }
        self.entities = kept;
    }
}

/// Whether the sweep at `now` keeps entity `e` of the store.
fn survives_exec(entities: &Vec<Entity>, e: Entity, now: u64) -> (r: bool)
    requires
        wf_seq(entities@),
        match e.marker {
            Some(m) => m.wf(),
            None => true,
        },
    ensures
        r == survives(entities@, e, now),
{
    match e.marker {
        Some(m) => now <= m.created_at + m.duration,
        None => match e.parent {
            Some(p) => find_live_root(entities, p, now),
            None => true,
        },
    }
}

/// Whether some entity with id `id` still carries an unexpired marker.
fn find_live_root(entities: &Vec<Entity>, id: u64, now: u64) -> (r: bool)
    requires
        wf_seq(entities@),
    ensures
        r == root_alive(entities@, id, now),
{
    let n = entities.len();
    let mut i: usize = 0;
    while i < n
        invariant
            0 <= i <= n,
            n == entities@.len(),
            wf_seq(entities@),
            forall|k: int|
                0 <= k < i ==> !((#[trigger] entities@[k]).id == id && match entities@[k].marker {
                    Some(m) => !expired_at(m, now),
                    None => false,
                }),
        decreases n - i,
    {
        let e = entities[i];
        if e.id == id {
            match e.marker {
                Some(m) => {
                    proof {
                        assert(wf_entity(entities@, entities@[i as int]));
                    }
                    if now <= m.created_at + m.duration {
                        return true;
                    }
                },
                None => {},
            }
        }
        i = i + 1;
    }
    false
}

} // verus!
