//! The tracer descriptor and the spawn-time plan derived from it.
//!
//! Attaching a [`Tracer`] to a host entity with a known world position asks
//! the engine for a short-lived beam effect from that position to
//! `Tracer::end`. [`make_spawn_plan`] is the pure spawn computation: it
//! derives the beam geometry, the particle-burst orientation and the expiry
//! marker, deterministically from its inputs alone.

use vstd::prelude::*;

use crate::geom::Orientation;
use crate::geom::Vec3Fx;
use crate::geom::beam_orientation;
use crate::geom::burst_orientation;
use crate::geom::spec_beam_orientation;
use crate::geom::spec_burst_orientation;

verus! {

/// How long a spawned tracer effect lives, in milliseconds.
pub const TRACER_DURATION_MILLIS: u64 = 100;

/// Request for a tracer effect ending at `end`, in world space. The start of
/// the beam is the current position of the entity the descriptor is attached
/// to; the descriptor is consumed entirely at spawn time.
#[derive(Clone, Copy, Debug, PartialEq, Eq)]
pub struct Tracer {
    /// End is in global world space, on the fixed-point grid.
    pub end: Vec3Fx,
}

/// When an effect entity was created and how long it may live. `created_at`
/// is fixed at creation and never mutated; the expiry sweep removes the
/// entity once the clock passes `created_at + duration`.
#[derive(Clone, Copy, Debug, PartialEq, Eq)]
pub struct ExpiryMarker {
    pub created_at: u64,
    pub duration: u64,
}

impl ExpiryMarker {
    /// The deadline `created_at + duration` is representable, so comparing
    /// it against the clock cannot overflow.
    pub open spec fn wf(self) -> bool {
        self.created_at + self.duration <= u64::MAX
    }
}

/// Geometry of the rendered beam cylinder, relative to the parent entity:
/// it spans `origin -> end` when placed at `midpoint` with orientation
/// `orientation` and length `sqrt(len_sq)` on the grid.
#[derive(Clone, Copy, Debug, PartialEq, Eq)]
pub struct BeamVisual {
    /// `end - origin`, exact on the grid.
    pub dir: Vec3Fx,
    /// Squared beam length, exact: `|end - origin|^2`.
    pub len_sq: i64,
    /// `dir / 2`, rounded towards zero: the beam's offset from the parent.
    pub midpoint: Vec3Fx,
    /// Identity exactly when `dir` already lies on the canonical beam axis.
    pub orientation: Orientation,
}

/// Orientation for the particle burst, which emits backward along the
/// travel direction.
#[derive(Clone, Copy, Debug, PartialEq, Eq)]
pub struct ParticleBurst {
    /// Identity exactly when `dir` already points along the canonical burst
    /// axis; also the documented fallback when the beam is degenerate.
    pub orientation: Orientation,
}

/// Everything the spawn computation decides: the expiry marker, the beam
/// geometry (skipped when the beam is degenerate), and the burst
/// orientation. A point light child needs no computed parameters, so it has
/// no entry here; the entity store still creates it.
#[derive(Clone, Copy, Debug, PartialEq, Eq)]
pub struct SpawnPlan {
    pub marker: ExpiryMarker,
    /// `None` exactly when `end == origin`: a zero-length beam has no
    /// meaningful rotation, so the beam visual is skipped entirely.
    pub beam: Option<BeamVisual>,
    pub burst: ParticleBurst,
}

/// The plan spawning a tracer at `now` must produce, as a value.
pub open spec fn plan_for(origin: Vec3Fx, end: Vec3Fx, now: u64) -> SpawnPlan {
    let dir = Vec3Fx::diff(end, origin);
    SpawnPlan {
        marker: ExpiryMarker { created_at: now, duration: TRACER_DURATION_MILLIS },
        beam: if dir.is_zero() {
            None
        } else {
            Some(
                BeamVisual {
                    dir,
                    len_sq: dir.spec_norm_sq() as i64,
                    midpoint: dir.spec_half(),
                    orientation: spec_beam_orientation(dir),
                },
            )
        },
        burst: ParticleBurst {
            orientation: if dir.is_zero() {
                Orientation::Identity
            } else {
                spec_burst_orientation(dir)
            },
        },
    }
}

/// The spawn computation: derive beam geometry, burst orientation and the
/// expiry marker from the host position, the descriptor and the clock.
///
/// Deterministic and total: for a degenerate request (`end == origin`) the
/// beam is skipped and the burst falls back to the identity orientation;
/// nothing fails.
pub fn make_spawn_plan(origin: Vec3Fx, tracer: &Tracer, now: u64) -> (r: SpawnPlan)
    requires
        origin.in_range(),
        tracer.end.in_range(),
        now <= u64::MAX - TRACER_DURATION_MILLIS,
    ensures
        r == plan_for(origin, tracer.end, now),
        r.marker.created_at == now,
        r.marker.duration == TRACER_DURATION_MILLIS,
        r.marker.wf(),
        (r.beam is Some) <==> tracer.end != origin,
        r.beam matches Some(b) ==> {
            &&& b.dir == Vec3Fx::diff(tracer.end, origin)
            &&& b.len_sq == b.dir.spec_norm_sq()
            &&& b.midpoint == b.dir.spec_half()
            &&& (b.orientation == Orientation::Identity <==> b.dir.points_up())
        },
        tracer.end == origin ==> r.burst.orientation == Orientation::Identity,
{
    let dir = tracer.end.minus(origin);
    let degenerate = dir.x == 0 && dir.y == 0 && dir.z == 0;
    let marker = ExpiryMarker { created_at: now, duration: TRACER_DURATION_MILLIS };
    let beam = if degenerate {
        None
    } else {
        Some(
            BeamVisual {
                dir,
                len_sq: dir.norm_sq(),
                midpoint: dir.half(),
                orientation: beam_orientation(dir),
            },
        )
    };
    let burst = ParticleBurst {
        orientation: if degenerate {
            Orientation::Identity
        } else {
            burst_orientation(dir)
        },
    };
    SpawnPlan { marker, beam, burst }
}

} // verus!
