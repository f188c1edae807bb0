use tracer_fx::geom::Orientation;
use tracer_fx::geom::Vec3Fx;
use tracer_fx::geom::beam_orientation;
use tracer_fx::geom::burst_orientation;
use tracer_fx::tracer::TRACER_DURATION_MILLIS;
use tracer_fx::tracer::Tracer;
use tracer_fx::tracer::make_spawn_plan;

#[test]
fn spawn_vertical_beam() {
    // origin (0,0,0), end (0,10,0): length 10, identity orientation,
    // midpoint offset (0,5,0).
    let origin = Vec3Fx { x: 0, y: 0, z: 0 };
    let tracer = Tracer { end: Vec3Fx { x: 0, y: 10, z: 0 } };
    let plan = make_spawn_plan(origin, &tracer, 7);
    assert_eq!(plan.marker.created_at, 7);
    assert_eq!(plan.marker.duration, TRACER_DURATION_MILLIS);
    let beam = plan.beam.expect("non-degenerate spawn keeps the beam");
    assert_eq!(beam.dir, Vec3Fx { x: 0, y: 10, z: 0 });
    assert_eq!(beam.len_sq, 100);
    assert_eq!((beam.len_sq as f64).sqrt(), 10.0);
    assert_eq!(beam.midpoint, Vec3Fx { x: 0, y: 5, z: 0 });
    assert_eq!(beam.orientation, Orientation::Identity);
    // The burst's canonical axis is -z, so a +y beam needs a rotation.
    assert_eq!(plan.burst.orientation, Orientation::Rotated);
}

#[test]
fn degenerate_spawn_skips_beam() {
    // origin == end: no direction to normalize; the beam visual is skipped
    // and the burst falls back to the identity orientation, without panic.
    let origin = Vec3Fx { x: 3, y: 4, z: 5 };
    let tracer = Tracer { end: Vec3Fx { x: 3, y: 4, z: 5 } };
    let plan = make_spawn_plan(origin, &tracer, 0);
    assert!(plan.beam.is_none());
    assert_eq!(plan.burst.orientation, Orientation::Identity);
    assert_eq!(plan.marker.duration, TRACER_DURATION_MILLIS);
}

#[test]
fn beam_length_exact() {
    // A 3-4-5 triangle in the x/y plane: squared length exactly 25.
    let origin = Vec3Fx { x: 1, y: 2, z: 3 };
    let tracer = Tracer { end: Vec3Fx { x: 4, y: 6, z: 3 } };
    let plan = make_spawn_plan(origin, &tracer, 42);
    let beam = plan.beam.unwrap();
    assert_eq!(beam.dir, Vec3Fx { x: 3, y: 4, z: 0 });
    assert_eq!(beam.len_sq, 25);
    assert_eq!((beam.len_sq as f64).sqrt(), 5.0);
    assert_eq!(beam.midpoint, Vec3Fx { x: 1, y: 2, z: 0 });
    assert_eq!(beam.orientation, Orientation::Rotated);
}

#[test]
fn negative_direction_halving() {
    // Midpoints round towards zero, also on negative coordinates.
    let origin = Vec3Fx { x: 0, y: 0, z: 0 };
    let tracer = Tracer { end: Vec3Fx { x: 0, y: -7, z: 0 } };
    let plan = make_spawn_plan(origin, &tracer, 0);
    let beam = plan.beam.unwrap();
    assert_eq!(beam.len_sq, 49);
    assert_eq!(beam.midpoint, Vec3Fx { x: 0, y: -3, z: 0 });
    // -y is not the canonical beam axis.
    assert_eq!(beam.orientation, Orientation::Rotated);
}

#[test]
fn orientation_classifiers() {
    assert_eq!(beam_orientation(Vec3Fx { x: 0, y: 5, z: 0 }), Orientation::Identity);
    assert_eq!(beam_orientation(Vec3Fx { x: 1, y: 5, z: 0 }), Orientation::Rotated);
    assert_eq!(beam_orientation(Vec3Fx { x: 0, y: -5, z: 0 }), Orientation::Rotated);
    assert_eq!(burst_orientation(Vec3Fx { x: 0, y: 0, z: -3 }), Orientation::Identity);
    assert_eq!(burst_orientation(Vec3Fx { x: 0, y: 0, z: 3 }), Orientation::Rotated);
    assert_eq!(burst_orientation(Vec3Fx { x: 0, y: 1, z: -3 }), Orientation::Rotated);
}

#[test]
fn burst_points_backward() {
    // A beam flying straight along -z needs no burst rotation but does
    // need a beam rotation.
    let origin = Vec3Fx { x: 0, y: 0, z: 0 };
    let tracer = Tracer { end: Vec3Fx { x: 0, y: 0, z: -8 } };
    let plan = make_spawn_plan(origin, &tracer, 1);
    assert_eq!(plan.burst.orientation, Orientation::Identity);
    assert_eq!(plan.beam.unwrap().orientation, Orientation::Rotated);
}
