//! Lifecycle engine for short-lived tracer visual effects.
//!
//! Given a start point and an end point in world space, the library derives
//! the geometry of an oriented beam (length, midpoint offset, orientation
//! class) in fixed-point coordinates, attaches an expiry marker with a fixed
//! duration, and models the periodic sweep that removes expired effects and
//! all of their child entities deterministically, without double-removing.
//!
//! Floating-point rendering work (the exact rotation quaternion, shader
//! colours, mesh radii) belongs to the host renderer and stays outside the
//! verified core; the host converts to and from the fixed-point grid.

pub mod geom;
pub mod laws;
pub mod tracer;
pub mod world;
