//! Verified core of a Monte Carlo path tracer.
//!
//! The core is the spatial index and the light transport: boxes and the slab
//! test, the family of surfaces with its hierarchy, materials and densities
//! with their mixture, and the recursive path integrator.
//!
//! Everything here works on an integer grid: ordinates, ray parameters and
//! vector components are fixed-point integers whose scale the caller picks.
//! Surface arithmetic that needs square roots, trigonometry or logarithms is
//! supplied by the caller: probes hand plain values to the library (the
//! roots of a sphere, the crossing of a plane, a free flight, a density),
//! and the library decides on them. What a function reports is then stated
//! in terms of what the probes answer.
//!
//! The modules, from the leaves up:
//! - `util`: ordinates, intervals, the uniform integer source;
//! - `ray`: vectors and rays;
//! - `aabb`: boxes, merging, the slab test and its laws;
//! - `hit`: hit records, the family of surfaces and its model, with
//!   `hit::sphere`, `hit::quad`, `hit::translate` and `hit::medium`;
//! - `scene`: the plain list of surfaces;
//! - `bvh`: the hierarchy and its construction;
//! - `nearest`: why the hierarchy finds what a scan finds;
//! - `texture`, `noise`: colours of surfaces;
//! - `pdf`, `material`: densities and scattering;
//! - `camera`: the path integrator and the pixels.
pub mod util;
pub mod ray;
pub mod aabb;
pub mod hit;
pub mod scene;
pub mod bvh;
pub mod nearest;
pub mod pdf;
pub mod texture;
pub mod material;
pub mod camera;
pub mod noise;
