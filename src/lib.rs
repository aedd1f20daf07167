//! The integer and structural core of a path tracer.
//!
//! - `base`, `axis`, `bounds`: coordinate tuples generic over their scalar,
//!   and axis-aligned boxes with their union.
//! - `aggregate`, `construct`: the bounding volume hierarchy as a flat
//!   pre-order array, its construction by the surface area heuristic, and
//!   its depth-first traversal over a preallocated stack.
//! - `integrator`: the recursive path estimator and its depth cut-off.
//! - `scene`, `progress`: the pixel-sample schedule, the accumulator
//!   layout and the progress counter.
//! - `mesh`, `noise`, `texture`: mesh index checks, lattice hashing for
//!   Perlin noise, and the coordinate test texture.
//!
//! The floating-point geometry and shading plug in through the traits
//! `construct::SplitHeuristic`, `aggregate::BvhQuery` and
//! `integrator::PathSpace`. The wrappers of `record` keep a ghost record of
//! every call made on a query or a scene, so that the contracts of
//! `Bvh::hit` and `integrator::trace` speak of the calls actually made.
use vstd::prelude::*;

pub mod aggregate;
pub mod axis;
pub mod base;
pub mod bounds;
pub mod construct;
pub mod integrator;
pub mod mesh;
pub mod noise;
pub mod progress;
pub mod record;
pub mod scene;
pub mod texture;

verus! {

} // verus!
