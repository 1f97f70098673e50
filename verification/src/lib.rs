//! A small Monte Carlo path tracer with a verified core.
//!
//! Geometry, shading and sampling are computed in `Q31.32` fixed-point
//! arithmetic (the `fx` module), whose operations carry an exact
//! integer-level specification.  On top of it sit the vector algebra
//! (`vec3`), rays and intervals, the sphere intersection algorithm, the
//! closest-hit scene search, the three material scattering laws, and the
//! camera with its recursive, depth-bounded color estimator.

pub mod camera;
pub mod fx;
pub mod hit_record;
pub mod hittable_list;
pub mod interval;
pub mod material;
pub mod ray;
pub mod rng;
pub mod sphere;
pub mod trig;
pub mod vec3;
