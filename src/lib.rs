//! Integer core of a Monte Carlo path tracer: pixel addressing, the fan-in
//! of per-pixel results from render workers, the partition of the frame
//! into worker tasks, nearest-hit selection over a scene, the bounce budget
//! of a traced path, and frame telemetry.

pub mod frame;
pub mod collect;
pub mod scene;
pub mod integrator;
pub mod schedule;
pub mod telemetry;
