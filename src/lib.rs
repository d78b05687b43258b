//! Tick-scheduling core of a small real-time engine: a generational entity
//! table, the camera pose that input moves, closed dispatch over step units,
//! the static partitioning of units across workers, and the per-frame
//! harvest and dispatch of the events that units produce.

pub mod components;
pub mod entity;
pub mod camera;
pub mod engine;
pub mod system;
pub mod worker;
