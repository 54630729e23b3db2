//! The core of a real-time 3D scene engine.
//!
//! The engine keeps a world of entities and components, brings it into step
//! with a physics simulation once per frame, and draws it. This crate holds
//! what the engine decides: which events reach which reader, which model
//! matrices are out of date, what the simulation is to be told, in which
//! order the systems of a frame run, and which commands make up a frame of
//! the renderer. Every decision is verified against its contract.
//!
//! What touches the outside is left to the host: it carries the recorded
//! graphics commands out, runs the physics simulation, reads files and the
//! window, and does the arithmetic on scalars, which the engine only moves
//! about.

pub mod containers;
pub mod ecs;
pub mod gl_wrapper;
pub mod math;
pub mod post_processing_effects;
pub mod scheduler;
pub mod shaders;
pub mod shapes;
pub mod voxel_2d;
