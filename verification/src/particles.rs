//! Particle system descriptors that carry no floating-point data.
pub mod component;
pub mod emitter;
pub mod gpu_resources;
