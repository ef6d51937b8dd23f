//! Core logic of a Vulkan-class renderer: planning of GPU memory
//! sub-allocation, scoped ownership of GPU handles, and a persistent,
//! multithreaded pipeline-cache system.
//!
//! Everything here works on plain values (handles as integers, requirements
//! as sizes and alignments, cache records as bytes).  The surrounding
//! application performs the actual GPU and file-system calls and feeds the
//! results back in.

pub mod builder;
pub mod cache;
pub mod device;
pub mod gltf;
pub mod material;
pub mod owned;
pub mod nsize;
pub mod planner;
pub mod scene;
pub mod usage;
pub mod utils;
