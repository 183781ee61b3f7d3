//! Supervision of background workers: a CPU-core allocator for pinning
//! requests, the error taxonomy of a supervised run, and the decisions that
//! drive each execution from start to cleanup.

pub mod text;
pub mod core_allocator;
pub mod allocator_laws;
pub mod error;
pub mod task_manager;
pub mod execution;
