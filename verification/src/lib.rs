//! Core of a capability-based exokernel: the capability manager, the
//! content-addressed object store, the cooperative scheduler, and the
//! decisions behind interrupt handling and memory bring-up.

pub mod caps;
pub mod text;
pub mod text_map;
pub mod objstore;
pub mod task;
pub mod memory;
pub mod arch;
