//! Decision core of a gateway for sandboxed workload containers: the endpoint
//! registry that maps a workload to its host port, the lifecycle commands sent
//! to the container runtime, and the reverse proxy that routes traffic by
//! workload id.

pub mod inventory;
pub mod lifecycle;
pub mod proxy;
pub mod registry;
pub mod text;
