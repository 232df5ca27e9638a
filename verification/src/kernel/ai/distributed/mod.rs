//! Distributed AI coordination: gossip of model updates for the data plane
//! and the architecture-aware model registry.

pub mod gossip;
pub mod model_registry;
