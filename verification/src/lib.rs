//! A minimal build runner: a pipeline of steps, each run in a container,
//! driven by an explicit state machine, together with the request and
//! response handling of the container runtime gateway.

pub mod pipeline;
pub mod docker;
