//! The core of a reverse-mode automatic differentiation engine: shaped
//! tensors, the indexed copy operators select and gather with their
//! scatter-add gradients, a gradient store keyed by tensor identity, and the
//! tape that records backward steps and replays them in reverse.
//!
//! Around the core stand a few layers that are made of it, the embedding and
//! the residual connection, and what a layer owes to those who build, reset,
//! move and update its parameters.

pub mod add;
pub mod backward;
pub mod device;
pub mod dtype;
pub mod elementwise;
pub mod error;
pub mod gradients;
pub mod ids;
pub mod kernels;
pub mod layout;
pub mod linear;
pub mod nn;
pub mod optim;
pub mod plan;
pub mod scatter;
pub mod select_and_gather;
pub mod shapes;
pub mod tape;
pub mod tensor;
pub mod unused;
