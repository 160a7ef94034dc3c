//! Lazy-materialization resource model for a decoder-only transformer.
//!
//! Each parameter tensor is tracked by a [`tensor::LazyTensor`] handle that is
//! either still on its backing store or already materialized on the compute
//! device. The model tree in [`model`] composes these handles, and the
//! budgeted loader distributes a byte budget over the tree in a fixed
//! traversal order. The byte accounting, the state machine and the greedy
//! budget policy are verified; the floating-point tensor arithmetic itself is
//! left to the compute backend.

pub mod budget;
pub mod model;
pub mod tensor;
