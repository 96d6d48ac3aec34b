//! Observables: the decision rules of the operators, and timestamping.

pub mod accumulate;
pub mod buffers;
pub mod fusing;
pub mod gates;
pub mod timestamp;
