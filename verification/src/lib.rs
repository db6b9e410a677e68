//! Host-side building blocks for GPU-accelerated polynomial arithmetic
//! benchmarks: a number-theoretic-transform dispatcher that validates the
//! domain and drives an external compute engine, and a generator of
//! synthetic curve-point and scalar inputs.

pub mod bench;
pub mod generator;
pub mod ntt;
