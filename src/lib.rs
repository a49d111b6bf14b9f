//! Follow-the-satoshi proposer selection for a proof-of-stake epoch, and the
//! virtual-machine parameters that travel with a chain specification.

pub mod seed;
pub mod sampler;
pub mod schedule;
pub mod laws;
pub mod vm;
