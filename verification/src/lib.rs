//! Dequantization of packed quantized tensors and the host-side logic of the
//! block-scaled (E2M1 / UE8M0) tile matmul, with their contracts proved by Verus.

pub mod scheme;
pub mod unpack;
pub mod dequantize;
pub mod launch;
pub mod scaled_mma;

pub use scheme::{QuantLevel, QuantMode, QuantParam, QuantScheme, QuantStore, QuantValue};
