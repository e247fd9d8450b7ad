# cubek

Verified host-side logic of quantized-tensor dequantization and of the block-scaled
(E2M1 data, UE8M0 scales) MMA tile matmul, written in Verus.

- `src/scheme.rs`: quantization schemes (value type, store, scales, level, mode) and how many
  values one stored element holds.
- `src/unpack.rs`: unpacking of signed two's complement fields from a stored word, with the
  proofs that every field stays in range and that unpacking loses nothing.
- `src/dequantize.rs`: which quantized integers meet which scale, for one packed vector, for
  one invocation of the packed and native kernels, and for a launch over a whole tensor.
- `src/launch.rs`: the choice of kernel for a scheme and the vector sizes and work units of
  a launch.
- `src/scaled_mma.rs`: which tile sizes the device's scaled MMA instructions support, blueprint
  validation, the MMA definition and the write-back of results.

`app/` holds what runs on or talks to the GPU: the cubecl kernels (device code, floating-point
scaling), their launches, and conversions between cubecl's types and the library's.
