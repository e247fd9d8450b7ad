//! Quantization schemes: how quantized values are typed, stored and scaled.

use vstd::prelude::*;

verus! {

/// Data type used to represent quantized values.
#[derive(Clone, Copy, Debug, PartialEq, Eq, PartialOrd, Ord, Hash)]
pub enum QuantValue {
    /// 8-bit quantization with full range.
    Q8F,
    /// 8-bit floating point, e5m2 format.
    E5M2,
    /// 8-bit floating point, e4m3 format.
    E4M3,
    /// 4-bit quantization with full range.
    Q4F,
    /// 4-bit floating point, e2m1 format.
    E2M1,
    /// 2-bit quantization with full range.
    Q2F,
    /// 8-bit quantization with symmetric range.
    Q8S,
    /// 4-bit quantization with symmetric range.
    Q4S,
    /// 2-bit quantization with symmetric range.
    Q2S,
}

impl QuantValue {
    /// Width in bits of one quantized value.
    pub open spec fn bits(self) -> nat {
        match self {
            QuantValue::Q8F | QuantValue::Q8S | QuantValue::E4M3 | QuantValue::E5M2 => 8,
            QuantValue::Q4F | QuantValue::Q4S | QuantValue::E2M1 => 4,
            QuantValue::Q2F | QuantValue::Q2S => 2,
        }
    }

    /// Number of values grouped in one natively packed element.
    pub open spec fn packing(self) -> nat {
        match self {
            QuantValue::E2M1 => 2,
            _ => 1,
        }
    }

    /// Returns the size of the quantization input type in bits.
    pub fn size_bits(&self) -> (r: usize)
        ensures
            r == self.bits(),
            2 <= r <= 8,
    {
        match self {
            QuantValue::Q8F | QuantValue::Q8S | QuantValue::E4M3 | QuantValue::E5M2 => 8,
            QuantValue::Q4F | QuantValue::Q4S | QuantValue::E2M1 => 4,
            QuantValue::Q2F | QuantValue::Q2S => 2,
        }
    }

    /// Packing factor for the native representation used for intermediate values.
    pub fn native_packing(&self) -> (r: usize)
        ensures
            r == self.packing(),
            1 <= r <= 2,
    {
        match self {
            QuantValue::E2M1 => 2,
            _ => 1,
        }
    }
}

/// Data type used to store quantized values.
#[derive(Clone, Copy, Debug, PartialEq, Eq, PartialOrd, Ord, Hash)]
pub enum QuantStore {
    /// Native quantization doesn't require packing and unpacking.
    Native,
    /// Values packed in a natively supported packing format (e.g. e2m1x2), packed on the given dimension.
    PackedNative(usize),
    /// Values packed in a 4-byte unsigned integer, packed on the given dimension.
    PackedU32(usize),
}

impl QuantStore {
    /// Width in bits of one stored element holding values of type `value`.
    pub open spec fn bits(self, value: QuantValue) -> nat {
        match self {
            QuantStore::Native => value.bits(),
            QuantStore::PackedNative(_) => value.bits() * value.packing(),
            QuantStore::PackedU32(_) => 32,
        }
    }

    /// Returns the size in bits of the stored element.
    pub fn size_bits(&self, value: &QuantValue) -> (r: usize)
        ensures
            r == self.bits(*value),
    {
        match self {
            QuantStore::Native => value.size_bits(),
            QuantStore::PackedNative(_) => {
                let bits = value.size_bits();
                let packing = value.native_packing();
                assert(bits * packing <= 16) by (nonlinear_arith)
                    requires
                        bits <= 8,
                        packing <= 2,
                ;
                bits * packing
            },
            QuantStore::PackedU32(_) => 32,
        }
    }
}

/// Strategy used to quantize values.
#[derive(Clone, Copy, Debug, PartialEq, Eq, PartialOrd, Ord, Hash)]
pub enum QuantMode {
    /// Symmetric or scale quantization.
    Symmetric,
}

/// Floating-point precision of the quantization parameters (the scales).
#[derive(Clone, Copy, Debug, PartialEq, Eq, PartialOrd, Ord, Hash)]
pub enum QuantParam {
    /// Full precision.
    F32,
    /// Half precision.
    F16,
    /// bfloat16 precision.
    BF16,
    /// unsigned floating point, e8m0 format.
    UE8M0,
    /// unsigned floating point, e4m3 format.
    UE4M3,
}

/// The block size of a block-level scheme, a type of `cubecl_common` carried through unread.
#[verifier::external_type_specification]
#[verifier::external_body]
pub struct ExBlockSize(cubecl_common::quant::scheme::BlockSize);

/// Granularity of quantization.
#[derive(Clone, Copy, Debug, PartialEq, Eq, PartialOrd, Ord, Hash)]
pub enum QuantLevel {
    /// One scale for the whole tensor.
    Tensor,
    /// One scale per block of the given size.
    Block(cubecl_common::quant::scheme::BlockSize),
}

/// Describes a quantization scheme.
#[derive(Clone, Copy, Debug, PartialEq, Eq, PartialOrd, Ord, Hash)]
pub struct QuantScheme {
    /// The logical type of the quantized values.
    pub value: QuantValue,
    /// Precision of the scales.
    pub param: QuantParam,
    /// How the quantized values are stored.
    pub store: QuantStore,
    /// Granularity of the scales.
    pub level: QuantLevel,
    /// Quantization mode.
    pub mode: QuantMode,
}

impl QuantScheme {
    /// Number of quantized values held by one stored element.
    pub open spec fn quants(self) -> nat {
        self.store.bits(self.value) / self.value.bits()
    }

    /// Returns the number of quantized values stored in a single element.
    pub fn num_quants(&self) -> (r: usize)
        ensures
            r == self.quants(),
    {
        self.store.size_bits(&self.value) / self.value.size_bits()
    }

    /// The same scheme with another store.
    pub open spec fn with_store_spec(self, store: QuantStore) -> QuantScheme {
        QuantScheme { store, ..self }
    }

    /// Returns the same scheme with another store.
    pub fn with_store(self, store: QuantStore) -> (r: QuantScheme)
        ensures
            r == self.with_store_spec(store),
    {
        QuantScheme { store, ..self }
    }
}

/// How many values one stored element holds: one when stored natively, two for e2m1 packed
/// natively (one for any other natively packed value), and `32 / bits` in a `u32` word, that
/// is 4 for 8-bit, 8 for 4-bit and 16 for 2-bit values.
pub proof fn lemma_values_per_element(scheme: QuantScheme)
    ensures
        scheme.value.bits() == 8 <==> (scheme.value == QuantValue::Q8F || scheme.value
            == QuantValue::Q8S || scheme.value == QuantValue::E4M3 || scheme.value
            == QuantValue::E5M2),
        scheme.value.bits() == 4 <==> (scheme.value == QuantValue::Q4F || scheme.value
            == QuantValue::Q4S || scheme.value == QuantValue::E2M1),
        scheme.value.bits() == 2 <==> (scheme.value == QuantValue::Q2F || scheme.value
            == QuantValue::Q2S),
        scheme.store is Native ==> scheme.quants() == 1,
        scheme.store is PackedNative ==> scheme.quants() == (if scheme.value == QuantValue::E2M1 {
            2nat
        } else {
            1nat
        }),
        scheme.store is PackedU32 ==> scheme.quants() * scheme.value.bits() == 32,
{
    let b = scheme.value.bits();
    let q = scheme.quants();
    assert(b == 2 || b == 4 || b == 8);
    assert(q == scheme.store.bits(scheme.value) / b);
    if scheme.store is PackedU32 {
        assert(scheme.store.bits(scheme.value) == 32);
        if b == 2 {
            assert(q == 16);
        } else if b == 4 {
            assert(q == 8);
        } else {
            assert(q == 4);
        }
    } else if scheme.store is PackedNative && scheme.value == QuantValue::E2M1 {
        assert(scheme.store.bits(scheme.value) == 8);
    } else {
        assert(scheme.store.bits(scheme.value) == b);
        if b == 2 {
            assert(q == 1);
        } else if b == 4 {
            assert(q == 1);
        } else {
            assert(q == 1);
        }
    }
}

} // verus!
