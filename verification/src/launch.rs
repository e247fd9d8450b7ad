//! Host-side planning of a dequantization launch: which kernel handles a scheme, how wide
//! its vectors are and how many work units it runs.

use vstd::prelude::*;

use crate::scheme::{QuantMode, QuantScheme, QuantStore, QuantValue};
use crate::unpack::lemma_element_layout;

verus! {

/// The kernel that dequantizes a tensor.
#[derive(Clone, Copy, Debug, PartialEq, Eq)]
pub enum DequantizeRoute {
    /// Values packed in `u32` words, unpacked in the kernel.
    Packed,
    /// Values stored in a type the device converts natively.
    Native,
}

/// Why a scheme cannot be dequantized.
#[derive(Clone, Copy, Debug, PartialEq, Eq)]
pub enum DequantizeError {
    /// The value type is not supported for native quantization (on this device).
    UnsupportedNative(QuantValue),
    /// The scheme does not fit the kernel it was handed to.
    UnsupportedScheme,
    /// The value type has no native element type.
    UnsupportedValue(QuantValue),
}

/// The storage type of the quantized input handed to the native kernel.
#[derive(Clone, Copy, Debug, PartialEq, Eq)]
pub enum QuantDType {
    /// Signed 8-bit integer.
    I8,
    /// 8-bit float, e4m3.
    E4M3,
    /// 8-bit float, e5m2.
    E5M2,
    /// 4-bit float, e2m1.
    E2M1,
    /// Two 4-bit e2m1 floats packed in one byte.
    E2M1x2,
}

/// Value types with a native element type.
pub open spec fn has_native_type(value: QuantValue) -> bool {
    match value {
        QuantValue::Q8F | QuantValue::Q8S | QuantValue::E4M3 | QuantValue::E5M2
        | QuantValue::E2M1 => true,
        _ => false,
    }
}

/// Value and store combinations the native kernel handles.
pub open spec fn native_combination(scheme: QuantScheme) -> bool {
    match (scheme.value, scheme.store) {
        (QuantValue::Q8F, QuantStore::Native) | (QuantValue::Q8S, QuantStore::Native) | (
            QuantValue::E4M3,
            QuantStore::Native,
        ) | (QuantValue::E5M2, QuantStore::Native) => true,
        (QuantValue::E2M1, QuantStore::PackedNative(_)) => true,
        _ => false,
    }
}

/// The route that dequantizes `scheme`, given whether the device converts `i8` natively.
pub open spec fn route(scheme: QuantScheme, conversion_supported: bool) -> Result<
    DequantizeRoute,
    DequantizeError,
> {
    if scheme.store is PackedU32 {
        Ok(DequantizeRoute::Packed)
    } else if native_combination(scheme) && conversion_supported {
        Ok(DequantizeRoute::Native)
    } else {
        Err(DequantizeError::UnsupportedNative(scheme.value))
    }
}

/// Select the kernel that dequantizes a tensor quantized with `scheme`.
///
/// Packed `u32` stores go to the packed kernel. Native stores of 8-bit values, and e2m1 values
/// packed natively, go to the native kernel when the device supports `i8` conversion; every
/// other native store is unsupported.
pub fn select_route(scheme: &QuantScheme, conversion_supported: bool) -> (r: Result<
    DequantizeRoute,
    DequantizeError,
>)
    ensures
        r == route(*scheme, conversion_supported),
{
    match (scheme.value, scheme.store) {
        (_, QuantStore::PackedU32(_)) => Ok(DequantizeRoute::Packed),
        (QuantValue::Q8F, QuantStore::Native) | (QuantValue::Q8S, QuantStore::Native) | (
            QuantValue::E4M3,
            QuantStore::Native,
        ) | (QuantValue::E5M2, QuantStore::Native) | (
            QuantValue::E2M1,
            QuantStore::PackedNative(_),
        ) => {
            if !conversion_supported {
                Err(DequantizeError::UnsupportedNative(scheme.value))
            } else {
                Ok(DequantizeRoute::Native)
            }
        },
        (value, _) => Err(DequantizeError::UnsupportedNative(value)),
    }
}

/// Number of elements of a tensor of the given shape.
pub open spec fn shape_product(shape: Seq<usize>) -> nat
    decreases shape.len(),
{
    if shape.len() == 0 {
        1
    } else {
        shape_product(shape.drop_last()) * (shape.last() as nat)
    }
}

/// Multiplying the dimensions of `shape` one by one never exceeds `usize::MAX`.
pub open spec fn product_fits(shape: Seq<usize>) -> bool {
    forall|k: int| 0 <= k <= shape.len() ==> #[trigger] shape_product(shape.take(k)) <= usize::MAX
}

/// Returns the number of elements of a tensor of the given shape.
pub fn num_elements(shape: &Vec<usize>) -> (r: usize)
    requires
        product_fits(shape@),
    ensures
        r == shape_product(shape@),
{
    let mut acc: usize = 1;
    let mut i: usize = 0;
    assert(shape@.take(0) =~= Seq::<usize>::empty());
    while i < shape.len()
        invariant
            i <= shape.len(),
            product_fits(shape@),
            acc == shape_product(shape@.take(i as int)),
        decreases shape.len() - i,
    {
        assert(shape@.take(i + 1).drop_last() =~= shape@.take(i as int));
        assert(shape_product(shape@.take(i + 1)) <= usize::MAX);
        acc = acc * shape[i];
        i += 1;
    }
    assert(shape@.take(shape.len() as int) =~= shape@);
    acc
}

/// The widest vector size `cubecl::tensor_vector_size_parallel` finds among `sizes` for reading
/// a tensor of the given shape and strides along `axis`.
pub uninterp spec fn parallel_vector_size(
    sizes: Seq<usize>,
    shape: Seq<usize>,
    strides: Seq<usize>,
    axis: usize,
) -> usize;

/// The smallest non-zero stride among the dimensions other than `axis`, or 0 when there is
/// none (a zero stride is a broadcast).
pub open spec fn min_other_stride(strides: Seq<usize>, axis: int) -> nat
    decreases strides.len(),
{
    if strides.len() == 0 {
        0
    } else {
        let rest = min_other_stride(strides.drop_last(), axis);
        let s = strides.last();
        if strides.len() - 1 == axis || s == 0 {
            rest
        } else if rest == 0 || s < rest {
            s as nat
        } else {
            rest
        }
    }
}

/// A vector of `size` elements fits a read along an axis of length `axis_len` whose other
/// dimensions step by multiples of `next_stride`.
pub open spec fn vector_fits(size: usize, axis_len: usize, next_stride: nat) -> bool {
    axis_len % size == 0 && next_stride % (size as nat) == 0
}

/// Calls `cubecl::tensor_vector_size_parallel`. Its source returns 1 when `axis` is out of
/// bounds or the stride along `axis` is not 1. Otherwise it returns the largest candidate of
/// `sizes` that divides both `shape[axis]` and the smallest non-zero stride of the other
/// dimensions (`min_other_stride`), or 1 when no candidate does. Either way the result is 1 or
/// a candidate, and it divides `shape[axis]`.
/// The candidates must be positive: the source takes the shape modulo each one.
#[verifier::external_body]
fn tensor_vector_size_parallel(
    sizes: &Vec<usize>,
    shape: &Vec<usize>,
    strides: &Vec<usize>,
    axis: usize,
) -> (r: usize)
    requires
        forall|i: int| 0 <= i < sizes.len() ==> sizes[i] > 0,
    ensures
        r == parallel_vector_size(sizes@, shape@, strides@, axis),
        r == 1 || sizes@.contains(r),
        r >= 1,
        axis < shape.len() ==> shape[axis as int] % r == 0,
        axis >= shape.len() || axis >= strides.len() || strides[axis as int] != 1 ==> r == 1,
        axis < shape.len() && axis < strides.len() && strides[axis as int] == 1 ==> {
            &&& r == 1 || vector_fits(r, shape[axis as int], min_other_stride(strides@, axis as int))
            &&& forall|c: usize|
                sizes@.contains(c) && vector_fits(
                    c,
                    shape[axis as int],
                    min_other_stride(strides@, axis as int),
                ) ==> c <= r
        },
{
    cubecl::tensor_vector_size_parallel(
        sizes.iter().copied(),
        &cubecl::zspace::Shape::from(shape.clone()),
        &cubecl::zspace::Strides::from(strides.clone()),
        axis,
    )
}

/// Vector sizes and work units of a launch of the packed kernel.
#[derive(Clone, Copy, Debug, PartialEq, Eq)]
pub struct PackedLaunchPlan {
    /// Number of packed words each work unit reads.
    pub vector_size_in: usize,
    /// Number of values each packed word unpacks to.
    pub vector_size_out: usize,
    /// Number of work units.
    pub num_elems: usize,
}

/// The packed launch, given the vector size found for the input, its number of elements and
/// the innermost dimension of the output.
pub open spec fn packed_plan(
    found_vector_size: usize,
    num_elems_input: usize,
    output_last_dim: usize,
    scheme: QuantScheme,
) -> Result<PackedLaunchPlan, DequantizeError> {
    let num_quants = scheme.quants();
    let vector_size_in = if output_last_dim as nat % num_quants == 0 {
        found_vector_size
    } else {
        1
    };
    if scheme.store is PackedU32 && scheme.mode == QuantMode::Symmetric {
        Ok(
            PackedLaunchPlan {
                vector_size_in,
                vector_size_out: num_quants as usize,
                num_elems: (num_elems_input / vector_size_in) as usize,
            },
        )
    } else {
        Err(DequantizeError::UnsupportedScheme)
    }
}

/// Plan a launch of the packed kernel from the vector size found for the input.
///
/// The input is read `found_vector_size` words at a time, unless the innermost output
/// dimension is not a multiple of the number of values per word, in which case one word
/// at a time. Only symmetric schemes packed in `u32` words are supported.
pub fn dequantize_packed_plan(
    found_vector_size: usize,
    num_elems_input: usize,
    output_last_dim: usize,
    scheme: &QuantScheme,
) -> (r: Result<PackedLaunchPlan, DequantizeError>)
    requires
        found_vector_size >= 1,
    ensures
        r == packed_plan(found_vector_size, num_elems_input, output_last_dim, *scheme),
{
    proof {
        lemma_element_layout(scheme.value, scheme.store);
    }
    let num_quants = scheme.num_quants();
    let vector_size_out = num_quants;
    let mut vector_size_in = found_vector_size;
    if output_last_dim % vector_size_out != 0 {
        vector_size_in = 1;
    }
    let num_elems = num_elems_input / vector_size_in;
    match (scheme.store, scheme.mode) {
        (QuantStore::PackedU32(_), QuantMode::Symmetric) => Ok(
            PackedLaunchPlan { vector_size_in, vector_size_out, num_elems },
        ),
        _ => Err(DequantizeError::UnsupportedScheme),
    }
}

/// A positive product stays divisible by any divisor of its innermost dimension.
proof fn lemma_product_divisible(shape: Seq<usize>, d: nat)
    requires
        shape.len() >= 1,
        d >= 1,
        shape.last() as nat % d == 0,
    ensures
        shape_product(shape) % d == 0,
        (shape_product(shape) / d) * d == shape_product(shape),
{
    let a = shape_product(shape.drop_last());
    let b = shape.last() as nat;
    assert(shape_product(shape) == a * b);
    assert((a * b) % d == 0) by (nonlinear_arith)
        requires
            b % d == 0,
            d >= 1,
    {
        let q = b / d;
        assert(b == q * d);
        assert(a * b == (a * q) * d);
        vstd::arithmetic::div_mod::lemma_mod_multiples_basic((a * q) as int, d as int);
    }
    vstd::arithmetic::div_mod::lemma_fundamental_div_mod(shape_product(shape) as int, d as int);
}

/// Plan a launch of the packed kernel for an input of the given shape and strides.
///
/// The vector size is the one `cubecl::tensor_vector_size_parallel` finds among the device's
/// optimized sizes along the innermost input dimension, see [`dequantize_packed_plan`].
/// Every input element is covered: work units times vector size is the number of elements.
pub fn plan_dequantize_packed(
    input_shape: &Vec<usize>,
    input_strides: &Vec<usize>,
    output_shape: &Vec<usize>,
    io_vector_sizes: &Vec<usize>,
    scheme: &QuantScheme,
) -> (r: Result<PackedLaunchPlan, DequantizeError>)
    requires
        input_shape.len() >= 1,
        output_shape.len() >= 1,
        product_fits(input_shape@),
        forall|i: int| 0 <= i < io_vector_sizes.len() ==> io_vector_sizes[i] > 0,
    ensures
        r == packed_plan(
            parallel_vector_size(
                io_vector_sizes@,
                input_shape@,
                input_strides@,
                (input_shape.len() - 1) as usize,
            ),
            shape_product(input_shape@) as usize,
            output_shape@.last(),
            *scheme,
        ),
        r matches Ok(plan) ==> {
            &&& plan.vector_size_in >= 1
            &&& input_shape@.last() % plan.vector_size_in == 0
            &&& plan.num_elems * plan.vector_size_in == shape_product(input_shape@)
            &&& plan.vector_size_in == 1 || io_vector_sizes@.contains(plan.vector_size_in)
        },
        r matches Ok(plan) ==> {
            output_shape@.last() % plan.vector_size_out == 0 && input_shape.len()
                <= input_strides.len() && input_strides[input_shape.len() - 1] == 1
                ==> forall|c: usize|
                io_vector_sizes@.contains(c) && vector_fits(
                    c,
                    input_shape@.last(),
                    min_other_stride(input_strides@, input_shape.len() - 1),
                ) ==> c <= plan.vector_size_in
        },
{
    let num_elems_input = num_elements(input_shape);
    let vector_size = tensor_vector_size_parallel(
        io_vector_sizes,
        input_shape,
        input_strides,
        input_shape.len() - 1,
    );
    let rank = output_shape.len();
    let r = dequantize_packed_plan(vector_size, num_elems_input, output_shape[rank - 1], scheme);
    proof {
        if let Ok(plan) = r {
            lemma_product_divisible(input_shape@, plan.vector_size_in as nat);
        }
    }
    r
}

/// Vector sizes, work units and quantized storage type of a launch of the native kernel.
#[derive(Clone, Copy, Debug, PartialEq, Eq)]
pub struct NativeLaunchPlan {
    /// Number of quantized elements each work unit reads.
    pub vector_size: usize,
    /// Number of values each work unit writes.
    pub out_vector_size: usize,
    /// Number of work units.
    pub working_units: usize,
    /// Storage type of the quantized input.
    pub quant_dtype: QuantDType,
}

/// The storage type the native kernel reads values of type `value` stored as `store` in.
pub open spec fn native_dtype(value: QuantValue, store: QuantStore) -> QuantDType {
    match (value, store) {
        (QuantValue::E4M3, _) => QuantDType::E4M3,
        (QuantValue::E5M2, _) => QuantDType::E5M2,
        (QuantValue::E2M1, QuantStore::PackedNative(_)) => QuantDType::E2M1x2,
        (QuantValue::E2M1, _) => QuantDType::E2M1,
        _ => QuantDType::I8,
    }
}

/// The native launch, given the vector size found for the input and its number of elements.
pub open spec fn native_plan(found_vector_size: usize, num_elems: usize, scheme: QuantScheme) -> Result<
    NativeLaunchPlan,
    DequantizeError,
> {
    if !has_native_type(scheme.value) {
        Err(DequantizeError::UnsupportedValue(scheme.value))
    } else if scheme.store is PackedU32 {
        Err(DequantizeError::UnsupportedScheme)
    } else {
        let packing = scheme.quants();
        let vector_size = if packing > 1 {
            1
        } else {
            found_vector_size
        };
        Ok(
            NativeLaunchPlan {
                vector_size,
                out_vector_size: if packing > 1 {
                    packing as usize
                } else {
                    vector_size
                },
                working_units: num_elems / vector_size,
                quant_dtype: native_dtype(scheme.value, scheme.store),
            },
        )
    }
}

/// Plan a launch of the native kernel from the vector size found for the input.
///
/// Natively packed values (several per element) are read one element at a time and each
/// element writes all its values; other values are read `found_vector_size` at a time.
/// Only value types with a native element type, stored natively, are supported.
pub fn dequantize_native_plan(
    found_vector_size: usize,
    num_elems: usize,
    scheme: &QuantScheme,
) -> (r: Result<NativeLaunchPlan, DequantizeError>)
    requires
        found_vector_size >= 1,
    ensures
        r == native_plan(found_vector_size, num_elems, *scheme),
{
    proof {
        lemma_element_layout(scheme.value, scheme.store);
    }
    match scheme.value {
        QuantValue::Q8F | QuantValue::Q8S | QuantValue::E4M3 | QuantValue::E5M2
        | QuantValue::E2M1 => {},
        other => {
            return Err(DequantizeError::UnsupportedValue(other));
        },
    }
    let packing = scheme.num_quants();
    let vector_size = if packing > 1 {
        1
    } else {
        found_vector_size
    };
    let working_units = num_elems / vector_size;
    match scheme.store {
        QuantStore::Native | QuantStore::PackedNative(_) => {
            let quant_dtype = match (scheme.value, scheme.store) {
                (QuantValue::E4M3, _) => QuantDType::E4M3,
                (QuantValue::E5M2, _) => QuantDType::E5M2,
                (QuantValue::E2M1, QuantStore::PackedNative(_)) => QuantDType::E2M1x2,
                (QuantValue::E2M1, _) => QuantDType::E2M1,
                _ => QuantDType::I8,
            };
            let out_vector_size = if packing > 1 {
                packing
            } else {
                vector_size
            };
            Ok(NativeLaunchPlan { vector_size, out_vector_size, working_units, quant_dtype })
        },
        QuantStore::PackedU32(_) => Err(DequantizeError::UnsupportedScheme),
    }
}

/// The repacking a native launch needs before it runs.
#[derive(Clone, Copy, Debug)]
pub struct NativeRepack {
    /// The dimension to repack from into the innermost one, if the values are not packed
    /// along the innermost dimension already.
    pub packed_dim: Option<usize>,
    /// The scheme of the values handed to the kernel.
    pub scheme: QuantScheme,
}

/// Decide whether natively packed values must first be repacked along the innermost
/// dimension: they must when they are packed along another one, and the kernel then sees
/// them packed along the innermost dimension.
pub fn plan_native_repack(scheme: QuantScheme) -> (r: NativeRepack)
    ensures
        match scheme.store {
            QuantStore::PackedNative(dim) => if dim != 0 {
                r.packed_dim == Some(dim) && r.scheme == scheme.with_store_spec(
                    QuantStore::PackedNative(0),
                )
            } else {
                r.packed_dim == None::<usize> && r.scheme == scheme
            },
            _ => r.packed_dim == None::<usize> && r.scheme == scheme,
        },
{
    match scheme.store {
        QuantStore::PackedNative(packed_dim) if packed_dim != 0 => NativeRepack {
            packed_dim: Some(packed_dim),
            scheme: scheme.with_store(QuantStore::PackedNative(0)),
        },
        _ => NativeRepack { packed_dim: None, scheme },
    }
}

/// The sizes in `sizes` that are at most `max`, in order.
pub open spec fn sizes_at_most(sizes: Seq<usize>, max: usize) -> Seq<usize>
    decreases sizes.len(),
{
    if sizes.len() == 0 {
        Seq::empty()
    } else if sizes.last() <= max {
        sizes_at_most(sizes.drop_last(), max).push(sizes.last())
    } else {
        sizes_at_most(sizes.drop_last(), max)
    }
}

/// Keeps the sizes that are at most `max`, in order.
fn filter_sizes_at_most(sizes: &Vec<usize>, max: usize) -> (r: Vec<usize>)
    ensures
        r@ == sizes_at_most(sizes@, max),
        forall|i: int| 0 <= i < r.len() ==> r[i] <= max && sizes@.contains(#[trigger] r[i]),
        forall|c: usize| sizes@.contains(c) && c <= max ==> r@.contains(c),
{
    let mut r: Vec<usize> = Vec::new();
    let mut i: usize = 0;
    assert(sizes@.take(0) =~= Seq::<usize>::empty());
    while i < sizes.len()
        invariant
            i <= sizes.len(),
            r@ == sizes_at_most(sizes@.take(i as int), max),
            forall|k: int| 0 <= k < r.len() ==> r[k] <= max && sizes@.contains(#[trigger] r[k]),
            forall|k: int| 0 <= k < i && sizes[k] <= max ==> r@.contains(#[trigger] sizes[k]),
        decreases sizes.len() - i,
    {
        assert(sizes@.take(i + 1).drop_last() =~= sizes@.take(i as int));
        let ghost before = r@;
        if sizes[i] <= max {
            assert(sizes@[i as int] == sizes@.take(i + 1).last());
            r.push(sizes[i]);
            assert(sizes@.contains(sizes@[i as int]));
        }
        assert forall|k: int| 0 <= k <= i && sizes[k] <= max implies r@.contains(
            #[trigger] sizes[k],
        ) by {
            if k < i {
                let j = choose|j: int| 0 <= j < before.len() && before[j] == sizes[k];
                assert(r@[j] == sizes[k]);
            } else {
                assert(r@[r.len() - 1] == sizes[k]);
            }
        }
        i += 1;
    }
    assert(sizes@.take(sizes.len() as int) =~= sizes@);
    assert forall|c: usize| sizes@.contains(c) && c <= max implies r@.contains(c) by {
        let k = choose|k: int| 0 <= k < sizes.len() && sizes@[k] == c;
        assert(sizes[k] <= max);
    }
    r
}

/// The vector size the native launch reads its input with, before planning.
pub open spec fn native_found_vector_size(
    input_shape: Seq<usize>,
    input_strides: Seq<usize>,
    io_vector_sizes: Seq<usize>,
    max_vector_size: usize,
    scheme: QuantScheme,
) -> usize {
    if has_native_type(scheme.value) && scheme.quants() == 1 {
        parallel_vector_size(
            sizes_at_most(io_vector_sizes, max_vector_size),
            input_shape,
            input_strides,
            (input_shape.len() - 1) as usize,
        )
    } else {
        1
    }
}

/// Plan a launch of the native kernel for an input of the given shape and strides (after any
/// repacking, see [`plan_native_repack`]).
///
/// Values that are not natively packed are read with the vector size that
/// `cubecl::tensor_vector_size_parallel` finds along the innermost dimension among the device's
/// optimized sizes that do not exceed `max_vector_size`, the widest vector of the quantized
/// element type; see [`dequantize_native_plan`]. Every input element is covered.
pub fn plan_dequantize_native(
    input_shape: &Vec<usize>,
    input_strides: &Vec<usize>,
    io_vector_sizes: &Vec<usize>,
    max_vector_size: usize,
    scheme: &QuantScheme,
) -> (r: Result<NativeLaunchPlan, DequantizeError>)
    requires
        product_fits(input_shape@),
        has_native_type(scheme.value) && scheme.quants() == 1 ==> {
            &&& input_shape.len() >= 1
            &&& forall|i: int|
                0 <= i < io_vector_sizes.len() && io_vector_sizes[i] <= max_vector_size
                    ==> io_vector_sizes[i] > 0
        },
    ensures
        r == native_plan(
            native_found_vector_size(
                input_shape@,
                input_strides@,
                io_vector_sizes@,
                max_vector_size,
                *scheme,
            ),
            shape_product(input_shape@) as usize,
            *scheme,
        ),
        r matches Ok(plan) ==> {
            &&& plan.vector_size >= 1
            &&& plan.working_units * plan.vector_size == shape_product(input_shape@)
            &&& input_shape.len() >= 1 ==> input_shape@.last() % plan.vector_size == 0
            &&& plan.vector_size == 1 || (plan.vector_size <= max_vector_size
                && io_vector_sizes@.contains(plan.vector_size))
        },
        r matches Ok(plan) ==> {
            scheme.quants() == 1 && input_shape.len() >= 1 && input_shape.len()
                <= input_strides.len() && input_strides[input_shape.len() - 1] == 1
                ==> forall|c: usize|
                io_vector_sizes@.contains(c) && c <= max_vector_size && vector_fits(
                    c,
                    input_shape@.last(),
                    min_other_stride(input_strides@, input_shape.len() - 1),
                ) ==> c <= plan.vector_size
        },
{
    proof {
        lemma_element_layout(scheme.value, scheme.store);
    }
    let num_elems = num_elements(input_shape);
    match scheme.value {
        QuantValue::Q8F | QuantValue::Q8S | QuantValue::E4M3 | QuantValue::E5M2
        | QuantValue::E2M1 => {},
        other => {
            return Err(DequantizeError::UnsupportedValue(other));
        },
    }
    let packing = scheme.num_quants();
    let candidates = if packing > 1 {
        Vec::new()
    } else {
        filter_sizes_at_most(io_vector_sizes, max_vector_size)
    };
    let found = if packing > 1 {
        1
    } else {
        tensor_vector_size_parallel(&candidates, input_shape, input_strides, input_shape.len() - 1)
    };
    let r = dequantize_native_plan(found, num_elems, scheme);
    proof {
        if let Ok(plan) = r {
            if packing > 1 {
                assert(plan.vector_size == 1);
            } else {
                lemma_product_divisible(input_shape@, plan.vector_size as nat);
                if plan.vector_size != 1 {
                    let i = choose|i: int| 0 <= i < candidates@.len() && candidates@[i] == found;
                    assert(candidates[i] <= max_vector_size && io_vector_sizes@.contains(candidates[i]));
                }
            }
        }
    }
    r
}

/// Which kernel a scheme is routed to. Schemes packed in `u32` words always go to the packed
/// kernel. When the device converts `i8`, 8-bit values stored natively and e2m1 values packed
/// natively (on any dimension) go to the native kernel. Every other scheme, and every
/// non-`u32` scheme on a device without the conversion, is refused as unsupported for native
/// quantization, naming its value type.
pub proof fn lemma_route_targets(scheme: QuantScheme, conversion_supported: bool)
    ensures
        scheme.store is PackedU32 ==> route(scheme, conversion_supported) == Ok::<
            DequantizeRoute,
            DequantizeError,
        >(DequantizeRoute::Packed),
        route(scheme, conversion_supported) == Ok::<DequantizeRoute, DequantizeError>(
            DequantizeRoute::Native,
        ) <==> conversion_supported && ((scheme.value == QuantValue::E2M1
            && scheme.store is PackedNative) || (scheme.store is Native && (scheme.value
            == QuantValue::Q8F || scheme.value == QuantValue::Q8S || scheme.value
            == QuantValue::E4M3 || scheme.value == QuantValue::E5M2))),
        route(scheme, conversion_supported) is Err ==> route(scheme, conversion_supported)
            == Err::<DequantizeRoute, DequantizeError>(
            DequantizeError::UnsupportedNative(scheme.value),
        ),
        !(scheme.store is PackedU32) && !conversion_supported ==> route(
            scheme,
            conversion_supported,
        ) is Err,
{
}

/// The route of a scheme depends only on its value type and on the kind of its store: not on
/// the dimension a store is packed on, the precision of the scales or the quantization level.
pub proof fn lemma_route_ignores_dimension_and_level(
    a: QuantScheme,
    b: QuantScheme,
    conversion_supported: bool,
)
    requires
        a.value == b.value,
        (a.store is Native) == (b.store is Native),
        (a.store is PackedNative) == (b.store is PackedNative),
        (a.store is PackedU32) == (b.store is PackedU32),
    ensures
        route(a, conversion_supported) == route(b, conversion_supported),
{
}

/// Every scheme packed in `u32` words gets a packed launch, whatever its value type, scale
/// precision or level: each word unpacks to `32 / bits` values, the words are read
/// `found_vector_size` at a time when the innermost output dimension holds whole words (one at
/// a time otherwise), and the work units cover the input. Any other store is refused.
pub proof fn lemma_packed_plan_accepts_u32_stores(
    found_vector_size: usize,
    num_elems_input: usize,
    output_last_dim: usize,
    scheme: QuantScheme,
)
    requires
        found_vector_size >= 1,
    ensures
        scheme.store is PackedU32 ==> {
            let r = packed_plan(found_vector_size, num_elems_input, output_last_dim, scheme);
            &&& r is Ok
            &&& r->Ok_0.vector_size_out == 32nat / scheme.value.bits()
            &&& r->Ok_0.vector_size_in == (if output_last_dim as nat % (32nat / scheme.value.bits())
                == 0 {
                found_vector_size
            } else {
                1
            })
            &&& r->Ok_0.num_elems == num_elems_input / r->Ok_0.vector_size_in
        },
        !(scheme.store is PackedU32) ==> packed_plan(
            found_vector_size,
            num_elems_input,
            output_last_dim,
            scheme,
        ) == Err::<PackedLaunchPlan, DequantizeError>(DequantizeError::UnsupportedScheme),
{
    lemma_element_layout(scheme.value, scheme.store);
}

/// The packed launch depends on the scheme only through its value type and store: the scale
/// precision and the quantization level (tensor or block) do not change it.
pub proof fn lemma_packed_plan_ignores_level(
    found_vector_size: usize,
    num_elems_input: usize,
    output_last_dim: usize,
    a: QuantScheme,
    b: QuantScheme,
)
    requires
        a.value == b.value,
        a.store == b.store,
    ensures
        packed_plan(found_vector_size, num_elems_input, output_last_dim, a) == packed_plan(
            found_vector_size,
            num_elems_input,
            output_last_dim,
            b,
        ),
{
}

/// A native launch exists exactly for the value types with a native element type (8-bit
/// integers, e4m3, e5m2, e2m1) in a store other than `u32` words, whatever the level. Its
/// quantized storage type is `I8` exactly for the integer types Q8F and Q8S, `E4M3` for e4m3,
/// `E5M2` for e5m2, and `E2M1x2` for e2m1 packed natively. Natively packed e2m1 is read one
/// byte (two values) at a time; other values `found_vector_size` at a time.
pub proof fn lemma_native_plan_types(found_vector_size: usize, num_elems: usize, scheme: QuantScheme)
    requires
        found_vector_size >= 1,
    ensures
        native_plan(found_vector_size, num_elems, scheme) is Ok <==> !(scheme.store is PackedU32)
            && (scheme.value == QuantValue::Q8F || scheme.value == QuantValue::Q8S
            || scheme.value == QuantValue::E4M3 || scheme.value == QuantValue::E5M2
            || scheme.value == QuantValue::E2M1),
        native_plan(found_vector_size, num_elems, scheme) matches Ok(p) ==> {
            &&& (p.quant_dtype == QuantDType::I8 <==> (scheme.value == QuantValue::Q8F
                || scheme.value == QuantValue::Q8S))
            &&& (p.quant_dtype == QuantDType::E4M3 <==> scheme.value == QuantValue::E4M3)
            &&& (p.quant_dtype == QuantDType::E5M2 <==> scheme.value == QuantValue::E5M2)
            &&& (p.quant_dtype == QuantDType::E2M1x2 <==> (scheme.value == QuantValue::E2M1
                && scheme.store is PackedNative))
            &&& (scheme.value == QuantValue::E2M1 && scheme.store is PackedNative) ==> {
                &&& p.vector_size == 1
                &&& p.out_vector_size == 2
                &&& p.working_units == num_elems
            }
            &&& scheme.store is Native ==> {
                &&& p.vector_size == found_vector_size
                &&& p.out_vector_size == found_vector_size
                &&& p.working_units == num_elems / found_vector_size
            }
        },
{
    lemma_element_layout(scheme.value, scheme.store);
}

/// The native launch depends on the scheme only through its value type and the kind of its
/// store: not on the dimension a store is packed on, the scale precision or the level.
pub proof fn lemma_native_plan_ignores_level(
    found_vector_size: usize,
    num_elems: usize,
    a: QuantScheme,
    b: QuantScheme,
)
    requires
        a.value == b.value,
        (a.store is Native) == (b.store is Native),
        (a.store is PackedNative) == (b.store is PackedNative),
        (a.store is PackedU32) == (b.store is PackedU32),
    ensures
        native_plan(found_vector_size, num_elems, a) == native_plan(found_vector_size, num_elems, b),
{
    lemma_element_layout(a.value, a.store);
    lemma_element_layout(b.value, b.store);
}

} // verus!
