//! Symmetric dequantization: which quantized values meet which scale.
//!
//! A dequantized value is `scale * q`, where `q` is a quantized integer and `scale` the
//! floating-point scale of the block it belongs to. The functions here compute, exactly,
//! the integers `q` and the scale each one is multiplied by; the scales are read from a
//! sequence indexed by the position of the (unpacked) value they apply to.

use vstd::prelude::*;

use crate::scheme::QuantScheme;
use crate::unpack::{unpack_q, unpacks_to};

verus! {

/// The quantized integers of one stored element together with the scale they share:
/// they dequantize to `scale * values[k]`.
pub struct ScaledValues<S> {
    /// The signed quantized integers, in order.
    pub values: Vec<i32>,
    /// The scale that applies to every one of them.
    pub scale: S,
}

/// The quantized values of a natively stored vector together with the scale they share.
pub struct NativeScaledValues<Q, S> {
    /// The stored quantized elements, in order.
    pub values: Vec<Q>,
    /// The scale that applies to every one of them.
    pub scale: S,
}

/// Index of the scale read for lane `i` of the packed vector at `position`.
pub open spec fn packed_scale_index(position: int, vector_size: int, i: int, num_quants: int) -> int {
    position * vector_size + i * num_quants
}

/// `lane` is the dequantization of the packed word `word` with scale `scale`.
pub open spec fn scaled_lane<S>(lane: ScaledValues<S>, word: u32, scale: S, scheme: QuantScheme) -> bool {
    &&& unpacks_to(lane.values@, word, scheme.value, scheme.store)
    &&& lane.scale == scale
}

/// Every scale read for the packed vector of `vector_size` words at `position` is in `scales`.
pub open spec fn scale_indices_in_bounds(
    vector_size: int,
    scales_len: int,
    position: int,
    scheme: QuantScheme,
) -> bool {
    forall|i: int|
        0 <= i < vector_size ==> #[trigger] packed_scale_index(
            position,
            vector_size,
            i,
            scheme.quants() as int,
        ) < scales_len
}

/// `tmp` is the dequantization of the packed vector `values` with the scales at `position`:
/// lane `i` unpacks `values[i]` and takes the scale at `position * values.len() + i * num_quants`.
pub open spec fn dequantized_vector<S>(
    tmp: Seq<ScaledValues<S>>,
    values: Seq<u32>,
    scales: Seq<S>,
    position: int,
    scheme: QuantScheme,
) -> bool {
    &&& tmp.len() == values.len()
    &&& forall|i: int|
        0 <= i < values.len() ==> #[trigger] scaled_lane(
            tmp[i],
            values[i],
            scales[packed_scale_index(position, values.len() as int, i, scheme.quants() as int)],
            scheme,
        )
}

/// Dequantizing a packed vector is determined by its inputs: two dequantizations of the same
/// words with the same scales at the same position agree lane by lane.
pub proof fn lemma_dequantized_vector_unique<S>(
    a: Seq<ScaledValues<S>>,
    b: Seq<ScaledValues<S>>,
    values: Seq<u32>,
    scales: Seq<S>,
    position: int,
    scheme: QuantScheme,
)
    requires
        dequantized_vector(a, values, scales, position, scheme),
        dequantized_vector(b, values, scales, position, scheme),
    ensures
        a.len() == b.len(),
        forall|i: int|
            0 <= i < a.len() ==> #[trigger] a[i].values@ == b[i].values@ && a[i].scale
                == b[i].scale,
{
    assert forall|i: int| 0 <= i < a.len() implies #[trigger] a[i].values@ == b[i].values@
        && a[i].scale == b[i].scale by {
        let idx = packed_scale_index(position, values.len() as int, i, scheme.quants() as int);
        assert(scaled_lane(a[i], values[i], scales[idx], scheme));
        assert(scaled_lane(b[i], values[i], scales[idx], scheme));
        assert(a[i].values@ =~= b[i].values@);
    }
}

/// Dequantize a single packed vector using the scales at the given position.
///
/// Lane `i` unpacks `values[i]` and takes the scale at `position * values.len() + i * num_quants`.
pub fn dequantize_symmetric_packed_value<S: Copy>(
    values: &Vec<u32>,
    scales: &Vec<S>,
    position: usize,
    scheme: QuantScheme,
) -> (tmp: Vec<ScaledValues<S>>)
    requires
        scale_indices_in_bounds(values.len() as int, scales.len() as int, position as int, scheme),
    ensures
        dequantized_vector(tmp@, values@, scales@, position as int, scheme),
{
    let vector_size_values = values.len();
    let num_quants = scheme.num_quants();
    let mut tmp: Vec<ScaledValues<S>> = Vec::new();
    let mut i: usize = 0;
    while i < vector_size_values
        invariant
            i <= vector_size_values,
            vector_size_values == values.len(),
            num_quants == scheme.quants(),
            tmp.len() == i,
            scale_indices_in_bounds(values.len() as int, scales.len() as int, position as int, scheme),
            forall|j: int|
                0 <= j < i ==> #[trigger] scaled_lane(
                    tmp[j],
                    values[j],
                    scales[packed_scale_index(
                        position as int,
                        values.len() as int,
                        j,
                        scheme.quants() as int,
                    )],
                    scheme,
                ),
        decreases vector_size_values - i,
    {
        let floats = unpack_q(values[i], scheme.value, scheme.store);
        assert(packed_scale_index(position as int, values.len() as int, i as int, scheme.quants() as int) < scales.len());
        assert(position * vector_size_values <= position * vector_size_values + i * num_quants) by (nonlinear_arith);
        let index = (position * vector_size_values) + i * num_quants;
        let scale = scales[index];
        tmp.push(ScaledValues { values: floats, scale });
        i += 1;
    }
    tmp
}

/// Dequantize a single packed vector using the scales at the specified position: the same
/// dequantization as [`dequantize_symmetric_packed_value`], arguments reordered.
pub fn dequantize_symmetric_packed_value_at<S: Copy>(
    position: usize,
    values: &Vec<u32>,
    scales: &Vec<S>,
    scheme: QuantScheme,
) -> (tmp: Vec<ScaledValues<S>>)
    requires
        scale_indices_in_bounds(values.len() as int, scales.len() as int, position as int, scheme),
    ensures
        dequantized_vector(tmp@, values@, scales@, position as int, scheme),
{
    dequantize_symmetric_packed_value(values, scales, position, scheme)
}

/// Dequantize the packed vector at a specified position of `values`: the same position picks
/// the vector and is the scale position, as [`dequantize_symmetric_packed_value_at`] with
/// `values[position]`.
pub fn dequantize_symmetric_packed_values<S: Copy>(
    position: usize,
    values: &Vec<Vec<u32>>,
    scales: &Vec<S>,
    scheme: QuantScheme,
) -> (tmp: Vec<ScaledValues<S>>)
    requires
        position < values.len(),
        scale_indices_in_bounds(
            values[position as int].len() as int,
            scales.len() as int,
            position as int,
            scheme,
        ),
    ensures
        dequantized_vector(tmp@, values[position as int]@, scales@, position as int, scheme),
{
    dequantize_symmetric_packed_value_at(position, &values[position], scales, scheme)
}

/// Position of the first unpacked value held by packed element `j`: the scale of that
/// value is the scale of the whole element.
pub open spec fn first_value_index(j: int, num_quants: int) -> int {
    j * num_quants
}

/// `lane` is the dequantization of packed element `j` of `input`.
pub open spec fn packed_element_lane<S>(
    lane: ScaledValues<S>,
    input: Seq<u32>,
    scales: Seq<S>,
    j: int,
    scheme: QuantScheme,
) -> bool {
    scaled_lane(lane, input[j], scales[first_value_index(j, scheme.quants() as int)], scheme)
}

/// Element `j` belongs to the vector at `position` of a view with `vector_size` elements per vector.
pub open spec fn in_vector(j: int, position: int, vector_size: int) -> bool {
    position * vector_size <= j < position * vector_size + vector_size
}

/// One invocation of the packed dequantization kernel, at `absolute_pos`.
///
/// `input` is the packed tensor, read `vector_size_in` words at a time; `output` holds one
/// lane per packed word. An invocation past the last vector does nothing; otherwise it
/// dequantizes the words of its vector, each with the scale of its first value.
pub fn dequantize_symmetric_packed_kernel<S: Copy>(
    input: &Vec<u32>,
    vector_size_in: usize,
    scales: &Vec<S>,
    output: &mut Vec<ScaledValues<S>>,
    absolute_pos: usize,
    scheme: QuantScheme,
)
    requires
        vector_size_in > 0,
        input.len() % vector_size_in == 0,
        old(output).len() == input.len(),
        forall|j: int|
            0 <= j < input.len() ==> #[trigger] first_value_index(j, scheme.quants() as int)
                < scales.len(),
    ensures
        final(output).len() == old(output).len(),
        forall|j: int|
            0 <= j < input.len() ==> if absolute_pos < input.len() / vector_size_in
                && in_vector(j, absolute_pos as int, vector_size_in as int) {
                packed_element_lane(#[trigger] final(output)[j], input@, scales@, j, scheme)
            } else {
                final(output)[j] == old(output)[j]
            },
{
    let num_vectors = input.len() / vector_size_in;
    if absolute_pos >= num_vectors {
        return;
    }
    let num_quants = scheme.num_quants();
    proof {
        crate::unpack::lemma_element_layout(scheme.value, scheme.store);
    }
    assert((absolute_pos + 1) * vector_size_in <= input.len()) by (nonlinear_arith)
        requires
            absolute_pos < num_vectors,
            num_vectors == input.len() / vector_size_in,
            vector_size_in > 0,
    ;
    assert(absolute_pos * vector_size_in + vector_size_in <= input.len()) by (nonlinear_arith)
        requires
            (absolute_pos + 1) * vector_size_in <= input.len(),
    ;
    let start = absolute_pos * vector_size_in;
    let mut values: Vec<u32> = Vec::new();
    let mut i: usize = 0;
    while i < vector_size_in
        invariant
            i <= vector_size_in,
            start + vector_size_in <= input.len(),
            values@.len() == i,
            forall|k: int| 0 <= k < i ==> values@[k] == input@[start + k],
        decreases vector_size_in - i,
    {
        values.push(input[start + i]);
        i += 1;
    }
    assert(absolute_pos * num_quants <= first_value_index(start as int, num_quants as int)) by (nonlinear_arith)
        requires
            start == absolute_pos * vector_size_in,
            vector_size_in >= 1,
    ;
    assert(first_value_index(start as int, scheme.quants() as int) < scales.len());
    let packed_pos = absolute_pos * num_quants;
    assert forall|i: int| 0 <= i < values.len() implies #[trigger] packed_scale_index(
        packed_pos as int,
        values.len() as int,
        i,
        scheme.quants() as int,
    ) == first_value_index(start + i, scheme.quants() as int) by {
        assert(packed_pos * vector_size_in + i * num_quants == (start + i) * num_quants) by (nonlinear_arith)
            requires
                packed_pos == absolute_pos * num_quants,
                start == absolute_pos * vector_size_in,
        ;
    }
    assert forall|i: int| 0 <= i < values.len() implies #[trigger] packed_scale_index(
        packed_pos as int,
        values.len() as int,
        i,
        scheme.quants() as int,
    ) < scales.len() by {
        assert(first_value_index(start + i, scheme.quants() as int) < scales.len());
    }
    let mut out = dequantize_symmetric_packed_value(&values, scales, packed_pos, scheme);
    let ghost lanes = out@;
    let ghost before = output@;
    assert forall|k: int| 0 <= k < vector_size_in implies #[trigger] scaled_lane(
        lanes[k],
        input@[start + k],
        scales@[first_value_index(start + k, scheme.quants() as int)],
        scheme,
    ) by {
        assert(scaled_lane(
            out[k],
            values[k],
            scales[packed_scale_index(packed_pos as int, values.len() as int, k, scheme.quants() as int)],
            scheme,
        ));
        assert(packed_scale_index(packed_pos as int, values.len() as int, k, scheme.quants() as int)
            == first_value_index(start + k, scheme.quants() as int));
    }
    let mut i: usize = vector_size_in;
    while i > 0
        invariant
            i <= vector_size_in,
            start + vector_size_in <= input.len(),
            output.len() == input.len(),
            out@ == lanes.take(i as int),
            lanes.len() == vector_size_in,
            before.len() == input.len(),
            forall|k: int|
                0 <= k < vector_size_in ==> #[trigger] scaled_lane(
                    lanes[k],
                    input@[start + k],
                    scales@[first_value_index(start + k, scheme.quants() as int)],
                    scheme,
                ),
            forall|j: int|
                0 <= j < input.len() ==> if start + i <= j < start + vector_size_in {
                    #[trigger] output@[j] == lanes[j - start]
                } else {
                    output@[j] == before[j]
                },
        decreases i,
    {
        i -= 1;
        let lane = out.pop().unwrap();
        assert(lane == lanes[i as int]);
        let ghost prev = output@;
        output[start + i] = lane;
        assert(out@ == lanes.take(i as int));
        assert forall|j: int| 0 <= j < input.len() implies if start + i <= j < start + vector_size_in {
            output@[j] == lanes[j - start]
        } else {
            output@[j] == before[j]
        } by {
            if j != start + i {
                assert(output@[j] == prev[j]);
            }
        }
    }
    assert forall|j: int|
        0 <= j < input.len() && in_vector(j, absolute_pos as int, vector_size_in as int) implies
        packed_element_lane(#[trigger] output@[j], input@, scales@, j, scheme) by {
        assert(scaled_lane(
            lanes[j - start],
            input@[start + (j - start)],
            scales@[first_value_index(start + (j - start), scheme.quants() as int)],
            scheme,
        ));
    }
}

/// The packed dequantization kernel launched over every vector of the input: every packed
/// word is dequantized, each with the scale of its first value.
pub fn dequantize_symmetric_packed_launch<S: Copy>(
    input: &Vec<u32>,
    vector_size_in: usize,
    scales: &Vec<S>,
    output: &mut Vec<ScaledValues<S>>,
    scheme: QuantScheme,
)
    requires
        vector_size_in > 0,
        input.len() % vector_size_in == 0,
        old(output).len() == input.len(),
        forall|j: int|
            0 <= j < input.len() ==> #[trigger] first_value_index(j, scheme.quants() as int)
                < scales.len(),
    ensures
        final(output).len() == input.len(),
        forall|j: int|
            0 <= j < input.len() ==> packed_element_lane(
                #[trigger] final(output)[j],
                input@,
                scales@,
                j,
                scheme,
            ),
{
    let num_vectors = input.len() / vector_size_in;
    assert(num_vectors * vector_size_in == input.len()) by (nonlinear_arith)
        requires
            num_vectors == input.len() / vector_size_in,
            input.len() % vector_size_in == 0,
            vector_size_in > 0,
    ;
    let mut pos: usize = 0;
    while pos < num_vectors
        invariant
            pos <= num_vectors,
            num_vectors == input.len() / vector_size_in,
            num_vectors * vector_size_in == input.len(),
            vector_size_in > 0,
            input.len() % vector_size_in == 0,
            output.len() == input.len(),
            forall|j: int|
                0 <= j < input.len() ==> #[trigger] first_value_index(j, scheme.quants() as int)
                    < scales.len(),
            forall|j: int|
                0 <= j < pos * vector_size_in ==> packed_element_lane(
                    #[trigger] output@[j],
                    input@,
                    scales@,
                    j,
                    scheme,
                ),
        decreases num_vectors - pos,
    {
        let ghost before = output@;
        dequantize_symmetric_packed_kernel(input, vector_size_in, scales, output, pos, scheme);
        assert forall|j: int| 0 <= j < (pos + 1) * vector_size_in implies packed_element_lane(
            #[trigger] output@[j],
            input@,
            scales@,
            j,
            scheme,
        ) by {
            assert((pos + 1) * vector_size_in == pos * vector_size_in + vector_size_in) by (nonlinear_arith);
            assert((pos + 1) * vector_size_in <= input.len()) by (nonlinear_arith)
                requires
                    pos < num_vectors,
                    num_vectors * vector_size_in == input.len(),
            ;
            if j < pos * vector_size_in {
                assert(!in_vector(j, pos as int, vector_size_in as int));
                assert(output@[j] == before[j]);
            } else {
                assert(in_vector(j, pos as int, vector_size_in as int));
            }
        }
        pos += 1;
    }
}

/// Index of the scale read for the native vector at `position`: the position of its first
/// unpacked value, with `native_packing` values per stored element.
pub open spec fn native_scale_index(position: int, vector_size: int, native_packing: int) -> int {
    position * vector_size * native_packing
}

/// One invocation of the native dequantization kernel, at `absolute_pos`.
///
/// `input` holds natively stored quantized elements (each holding `native_packing` values),
/// read `vector_size` at a time; `output` holds one lane per input vector. An invocation past
/// the last vector does nothing; otherwise its vector is paired with the scale of its first value.
pub fn dequantize_symmetric_native_kernel<Q: Copy, S: Copy>(
    input: &Vec<Q>,
    vector_size: usize,
    native_packing: usize,
    scales: &Vec<S>,
    output: &mut Vec<NativeScaledValues<Q, S>>,
    absolute_pos: usize,
)
    requires
        vector_size > 0,
        input.len() % vector_size == 0,
        old(output).len() == input.len() / vector_size,
        forall|p: int|
            0 <= p < input.len() / vector_size ==> #[trigger] native_scale_index(
                p,
                vector_size as int,
                native_packing as int,
            ) < scales.len(),
    ensures
        final(output).len() == old(output).len(),
        forall|p: int|
            #![trigger final(output)[p]]
            0 <= p < old(output).len() ==> if p == absolute_pos {
                &&& final(output)[p].values@ == input@.subrange(
                    p * vector_size,
                    p * vector_size + vector_size,
                )
                &&& final(output)[p].scale == scales@[native_scale_index(
                    p,
                    vector_size as int,
                    native_packing as int,
                )]
            } else {
                final(output)[p] == old(output)[p]
            },
{
    let num_vectors = input.len() / vector_size;
    if absolute_pos >= num_vectors {
        return;
    }
    assert(native_scale_index(absolute_pos as int, vector_size as int, native_packing as int)
        < scales.len());
    assert(absolute_pos * vector_size + vector_size <= input.len()) by (nonlinear_arith)
        requires
            absolute_pos < num_vectors,
            num_vectors == input.len() / vector_size,
            vector_size > 0,
    ;
    let start = absolute_pos * vector_size;
    let scale = scales[start * native_packing];
    let mut values: Vec<Q> = Vec::new();
    let mut i: usize = 0;
    while i < vector_size
        invariant
            i <= vector_size,
            start + vector_size <= input.len(),
            values@ == input@.subrange(start as int, start + i),
        decreases vector_size - i,
    {
        values.push(input[start + i]);
        i += 1;
    }
    output[absolute_pos] = NativeScaledValues { values, scale };
}

/// The native dequantization kernel launched over every vector of the input: every vector
/// is paired with the scale of its first value.
pub fn dequantize_symmetric_native_launch<Q: Copy, S: Copy>(
    input: &Vec<Q>,
    vector_size: usize,
    native_packing: usize,
    scales: &Vec<S>,
    output: &mut Vec<NativeScaledValues<Q, S>>,
)
    requires
        vector_size > 0,
        input.len() % vector_size == 0,
        old(output).len() == input.len() / vector_size,
        forall|p: int|
            0 <= p < input.len() / vector_size ==> #[trigger] native_scale_index(
                p,
                vector_size as int,
                native_packing as int,
            ) < scales.len(),
    ensures
        final(output).len() == old(output).len(),
        forall|p: int|
            0 <= p < final(output).len() ==> {
                &&& #[trigger] final(output)[p].values@ == input@.subrange(
                    p * vector_size,
                    p * vector_size + vector_size,
                )
                &&& final(output)[p].scale == scales@[native_scale_index(
                    p,
                    vector_size as int,
                    native_packing as int,
                )]
            },
{
    let num_vectors = input.len() / vector_size;
    let mut pos: usize = 0;
    while pos < num_vectors
        invariant
            pos <= num_vectors,
            num_vectors == input.len() / vector_size,
            vector_size > 0,
            input.len() % vector_size == 0,
            output.len() == num_vectors,
            forall|p: int|
                0 <= p < input.len() / vector_size ==> #[trigger] native_scale_index(
                    p,
                    vector_size as int,
                    native_packing as int,
                ) < scales.len(),
            forall|p: int|
                0 <= p < pos ==> {
                    &&& #[trigger] output@[p].values@ == input@.subrange(
                        p * vector_size,
                        p * vector_size + vector_size,
                    )
                    &&& output@[p].scale == scales@[native_scale_index(
                        p,
                        vector_size as int,
                        native_packing as int,
                    )]
                },
        decreases num_vectors - pos,
    {
        let ghost before = output@;
        dequantize_symmetric_native_kernel(input, vector_size, native_packing, scales, output, pos);
        assert forall|p: int| 0 <= p < pos + 1 implies {
            &&& #[trigger] output@[p].values@ == input@.subrange(
                p * vector_size,
                p * vector_size + vector_size,
            )
            &&& output@[p].scale == scales@[native_scale_index(
                p,
                vector_size as int,
                native_packing as int,
            )]
        } by {
            if p < pos {
                assert(output@[p] == before[p]);
            } else {
                assert(p == pos);
                assert(output[p].values@ == input@.subrange(
                    p * vector_size,
                    p * vector_size + vector_size,
                ));
            }
        }
        pos += 1;
    }
}

} // verus!
