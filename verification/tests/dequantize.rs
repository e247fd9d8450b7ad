use cubek::dequantize::{
    dequantize_symmetric_native_kernel, dequantize_symmetric_native_launch,
    dequantize_symmetric_packed_kernel,
    dequantize_symmetric_packed_launch, dequantize_symmetric_packed_value,
    dequantize_symmetric_packed_value_at, dequantize_symmetric_packed_values,
    NativeScaledValues, ScaledValues,
};
use cubek::scheme::{QuantLevel, QuantMode, QuantParam, QuantScheme, QuantStore, QuantValue};

fn scheme(value: QuantValue, store: QuantStore) -> QuantScheme {
    QuantScheme {
        value,
        param: QuantParam::F32,
        store,
        level: QuantLevel::Tensor,
        mode: QuantMode::Symmetric,
    }
}

fn scales(n: usize) -> Vec<f32> {
    (0..n).map(|i| i as f32 * 0.5).collect()
}

#[test]
fn packed_value_reads_scales_at_position_and_lane() {
    let s = scheme(QuantValue::Q8F, QuantStore::PackedU32(0));
    let sc = scales(16);
    let out = dequantize_symmetric_packed_value(&vec![0x0403_0201, 0xFFFE_FDFC], &sc, 1, s);
    assert_eq!(out.len(), 2);
    // position 1 * 2 lanes + lane * 4 quants
    assert_eq!(out[0].values, vec![1, 2, 3, 4]);
    assert_eq!(out[0].scale, sc[2]);
    assert_eq!(out[1].values, vec![-4, -3, -2, -1]);
    assert_eq!(out[1].scale, sc[6]);
}

#[test]
fn packed_value_at_and_values_agree() {
    let s = scheme(QuantValue::Q4S, QuantStore::PackedU32(0));
    let sc = scales(64);
    let values = vec![vec![0x1111_1111u32], vec![0x2222_2222, 0xFFFF_FFFF]];
    let a = dequantize_symmetric_packed_values(1, &values, &sc, s);
    let b = dequantize_symmetric_packed_value_at(1, &values[1], &sc, s);
    assert_eq!(a.len(), 2);
    for (x, y) in a.iter().zip(b.iter()) {
        assert_eq!(x.values, y.values);
        assert_eq!(x.scale, y.scale);
    }
    assert_eq!(a[0].values, vec![2; 8]);
    assert_eq!(a[0].scale, sc[2]);
    assert_eq!(a[1].values, vec![-1; 8]);
    assert_eq!(a[1].scale, sc[2 + 8]);
}

fn blank(n: usize) -> Vec<ScaledValues<f32>> {
    (0..n).map(|_| ScaledValues { values: vec![], scale: -1.0 }).collect()
}

#[test]
fn packed_kernel_writes_only_its_vector() {
    let s = scheme(QuantValue::Q8S, QuantStore::PackedU32(0));
    let input = vec![0x01u32, 0x02, 0x03, 0x04, 0x05, 0x06];
    let sc = scales(24);
    let mut out = blank(6);
    dequantize_symmetric_packed_kernel(&input, 2, &sc, &mut out, 1, s);
    for j in 0..6 {
        if j == 2 || j == 3 {
            assert_eq!(out[j].values, vec![j as i32 + 1, 0, 0, 0]);
            assert_eq!(out[j].scale, sc[4 * j]);
        } else {
            assert!(out[j].values.is_empty());
            assert_eq!(out[j].scale, -1.0);
        }
    }
}

#[test]
fn packed_kernel_past_the_end_does_nothing() {
    let s = scheme(QuantValue::Q8S, QuantStore::PackedU32(0));
    let input = vec![0x01u32, 0x02, 0x03, 0x04];
    let sc = scales(16);
    let mut out = blank(4);
    dequantize_symmetric_packed_kernel(&input, 2, &sc, &mut out, 2, s);
    assert!(out.iter().all(|l| l.values.is_empty() && l.scale == -1.0));
}

#[test]
fn packed_launch_dequantizes_every_word_with_its_first_value_scale() {
    let s = scheme(QuantValue::Q4F, QuantStore::PackedU32(0));
    let input: Vec<u32> = (0..8u32).map(|i| 0x7654_3210 ^ i).collect();
    let sc = scales(64);
    let mut out = blank(8);
    dequantize_symmetric_packed_launch(&input, 4, &sc, &mut out, s);
    for (j, word) in input.iter().enumerate() {
        assert_eq!(out[j].values, cubek::unpack::unpack_q(*word, QuantValue::Q4F, QuantStore::PackedU32(0)));
        assert_eq!(out[j].scale, sc[8 * j]);
    }
}

#[test]
fn native_kernel_pairs_a_vector_with_the_scale_of_its_first_value() {
    let input: Vec<i8> = vec![1, -2, 3, -4, 5, -6];
    let sc = scales(12);
    let mut out: Vec<NativeScaledValues<i8, f32>> =
        (0..3).map(|_| NativeScaledValues { values: vec![], scale: -1.0 }).collect();
    dequantize_symmetric_native_kernel(&input, 2, 1, &sc, &mut out, 1);
    assert_eq!(out[1].values, vec![3, -4]);
    assert_eq!(out[1].scale, sc[2]);
    assert!(out[0].values.is_empty() && out[2].values.is_empty());

    // natively packed pairs: the first value of vector 2 is value 2 * 1 * 2
    let packed: Vec<u8> = vec![0x12, 0x34, 0x56];
    let mut out: Vec<NativeScaledValues<u8, f32>> =
        (0..3).map(|_| NativeScaledValues { values: vec![], scale: -1.0 }).collect();
    dequantize_symmetric_native_kernel(&packed, 1, 2, &sc, &mut out, 2);
    assert_eq!(out[2].values, vec![0x56]);
    assert_eq!(out[2].scale, sc[4]);
    dequantize_symmetric_native_kernel(&packed, 1, 2, &sc, &mut out, 3);
    assert!(out[0].values.is_empty() && out[1].values.is_empty());
}

#[test]
fn native_launch_pairs_every_vector_with_its_first_value_scale() {
    let input: Vec<u8> = (0..12u8).collect();
    let sc = scales(64);
    let mut out: Vec<NativeScaledValues<u8, f32>> =
        (0..4).map(|_| NativeScaledValues { values: vec![], scale: -1.0 }).collect();
    dequantize_symmetric_native_launch(&input, 3, 2, &sc, &mut out);
    for p in 0..4 {
        assert_eq!(out[p].values, input[3 * p..3 * p + 3].to_vec());
        assert_eq!(out[p].scale, sc[p * 3 * 2]);
    }
}
