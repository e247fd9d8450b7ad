use cubek::scheme::{QuantStore, QuantValue};
use cubek::unpack::unpack_q;

/// Packs signed values back into a word, `bits` bits each, the first value lowest.
fn repack(values: &[i32], bits: u32) -> u32 {
    let mask = (1u32 << bits) - 1;
    values
        .iter()
        .enumerate()
        .fold(0u32, |word, (k, v)| word | (((*v as u32) & mask) << (k as u32 * bits)))
}

#[test]
fn unpack_q8_packed_u32_reads_signed_bytes() {
    let out = unpack_q(0x80FF_7F01, QuantValue::Q8F, QuantStore::PackedU32(0));
    assert_eq!(out, vec![1, 127, -1, -128]);
}

#[test]
fn unpack_q4_packed_u32_reads_signed_nibbles() {
    let out = unpack_q(0x0000_00F7, QuantValue::Q4S, QuantStore::PackedU32(0));
    assert_eq!(out, vec![7, -1, 0, 0, 0, 0, 0, 0]);
    let out = unpack_q(0x8765_4321, QuantValue::Q4F, QuantStore::PackedU32(0));
    assert_eq!(out, vec![1, 2, 3, 4, 5, 6, 7, -8]);
}

#[test]
fn unpack_q2_packed_u32_reads_sixteen_fields() {
    let out = unpack_q(0b1110_0100, QuantValue::Q2S, QuantStore::PackedU32(0));
    let mut expected = vec![0, 1, -2, -1];
    expected.extend(std::iter::repeat(0).take(12));
    assert_eq!(out, expected);
}

#[test]
fn unpack_native_store_holds_one_value() {
    assert_eq!(unpack_q(0xFE, QuantValue::Q8S, QuantStore::Native), vec![-2]);
    assert_eq!(unpack_q(0x7F, QuantValue::Q8F, QuantStore::Native), vec![127]);
}

#[test]
fn unpack_packed_native_e2m1_holds_two_values() {
    assert_eq!(unpack_q(0x9A, QuantValue::E2M1, QuantStore::PackedNative(0)), vec![-6, -7]);
}

#[test]
fn unpack_then_repack_gives_back_the_word() {
    for word in [0u32, 1, 0xFFFF_FFFF, 0x8000_0000, 0x1234_5678, 0xDEAD_BEEF, 0x0F0F_F0F0] {
        for (value, bits) in [(QuantValue::Q8F, 8), (QuantValue::Q4S, 4), (QuantValue::Q2F, 2)] {
            let out = unpack_q(word, value, QuantStore::PackedU32(0));
            assert_eq!(out.len() as u32 * bits, 32);
            assert_eq!(repack(&out, bits), word);
        }
    }
}

#[test]
fn unpacked_values_stay_in_twos_complement_range() {
    for word in [0u32, 0xFFFF_FFFF, 0x8888_8888, 0x7777_7777, 0x1357_9BDF] {
        for (value, bits) in [(QuantValue::Q8S, 8), (QuantValue::Q4F, 4), (QuantValue::Q2S, 2)] {
            let half = 1i32 << (bits - 1);
            for v in unpack_q(word, value, QuantStore::PackedU32(3)) {
                assert!(-half <= v && v < half);
            }
        }
    }
}

#[test]
fn packing_in_range_values_then_unpacking_gives_them_back() {
    let cases: Vec<(QuantValue, u32, Vec<i32>)> = vec![
        (QuantValue::Q8S, 8, vec![-128, 127, 0, -1]),
        (QuantValue::Q4F, 4, vec![-8, 7, -1, 0, 3, -4, 5, -6]),
        (QuantValue::Q2S, 2, vec![-2, 1, 0, -1, 1, 1, -2, 0, -1, -1, 0, 1, -2, -2, 1, 0]),
    ];
    for (value, bits, values) in cases {
        let word = repack(&values, bits);
        assert_eq!(unpack_q(word, value, QuantStore::PackedU32(0)), values);
    }
}
