use cubek::scheme::{QuantLevel, QuantMode, QuantParam, QuantScheme, QuantStore, QuantValue};

fn scheme(value: QuantValue, store: QuantStore) -> QuantScheme {
    QuantScheme {
        value,
        param: QuantParam::F32,
        store,
        level: QuantLevel::Tensor,
        mode: QuantMode::Symmetric,
    }
}

#[test]
fn size_bits_of_each_value() {
    assert_eq!(QuantValue::Q8F.size_bits(), 8);
    assert_eq!(QuantValue::E5M2.size_bits(), 8);
    assert_eq!(QuantValue::Q4S.size_bits(), 4);
    assert_eq!(QuantValue::E2M1.size_bits(), 4);
    assert_eq!(QuantValue::Q2F.size_bits(), 2);
    assert_eq!(QuantValue::E2M1.native_packing(), 2);
    assert_eq!(QuantValue::Q8S.native_packing(), 1);
}

#[test]
fn num_quants_per_store() {
    assert_eq!(scheme(QuantValue::Q8F, QuantStore::PackedU32(0)).num_quants(), 4);
    assert_eq!(scheme(QuantValue::Q4S, QuantStore::PackedU32(0)).num_quants(), 8);
    assert_eq!(scheme(QuantValue::Q2S, QuantStore::PackedU32(0)).num_quants(), 16);
    assert_eq!(scheme(QuantValue::E2M1, QuantStore::PackedNative(0)).num_quants(), 2);
    assert_eq!(scheme(QuantValue::E4M3, QuantStore::Native).num_quants(), 1);
    assert_eq!(QuantStore::PackedNative(1).size_bits(&QuantValue::E2M1), 8);
    assert_eq!(QuantStore::PackedU32(1).size_bits(&QuantValue::Q2F), 32);
}

#[test]
fn with_store_keeps_the_rest() {
    let s = QuantScheme {
        value: QuantValue::E2M1,
        param: QuantParam::UE8M0,
        store: QuantStore::PackedNative(2),
        level: QuantLevel::Block(cubecl_common::quant::scheme::BlockSize::new([32])),
        mode: QuantMode::Symmetric,
    };
    let t = s.with_store(QuantStore::PackedNative(0));
    assert_eq!(t.store, QuantStore::PackedNative(0));
    assert_eq!(t.value, QuantValue::E2M1);
    assert_eq!(t.param, QuantParam::UE8M0);
    assert!(matches!(t.level, QuantLevel::Block(_)));
}
