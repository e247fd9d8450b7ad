use cubecl::ir::{ElemType, FloatKind, StorageType};
use cubek::scaled_mma::{
    AccFragment, CubeDimResource, MatmulAvailabilityError, MatmulElems, MatmulSetupError,
    MatrixLayout, MmaConfig, ScaledMmaConfig, ScaledMmaDefinition, ScaledMmaMatmul, TileSize,
    TilingBlueprint,
};

fn e2m1x2() -> StorageType {
    StorageType::Packed(ElemType::Float(FloatKind::E2M1), 2)
}
fn f32t() -> StorageType {
    StorageType::Scalar(ElemType::Float(FloatKind::F32))
}
fn f16t() -> StorageType {
    StorageType::Scalar(ElemType::Float(FloatKind::F16))
}
fn ue8m0() -> StorageType {
    StorageType::Scalar(ElemType::Float(FloatKind::UE8M0))
}

fn config(a: StorageType, cd: StorageType, m: u32, n: u32, k: u32) -> ScaledMmaConfig {
    ScaledMmaConfig {
        a_type: a,
        b_type: a,
        cd_type: cd,
        scales_type: ue8m0(),
        m,
        n,
        k,
        scales_factor: 2,
    }
}

fn device() -> Vec<ScaledMmaConfig> {
    vec![
        config(e2m1x2(), f32t(), 16, 8, 64),
        config(e2m1x2(), f16t(), 16, 8, 32),
        config(e2m1x2(), f32t(), 16, 16, 64),
    ]
}

fn elems(acc: StorageType) -> MatmulElems {
    MatmulElems {
        lhs_stage: e2m1x2(),
        rhs_stage: e2m1x2(),
        acc_stage: acc,
        lhs_register: e2m1x2(),
        rhs_register: e2m1x2(),
        acc_register: acc,
    }
}

#[test]
fn family_constants() {
    assert!(ScaledMmaMatmul::requires_accelerator());
    assert!(!ScaledMmaMatmul::can_cast_stage_element());
    assert!(!ScaledMmaMatmul::should_swizzle());
    assert_eq!(ScaledMmaMatmul::cubedim_resource(), Ok(CubeDimResource::Planes(1)));
}

#[test]
fn is_supported_matches_types_and_shape() {
    let d = device();
    let ok = MmaConfig { a_type: e2m1x2(), b_type: e2m1x2(), cd_type: f32t(), m: 16, n: 8, k: 64 };
    assert!(ScaledMmaMatmul::is_supported(&d, &ok));
    let wrong_k = MmaConfig { k: 32, ..ok };
    assert!(!ScaledMmaMatmul::is_supported(&d, &wrong_k));
    let wrong_acc = MmaConfig { cd_type: f16t(), ..ok };
    assert!(!ScaledMmaMatmul::is_supported(&d, &wrong_acc));
    assert!(ScaledMmaMatmul::is_supported(&d, &MmaConfig { k: 32, ..wrong_acc }));
    assert!(!ScaledMmaMatmul::is_supported(&vec![], &ok));
}

#[test]
fn supported_sizes_filters_by_types_in_order() {
    let d = device();
    assert_eq!(
        ScaledMmaMatmul::supported_sizes(&d, &e2m1x2(), &e2m1x2(), &f32t()),
        vec![TileSize { m: 16, n: 8, k: 64 }, TileSize { m: 16, n: 16, k: 64 }]
    );
    assert_eq!(
        ScaledMmaMatmul::supported_sizes(&d, &e2m1x2(), &e2m1x2(), &f16t()),
        vec![TileSize { m: 16, n: 8, k: 32 }]
    );
    assert!(ScaledMmaMatmul::supported_sizes(&d, &f32t(), &e2m1x2(), &f32t()).is_empty());
}

#[test]
fn validate_blueprint_accepts_supported_tiles_only() {
    let d = device();
    let good = TilingBlueprint { tile_size: TileSize { m: 16, n: 16, k: 64 }, plane_dim: 32, swizzle_modes: () };
    assert!(ScaledMmaMatmul::validate_blueprint(&d, &good, &elems(f32t())).is_ok());
    let bad = TilingBlueprint { tile_size: TileSize { m: 32, n: 16, k: 64 }, plane_dim: 32, swizzle_modes: () };
    match ScaledMmaMatmul::validate_blueprint(&d, &bad, &elems(f32t())) {
        Err(MatmulSetupError::Unavailable(MatmulAvailabilityError::CmmaInstructionUnavailable {
            lhs,
            rhs,
            output,
            size,
        })) => {
            assert!(lhs == e2m1x2() && rhs == e2m1x2() && output == f32t());
            assert_eq!(size, Some(TileSize { m: 32, n: 16, k: 64 }));
        }
        Ok(()) => panic!("unsupported tile accepted"),
    }
}

#[test]
fn validate_agrees_with_supported_sizes() {
    let d = device();
    for acc in [f32t(), f16t()] {
        let sizes = ScaledMmaMatmul::supported_sizes(&d, &e2m1x2(), &e2m1x2(), &acc);
        for (m, n, k) in [(16, 8, 64), (16, 8, 32), (16, 16, 64), (8, 8, 8)] {
            let tile = TileSize { m, n, k };
            let bp = TilingBlueprint { tile_size: tile, plane_dim: 32, swizzle_modes: () };
            let valid = ScaledMmaMatmul::validate_blueprint(&d, &bp, &elems(acc)).is_ok();
            assert_eq!(valid, sizes.contains(&tile));
        }
    }
}

#[test]
fn expand_config_and_definition() {
    let bp = TilingBlueprint { tile_size: TileSize { m: 16, n: 8, k: 64 }, plane_dim: 32, swizzle_modes: 7u8 };
    let config = match ScaledMmaMatmul::expand_config(&bp, "io") {
        Ok(c) => c,
        Err(_) => panic!("expand_config failed"),
    };
    assert_eq!(config.shared.tile_size, bp.tile_size);
    assert_eq!(config.shared.plane_dim, 32);
    assert_eq!(config.shared.swizzle_modes, 7);
    assert_eq!(config.mma_io_config, "io");
    assert_eq!(
        ScaledMmaMatmul::scaled_mma_definition(&config, 32),
        ScaledMmaDefinition { m: 16, n: 8, k: 64, scales_factor: 2 }
    );
}

#[test]
fn scales_factor_follows_the_k_block_size() {
    let bp = TilingBlueprint { tile_size: TileSize { m: 16, n: 8, k: 128 }, plane_dim: 32, swizzle_modes: () };
    let config = match ScaledMmaMatmul::expand_config(&bp, ()) {
        Ok(c) => c,
        Err(_) => panic!("expand_config failed"),
    };
    assert_eq!(
        ScaledMmaMatmul::scaled_mma_definition(&config, 32),
        ScaledMmaDefinition { m: 16, n: 8, k: 128, scales_factor: 4 }
    );
    assert_eq!(ScaledMmaMatmul::scaled_mma_definition(&config, 16).scales_factor, 8);
    assert_eq!(ScaledMmaMatmul::scaled_mma_definition(&config, 128).scales_factor, 1);
}

#[test]
fn execute_writes_back_the_result_vectors() {
    let mut acc = AccFragment { fragment: vec![0.0f32; 4], layout: MatrixLayout::RowMajor };
    ScaledMmaMatmul::execute(&mut acc, &vec![1.0, 2.0, 3.0], 3);
    assert_eq!(acc.fragment, vec![1.0, 2.0, 3.0, 0.0]);
    assert_eq!(acc.layout, MatrixLayout::RowMajor);
    ScaledMmaMatmul::execute(&mut acc, &vec![9.0], 0);
    assert_eq!(acc.fragment, vec![1.0, 2.0, 3.0, 0.0]);
}
