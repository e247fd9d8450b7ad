//! Tile matmul using hardware block-scaled MMA for sub-byte types (E2M1 data, UE8M0 scales):
//! the host-side decisions of the tile matmul family (which tile sizes the device supports,
//! whether a blueprint is valid, how the MMA is defined) and the write-back of its results.

use vstd::prelude::*;

use cubecl::ir::StorageType;

verus! {

/// The storage type of a matrix operand, a type of `cubecl` carried and compared, never read.
#[verifier::external_type_specification]
#[verifier::external_body]
pub struct ExStorageType(cubecl::ir::StorageType);

/// Calls `StorageType`'s `==`, which `derive(PartialEq)` writes for a plain `Copy` enum of
/// integers and enums: it answers `true` exactly for equal values.
#[verifier::external_body]
fn same_storage_type(a: &StorageType, b: &StorageType) -> (r: bool)
    ensures
        r == (*a == *b),
{
    *a == *b
}

/// Size of a matmul tile.
#[derive(Clone, Copy, Debug, PartialEq, Eq)]
pub struct TileSize {
    /// Rows of the lhs and output.
    pub m: u32,
    /// Columns of the rhs and output.
    pub n: u32,
    /// Shared dimension.
    pub k: u32,
}

/// Memory layout of a matrix.
#[derive(Clone, Copy, Debug, PartialEq, Eq)]
pub enum MatrixLayout {
    /// Row-major.
    RowMajor,
    /// Column-major.
    ColMajor,
}

/// Shape and element types of a block-scaled MMA instruction the device supports.
#[derive(Clone, Copy)]
pub struct ScaledMmaConfig {
    /// Element of the A matrix.
    pub a_type: StorageType,
    /// Element of the B matrix.
    pub b_type: StorageType,
    /// Element of the C/D matrices.
    pub cd_type: StorageType,
    /// Element of the block scales.
    pub scales_type: StorageType,
    /// Size on the `m` dimension.
    pub m: u32,
    /// Size on the `n` dimension.
    pub n: u32,
    /// Size on the `k` dimension.
    pub k: u32,
    /// Number of scales per tile row/column.
    pub scales_factor: u32,
}

/// Shape and element types of a requested MMA.
#[derive(Clone, Copy)]
pub struct MmaConfig {
    /// Element of the A matrix.
    pub a_type: StorageType,
    /// Element of the B matrix.
    pub b_type: StorageType,
    /// Element of the C/D matrices.
    pub cd_type: StorageType,
    /// Size on the `m` dimension.
    pub m: u32,
    /// Size on the `n` dimension.
    pub n: u32,
    /// Size on the `k` dimension.
    pub k: u32,
}

/// The element types a matmul stages and computes with.
#[derive(Clone, Copy)]
pub struct MatmulElems {
    /// Lhs element in shared memory.
    pub lhs_stage: StorageType,
    /// Rhs element in shared memory.
    pub rhs_stage: StorageType,
    /// Accumulator element in shared memory.
    pub acc_stage: StorageType,
    /// Lhs element in registers.
    pub lhs_register: StorageType,
    /// Rhs element in registers.
    pub rhs_register: StorageType,
    /// Accumulator element in registers.
    pub acc_register: StorageType,
}

/// The parts of a tiling blueprint the tile matmul reads.
#[derive(Clone, Copy)]
pub struct TilingBlueprint<W> {
    /// Size of one tile.
    pub tile_size: TileSize,
    /// Number of units in a plane.
    pub plane_dim: u32,
    /// Swizzling of the stages.
    pub swizzle_modes: W,
}

/// Configuration shared by tile matmuls.
#[derive(Clone, Copy)]
pub struct SharedTileConfig<W> {
    /// Size of one tile.
    pub tile_size: TileSize,
    /// Number of units in a plane.
    pub plane_dim: u32,
    /// Swizzling of the stages.
    pub swizzle_modes: W,
}

/// Configuration of an MMA tile matmul.
#[derive(Clone, Copy)]
pub struct MmaMatmulConfig<W, IO> {
    /// The shared tile configuration.
    pub shared: SharedTileConfig<W>,
    /// How fragments are loaded and stored.
    pub mma_io_config: IO,
}

/// Why an MMA instruction is not available.
#[derive(Clone, Copy)]
pub enum MatmulAvailabilityError {
    /// No instruction for these operand types and tile size.
    CmmaInstructionUnavailable {
        /// Lhs type.
        lhs: StorageType,
        /// Rhs type.
        rhs: StorageType,
        /// Output type.
        output: StorageType,
        /// Requested tile size.
        size: Option<TileSize>,
    },
}

/// Why a matmul cannot be set up.
#[derive(Clone, Copy)]
pub enum MatmulSetupError {
    /// The device lacks what the matmul needs.
    Unavailable(MatmulAvailabilityError),
}

/// Resources a cube of this tile matmul takes.
#[derive(Clone, Copy, Debug, PartialEq, Eq)]
pub enum CubeDimResource {
    /// A number of planes.
    Planes(u32),
}

/// A tile matmul configuration that cannot be used.
#[derive(Clone, Copy, Debug, PartialEq, Eq)]
pub struct InvalidConfigError;

/// The parameters of the block-scaled MMA definition: tile shape and scales per tile row/column.
#[derive(Clone, Copy, Debug, PartialEq, Eq)]
pub struct ScaledMmaDefinition {
    /// Size on the `m` dimension.
    pub m: usize,
    /// Size on the `n` dimension.
    pub n: usize,
    /// Size on the `k` dimension.
    pub k: usize,
    /// Number of scales per tile row/column.
    pub scales_factor: usize,
}

/// Fragment for data operands (A or B): data registers and their block scales.
pub struct ScaledFragment<E, S> {
    /// Data registers.
    pub data: Vec<E>,
    /// Scale registers.
    pub scales: Vec<S>,
    /// Layout of the operand.
    pub layout: MatrixLayout,
}

/// Fragment for the accumulator: just its registers.
pub struct AccFragment<A> {
    /// Accumulator registers.
    pub fragment: Vec<A>,
    /// Layout of the accumulator.
    pub layout: MatrixLayout,
}

/// Tile matmul using hardware scaled MMA for block-scaled sub-byte types.
pub struct ScaledMmaMatmul;

/// `c` is a scaled MMA instruction for these operand types and this tile shape.
pub open spec fn config_matches(
    c: ScaledMmaConfig,
    a_type: StorageType,
    b_type: StorageType,
    cd_type: StorageType,
    m: u32,
    n: u32,
    k: u32,
) -> bool {
    &&& c.a_type == a_type
    &&& c.b_type == b_type
    &&& c.cd_type == cd_type
    &&& c.m == m
    &&& c.n == n
    &&& c.k == k
}

/// Some instruction of `configs` matches these operand types and this tile shape.
pub open spec fn any_config_matches(
    configs: Seq<ScaledMmaConfig>,
    a_type: StorageType,
    b_type: StorageType,
    cd_type: StorageType,
    m: u32,
    n: u32,
    k: u32,
) -> bool {
    exists|i: int|
        0 <= i < configs.len() && #[trigger] config_matches(
            configs[i],
            a_type,
            b_type,
            cd_type,
            m,
            n,
            k,
        )
}

/// The tile sizes of the instructions of `configs` with these operand types, in order.
pub open spec fn sizes_for(
    configs: Seq<ScaledMmaConfig>,
    lhs_ty: StorageType,
    rhs_ty: StorageType,
    acc_ty: StorageType,
) -> Seq<TileSize>
    decreases configs.len(),
{
    if configs.len() == 0 {
        Seq::empty()
    } else {
        let c = configs.last();
        let rest = sizes_for(configs.drop_last(), lhs_ty, rhs_ty, acc_ty);
        if c.a_type == lhs_ty && c.b_type == rhs_ty && c.cd_type == acc_ty {
            rest.push(TileSize { m: c.m, n: c.n, k: c.k })
        } else {
            rest
        }
    }
}

/// Whether some instruction of `configs` matches these operand types and this tile shape.
fn find_matching_config(
    configs: &Vec<ScaledMmaConfig>,
    a_type: &StorageType,
    b_type: &StorageType,
    cd_type: &StorageType,
    m: u32,
    n: u32,
    k: u32,
) -> (r: bool)
    ensures
        r == any_config_matches(configs@, *a_type, *b_type, *cd_type, m, n, k),
{
    let mut i: usize = 0;
    while i < configs.len()
        invariant
            i <= configs.len(),
            forall|j: int|
                0 <= j < i ==> !#[trigger] config_matches(
                    configs@[j],
                    *a_type,
                    *b_type,
                    *cd_type,
                    m,
                    n,
                    k,
                ),
        decreases configs.len() - i,
    {
        let c = &configs[i];
        if same_storage_type(&c.a_type, a_type) && same_storage_type(&c.b_type, b_type)
            && same_storage_type(&c.cd_type, cd_type) && c.m == m && c.n == n && c.k == k {
            assert(config_matches(configs@[i as int], *a_type, *b_type, *cd_type, m, n, k));
            return true;
        }
        i += 1;
    }
    false
}

impl ScaledMmaMatmul {
    /// The scaled MMA runs on tensor cores.
    pub fn requires_accelerator() -> (r: bool)
        ensures
            r,
    {
        true
    }

    /// Stage elements cannot be cast on load.
    pub fn can_cast_stage_element() -> (r: bool)
        ensures
            !r,
    {
        false
    }

    /// A cube of this tile matmul takes a single plane; this never fails.
    pub fn cubedim_resource() -> (r: Result<CubeDimResource, InvalidConfigError>)
        ensures
            r == Ok::<CubeDimResource, InvalidConfigError>(CubeDimResource::Planes(1)),
    {
        Ok(CubeDimResource::Planes(1))
    }

    /// The stages are not swizzled.
    pub fn should_swizzle() -> (r: bool)
        ensures
            !r,
    {
        false
    }

    /// Whether the device (whose block-scaled MMA instructions are `scaled_mma`) supports a
    /// scaled MMA with the operand types and shape of `config`.
    pub fn is_supported(scaled_mma: &Vec<ScaledMmaConfig>, config: &MmaConfig) -> (r: bool)
        ensures
            r == any_config_matches(
                scaled_mma@,
                config.a_type,
                config.b_type,
                config.cd_type,
                config.m,
                config.n,
                config.k,
            ),
    {
        find_matching_config(
            scaled_mma,
            &config.a_type,
            &config.b_type,
            &config.cd_type,
            config.m,
            config.n,
            config.k,
        )
    }

    /// The tile sizes of the device's scaled MMA instructions for these operand types, in
    /// the order of `scaled_mma`.
    pub fn supported_sizes(
        scaled_mma: &Vec<ScaledMmaConfig>,
        lhs_ty: &StorageType,
        rhs_ty: &StorageType,
        acc_ty: &StorageType,
    ) -> (r: Vec<TileSize>)
        ensures
            r@ == sizes_for(scaled_mma@, *lhs_ty, *rhs_ty, *acc_ty),
    {
        let mut r: Vec<TileSize> = Vec::new();
        let mut i: usize = 0;
        assert(scaled_mma@.take(0) =~= Seq::<ScaledMmaConfig>::empty());
        while i < scaled_mma.len()
            invariant
                i <= scaled_mma.len(),
                r@ == sizes_for(scaled_mma@.take(i as int), *lhs_ty, *rhs_ty, *acc_ty),
            decreases scaled_mma.len() - i,
        {
            let c = &scaled_mma[i];
            assert(scaled_mma@.take(i + 1).drop_last() =~= scaled_mma@.take(i as int));
            assert(scaled_mma@.take(i + 1).last() == scaled_mma@[i as int]);
            if same_storage_type(&c.a_type, lhs_ty) && same_storage_type(&c.b_type, rhs_ty)
                && same_storage_type(&c.cd_type, acc_ty) {
                r.push(TileSize { m: c.m, n: c.n, k: c.k });
            }
            i += 1;
        }
        assert(scaled_mma@.take(scaled_mma.len() as int) =~= scaled_mma@);
        r
    }

    /// Check that the device has a scaled MMA for the register types of `dtypes` and the
    /// tile size of `blueprint`; if not, report which instruction is unavailable.
    pub fn validate_blueprint<W>(
        scaled_mma: &Vec<ScaledMmaConfig>,
        blueprint: &TilingBlueprint<W>,
        dtypes: &MatmulElems,
    ) -> (r: Result<(), MatmulSetupError>)
        ensures
            r is Ok <==> any_config_matches(
                scaled_mma@,
                dtypes.lhs_register,
                dtypes.rhs_register,
                dtypes.acc_register,
                blueprint.tile_size.m,
                blueprint.tile_size.n,
                blueprint.tile_size.k,
            ),
            r is Err ==> r == Err::<(), MatmulSetupError>(
                MatmulSetupError::Unavailable(
                    MatmulAvailabilityError::CmmaInstructionUnavailable {
                        lhs: dtypes.lhs_register,
                        rhs: dtypes.rhs_register,
                        output: dtypes.acc_register,
                        size: Some(blueprint.tile_size),
                    },
                ),
            ),
    {
        let lhs = dtypes.lhs_register;
        let rhs = dtypes.rhs_register;
        let acc = dtypes.acc_register;
        let size = blueprint.tile_size;

        let supported = find_matching_config(scaled_mma, &lhs, &rhs, &acc, size.m, size.n, size.k);

        if !supported {
            return Err(
                MatmulSetupError::Unavailable(
                    MatmulAvailabilityError::CmmaInstructionUnavailable {
                        lhs,
                        rhs,
                        output: acc,
                        size: Some(TileSize { m: size.m, n: size.n, k: size.k }),
                    },
                ),
            );
        }
        Ok(())
    }

    /// Build the tile matmul configuration from the blueprint and the fragment I/O
    /// configuration the device chose for the stage types.
    pub fn expand_config<W: Copy, IO>(blueprint: &TilingBlueprint<W>, mma_io_config: IO) -> (r:
        Result<MmaMatmulConfig<W, IO>, MatmulSetupError>)
        ensures
            r == Ok::<MmaMatmulConfig<W, IO>, MatmulSetupError>(
                MmaMatmulConfig {
                    shared: SharedTileConfig {
                        tile_size: blueprint.tile_size,
                        plane_dim: blueprint.plane_dim,
                        swizzle_modes: blueprint.swizzle_modes,
                    },
                    mma_io_config,
                },
            ),
    {
        Ok(
            MmaMatmulConfig {
                shared: SharedTileConfig {
                    tile_size: blueprint.tile_size,
                    plane_dim: blueprint.plane_dim,
                    swizzle_modes: blueprint.swizzle_modes,
                },
                mma_io_config,
            },
        )
    }

    /// The scaled MMA definition for a configuration: the tile shape, and the number of scales
    /// per tile row/column, one per block of `block_size_k` elements along `k` (the block
    /// size of the quantization scheme along K; a block of 32 with a 64-wide `k` gives 2).
    pub fn scaled_mma_definition<W, IO>(
        config: &MmaMatmulConfig<W, IO>,
        block_size_k: u32,
    ) -> (r: ScaledMmaDefinition)
        requires
            block_size_k > 0,
            config.shared.tile_size.k % block_size_k == 0,
        ensures
            r.m == config.shared.tile_size.m,
            r.n == config.shared.tile_size.n,
            r.k == config.shared.tile_size.k,
            r.scales_factor == config.shared.tile_size.k / block_size_k,
    {
        let size = config.shared.tile_size;
        ScaledMmaDefinition {
            m: size.m as usize,
            n: size.n as usize,
            k: size.k as usize,
            scales_factor: (size.k / block_size_k) as usize,
        }
    }

    /// Write the `num_vectors` result vectors of a scaled MMA back into the accumulator.
    pub fn execute<A: Copy>(out: &mut AccFragment<A>, out_arr: &Vec<A>, num_vectors: usize)
        requires
            num_vectors <= old(out).fragment.len(),
            num_vectors <= out_arr.len(),
        ensures
            final(out).layout == old(out).layout,
            final(out).fragment@ == out_arr@.subrange(0, num_vectors as int) + old(
                out,
            ).fragment@.subrange(num_vectors as int, old(out).fragment.len() as int),
    {
        let ghost initial = out.fragment@;
        let ghost layout = out.layout;
        let mut i: usize = 0;
        while i < num_vectors
            invariant
                i <= num_vectors,
                out.layout == layout,
                num_vectors <= initial.len(),
                num_vectors <= out_arr.len(),
                out.fragment@ == out_arr@.subrange(0, i as int) + initial.subrange(
                    i as int,
                    initial.len() as int,
                ),
            decreases num_vectors - i,
        {
            out.fragment[i] = out_arr[i];
            i += 1;
        }
    }
}

/// The tile sizes supported for some operand types are exactly those for which an
/// instruction matches: a tile size is listed by `supported_sizes` if and only if
/// `is_supported` accepts it (and `validate_blueprint` accepts a blueprint of that size).
pub proof fn lemma_supported_sizes_complete(
    configs: Seq<ScaledMmaConfig>,
    a_type: StorageType,
    b_type: StorageType,
    cd_type: StorageType,
    size: TileSize,
)
    ensures
        sizes_for(configs, a_type, b_type, cd_type).contains(size) <==> any_config_matches(
            configs,
            a_type,
            b_type,
            cd_type,
            size.m,
            size.n,
            size.k,
        ),
    decreases configs.len(),
{
    if configs.len() > 0 {
        let rest = configs.drop_last();
        lemma_supported_sizes_complete(rest, a_type, b_type, cd_type, size);
        let c = configs.last();
        let rest_sizes = sizes_for(rest, a_type, b_type, cd_type);
        let all_sizes = sizes_for(configs, a_type, b_type, cd_type);
        let last_kept = c.a_type == a_type && c.b_type == b_type && c.cd_type == cd_type;
        if last_kept {
            assert(all_sizes == rest_sizes.push(TileSize { m: c.m, n: c.n, k: c.k }));
        } else {
            assert(all_sizes == rest_sizes);
        }
        if any_config_matches(configs, a_type, b_type, cd_type, size.m, size.n, size.k) {
            let i = choose|i: int|
                0 <= i < configs.len() && #[trigger] config_matches(
                    configs[i],
                    a_type,
                    b_type,
                    cd_type,
                    size.m,
                    size.n,
                    size.k,
                );
            if i < configs.len() - 1 {
                assert(rest[i] == configs[i]);
                assert(config_matches(rest[i], a_type, b_type, cd_type, size.m, size.n, size.k));
                assert(rest_sizes.contains(size));
                let j = choose|j: int| 0 <= j < rest_sizes.len() && rest_sizes[j] == size;
                assert(all_sizes[j] == size);
            } else {
                assert(last_kept);
                assert(all_sizes[all_sizes.len() - 1] == size);
            }
            assert(all_sizes.contains(size));
        }
        if all_sizes.contains(size) {
            let j = choose|j: int| 0 <= j < all_sizes.len() && all_sizes[j] == size;
            if j < rest_sizes.len() {
                assert(rest_sizes[j] == size);
                assert(rest_sizes.contains(size));
                let i = choose|i: int|
                    0 <= i < rest.len() && #[trigger] config_matches(
                        rest[i],
                        a_type,
                        b_type,
                        cd_type,
                        size.m,
                        size.n,
                        size.k,
                    );
                assert(configs[i] == rest[i]);
                assert(config_matches(configs[i], a_type, b_type, cd_type, size.m, size.n, size.k));
            } else {
                assert(last_kept);
                assert(config_matches(
                    configs[configs.len() - 1],
                    a_type,
                    b_type,
                    cd_type,
                    size.m,
                    size.n,
                    size.k,
                ));
            }
        }
    }
}

/// A device supports a scaled MMA exactly when one of its instructions has the requested A,
/// B and C/D types and the requested `m`, `n`, `k`; in particular, when every instruction
/// takes another B type than the one requested, it is not supported.
pub proof fn lemma_supported_exactly_when_listed(
    configs: Seq<ScaledMmaConfig>,
    a_type: StorageType,
    b_type: StorageType,
    cd_type: StorageType,
    m: u32,
    n: u32,
    k: u32,
)
    ensures
        any_config_matches(configs, a_type, b_type, cd_type, m, n, k) <==> exists|i: int|
            0 <= i < configs.len() && (#[trigger] configs[i]).a_type == a_type
                && configs[i].b_type == b_type && configs[i].cd_type == cd_type
                && configs[i].m == m && configs[i].n == n && configs[i].k == k,
        (forall|i: int| 0 <= i < configs.len() ==> (#[trigger] configs[i]).b_type != b_type)
            ==> !any_config_matches(configs, a_type, b_type, cd_type, m, n, k),
        (forall|i: int| 0 <= i < configs.len() ==> (#[trigger] configs[i]).a_type != a_type)
            ==> !any_config_matches(configs, a_type, b_type, cd_type, m, n, k),
        (forall|i: int| 0 <= i < configs.len() ==> (#[trigger] configs[i]).cd_type != cd_type)
            ==> !any_config_matches(configs, a_type, b_type, cd_type, m, n, k),
{
    if any_config_matches(configs, a_type, b_type, cd_type, m, n, k) {
        let i = choose|i: int|
            0 <= i < configs.len() && #[trigger] config_matches(
                configs[i],
                a_type,
                b_type,
                cd_type,
                m,
                n,
                k,
            );
        assert(configs[i].b_type == b_type);
    }
    if exists|i: int|
        0 <= i < configs.len() && (#[trigger] configs[i]).a_type == a_type
            && configs[i].b_type == b_type && configs[i].cd_type == cd_type && configs[i].m == m
            && configs[i].n == n && configs[i].k == k {
        let i = choose|i: int|
            0 <= i < configs.len() && (#[trigger] configs[i]).a_type == a_type
                && configs[i].b_type == b_type && configs[i].cd_type == cd_type
                && configs[i].m == m && configs[i].n == n && configs[i].k == k;
        assert(config_matches(configs[i], a_type, b_type, cd_type, m, n, k));
    }
}

/// The supported tile sizes for some operand types are exactly the shapes of the instructions
/// with those A, B and C/D types: a size is listed if and only if such an instruction has it.
pub proof fn lemma_supported_sizes_exactly_listed(
    configs: Seq<ScaledMmaConfig>,
    lhs_ty: StorageType,
    rhs_ty: StorageType,
    acc_ty: StorageType,
    size: TileSize,
)
    ensures
        sizes_for(configs, lhs_ty, rhs_ty, acc_ty).contains(size) <==> exists|i: int|
            0 <= i < configs.len() && (#[trigger] configs[i]).a_type == lhs_ty
                && configs[i].b_type == rhs_ty && configs[i].cd_type == acc_ty
                && configs[i].m == size.m && configs[i].n == size.n && configs[i].k == size.k,
{
    lemma_supported_sizes_complete(configs, lhs_ty, rhs_ty, acc_ty, size);
    lemma_supported_exactly_when_listed(configs, lhs_ty, rhs_ty, acc_ty, size.m, size.n, size.k);
}

} // verus!
