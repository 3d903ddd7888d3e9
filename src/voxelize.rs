use vstd::arithmetic::div_mod::{
    lemma_fundamental_div_mod, lemma_fundamental_div_mod_converse, lemma_mod_pos_bound,
};
use vstd::prelude::*;

use crate::vec3i::{Pos3, Vec3I};

verus! {

/// Why a body could not be given a voxel grid.
#[derive(Debug, Clone, Copy, PartialEq, Eq, Structural)]
pub enum BuoyancyError {
    /// The mesh has no vertex positions.
    MeshMissingGeometry,
    /// The mesh bounds have zero extent along some axis, so the grid is empty.
    DegenerateVolume,
    /// The physics engine could not build a collider from the mesh.
    ColliderGenerationFailed,
    /// The voxel size is zero or odd: voxel centres must lie on the unit lattice.
    InvalidVoxelSize,
    /// The grid would hold more voxels than the allowed maximum.
    TooManyVoxels,
}

/// The axis-aligned box spanned by a mesh's vertices.
#[derive(Debug, Clone, Copy, PartialEq, Eq, Structural)]
pub struct MeshBounds {
    pub min: Vec3I,
    pub max: Vec3I,
}

/// `v` lies inside the box `[lo, hi]`, componentwise.
pub open spec fn within(lo: Vec3I, v: Vec3I, hi: Vec3I) -> bool {
    lo.x <= v.x <= hi.x && lo.y <= v.y <= hi.y && lo.z <= v.z <= hi.z
}

/// `b` is the smallest box holding every vertex of `vs`: it holds them all, and
/// each of its six faces touches some vertex.
pub open spec fn is_tight_bounds(vs: Seq<Vec3I>, b: MeshBounds) -> bool {
    &&& forall|i: int| 0 <= i < vs.len() ==> within(b.min, #[trigger] vs[i], b.max)
    &&& exists|i: int| 0 <= i < vs.len() && #[trigger] vs[i].x == b.min.x
    &&& exists|i: int| 0 <= i < vs.len() && #[trigger] vs[i].y == b.min.y
    &&& exists|i: int| 0 <= i < vs.len() && #[trigger] vs[i].z == b.min.z
    &&& exists|i: int| 0 <= i < vs.len() && #[trigger] vs[i].x == b.max.x
    &&& exists|i: int| 0 <= i < vs.len() && #[trigger] vs[i].y == b.max.y
    &&& exists|i: int| 0 <= i < vs.len() && #[trigger] vs[i].z == b.max.z
}

/// Computes the bounding box of a mesh from its vertex positions.
pub fn calculate_mesh_bounds(vertices: &Vec<Vec3I>) -> (r: Result<MeshBounds, BuoyancyError>)
    ensures
        vertices@.len() == 0 ==> r == Err::<MeshBounds, BuoyancyError>(
            BuoyancyError::MeshMissingGeometry,
        ),
        vertices@.len() > 0 ==> r is Ok && is_tight_bounds(vertices@, r->Ok_0),
{
    if vertices.len() == 0 {
        return Err(BuoyancyError::MeshMissingGeometry);
    }
    let first = vertices[0];
    let mut lo = first;
    let mut hi = first;
    let mut i: usize = 1;
    let ghost mut wx: int = 0;
    let ghost mut wy: int = 0;
    let ghost mut wz: int = 0;
    let ghost mut ax: int = 0;
    let ghost mut ay: int = 0;
    let ghost mut az: int = 0;
    while i < vertices.len()
        invariant
            1 <= i <= vertices@.len(),
            forall|j: int| 0 <= j < i ==> within(lo, #[trigger] vertices@[j], hi),
            0 <= wx < i && vertices@[wx].x == lo.x,
            0 <= wy < i && vertices@[wy].y == lo.y,
            0 <= wz < i && vertices@[wz].z == lo.z,
            0 <= ax < i && vertices@[ax].x == hi.x,
            0 <= ay < i && vertices@[ay].y == hi.y,
            0 <= az < i && vertices@[az].z == hi.z,
        decreases vertices@.len() - i,
    {
        let v = vertices[i];
        if v.x < lo.x {
            lo.x = v.x;
            proof { wx = i as int; }
        }
        if v.y < lo.y {
            lo.y = v.y;
            proof { wy = i as int; }
        }
        if v.z < lo.z {
            lo.z = v.z;
            proof { wz = i as int; }
        }
        if v.x > hi.x {
            hi.x = v.x;
            proof { ax = i as int; }
        }
        if v.y > hi.y {
            hi.y = v.y;
            proof { ay = i as int; }
        }
        if v.z > hi.z {
            hi.z = v.z;
            proof { az = i as int; }
        }
        i = i + 1;
    }
    let b = MeshBounds { min: lo, max: hi };
    assert(is_tight_bounds(vertices@, b)) by {
        assert(vertices@[wx].x == b.min.x);
        assert(vertices@[wy].y == b.min.y);
        assert(vertices@[wz].z == b.min.z);
        assert(vertices@[ax].x == b.max.x);
        assert(vertices@[ay].y == b.max.y);
        assert(vertices@[az].z == b.max.z);
    }
    Ok(b)
}

/// The number of voxels per axis of a grid.
#[derive(Debug, Clone, Copy, PartialEq, Eq, Structural)]
pub struct GridSize {
    pub x: u32,
    pub y: u32,
    pub z: u32,
}

/// The number of cells of side `v` needed to cover an extent: `ceil(extent / v)`,
/// and zero for an empty extent.
pub open spec fn cells_along(extent: int, v: int) -> int {
    if extent <= 0 {
        0
    } else {
        (extent + v - 1) / v
    }
}

/// The bounds are ordered componentwise, as every box of real vertices is.
pub open spec fn bounds_ordered(b: MeshBounds) -> bool {
    b.min.x <= b.max.x && b.min.y <= b.max.y && b.min.z <= b.max.z
}

/// The per-axis cell counts of a grid of voxel size `v` over `b`.
pub open spec fn grid_size_of(b: MeshBounds, v: int) -> GridSize {
    GridSize {
        x: cells_along(b.max.x - b.min.x, v) as u32,
        y: cells_along(b.max.y - b.min.y, v) as u32,
        z: cells_along(b.max.z - b.min.z, v) as u32,
    }
}

/// `cells_along` is a ceiling: its cells cover the extent, one fewer would
/// not, and there are never more cells than units of extent.
pub proof fn lemma_cells_along(extent: int, v: int)
    requires
        extent >= 0,
        v >= 1,
    ensures
        0 <= cells_along(extent, v) <= extent,
        cells_along(extent, v) * v >= extent,
        extent > 0 ==> (cells_along(extent, v) - 1) * v < extent,
        cells_along(extent, v) == 0 <==> extent == 0,
{
    if extent > 0 {
        let a = extent + v - 1;
        let n = a / v;
        lemma_fundamental_div_mod(a, v);
        lemma_mod_pos_bound(a, v);
        assert(v * n == a - a % v);
        assert(n * v >= extent) by (nonlinear_arith)
            requires
                v * n == a - a % v,
                a % v < v,
                a == extent + v - 1,
        ;
        assert((n - 1) * v < extent) by (nonlinear_arith)
            requires
                v * n == a - a % v,
                a % v >= 0,
                a == extent + v - 1,
        ;
        assert(0 < n <= extent) by (nonlinear_arith)
            requires
                (n - 1) * v < extent,
                n * v >= extent,
                extent > 0,
                v >= 1,
        ;
    }
}

/// The length of `[lo, hi]` along one axis, which fits in 32 unsigned bits.
fn axis_extent(lo: i32, hi: i32) -> (r: u64)
    requires
        lo <= hi,
    ensures
        r == hi - lo,
        r <= u32::MAX,
{
    (hi as i64 - lo as i64) as u64
}

/// `ceil(extent / v)`, the number of cells along one axis.
fn axis_cells(extent: u64, voxel_size: u32) -> (r: u32)
    requires
        extent <= u32::MAX,
        voxel_size >= 1,
    ensures
        r == cells_along(extent as int, voxel_size as int),
{
    proof {
        lemma_cells_along(extent as int, voxel_size as int);
    }
    if extent == 0 {
        0
    } else {
        ((extent + voxel_size as u64 - 1) / voxel_size as u64) as u32
    }
}

/// Computes how many voxels of side `voxel_size` each axis of `bounds` needs.
pub fn calculate_grid_size(bounds: &MeshBounds, voxel_size: u32) -> (r: GridSize)
    requires
        voxel_size >= 1,
        bounds_ordered(*bounds),
    ensures
        r == grid_size_of(*bounds, voxel_size as int),
{
    GridSize {
        x: axis_cells(axis_extent(bounds.min.x, bounds.max.x), voxel_size),
        y: axis_cells(axis_extent(bounds.min.y, bounds.max.y), voxel_size),
        z: axis_cells(axis_extent(bounds.min.z, bounds.max.z), voxel_size),
    }
}

/// Voxel centres stay within this distance of the body's origin.
pub const COORD_BOUND: i64 = 0x100_0000_0000;

/// One cubic cell of a body's volume: its centre relative to the body, and
/// whether other geometry currently occupies it.
#[derive(Debug, Clone, Copy, PartialEq, Eq, Structural)]
pub struct Voxel {
    pub offset: Pos3,
    pub is_solid: bool,
}

/// The voxels of one rigid body, all of side `voxel_size`. `dirty` says that
/// the solidity flags must be recomputed before they are trusted.
#[derive(Debug, Clone, PartialEq)]
pub struct VoxelGrid {
    pub voxels: Vec<Voxel>,
    pub voxel_size: u32,
    pub dirty: bool,
}

/// Every coordinate of `p` lies within `COORD_BOUND` of the origin.
pub open spec fn offset_in_range(p: Pos3) -> bool {
    &&& -COORD_BOUND <= p.x <= COORD_BOUND
    &&& -COORD_BOUND <= p.y <= COORD_BOUND
    &&& -COORD_BOUND <= p.z <= COORD_BOUND
}

impl VoxelGrid {
    /// The voxel size is a positive even number, so that a voxel's faces lie
    /// half a voxel from its centre on the unit lattice, and every centre is
    /// within range.
    pub open spec fn wf(&self) -> bool {
        &&& self.voxel_size >= 2
        &&& self.voxel_size % 2 == 0
        &&& forall|i: int|
            0 <= i < self.voxels@.len() ==> offset_in_range(#[trigger] self.voxels@[i].offset)
    }
}

/// The centre of cell `i` along an axis that starts at `lo`, for cells of side `v`.
pub open spec fn cell_center(lo: int, v: int, i: int) -> int {
    lo + v / 2 + i * v
}

/// The `k`-th voxel of the grid over `b` with cell counts `d`: `x` varies
/// fastest, then `y`, then `z`. Its solidity is not yet known, so it is free.
pub open spec fn grid_voxel(b: MeshBounds, v: int, d: GridSize, k: int) -> Voxel {
    Voxel {
        offset: Pos3 {
            x: cell_center(b.min.x as int, v, k % (d.x as int)) as i64,
            y: cell_center(b.min.y as int, v, (k / (d.x as int)) % (d.y as int)) as i64,
            z: cell_center(b.min.z as int, v, k / (d.x as int) / (d.y as int)) as i64,
        },
        is_solid: false,
    }
}

/// The number of cells of a grid.
pub open spec fn cell_count(d: GridSize) -> int {
    d.x * d.y * d.z
}

/// `voxels` is the full grid over `b` with voxel size `v` and cell counts `d`.
pub open spec fn is_grid_over(voxels: Seq<Voxel>, b: MeshBounds, v: int, d: GridSize) -> bool {
    &&& voxels.len() == cell_count(d)
    &&& forall|k: int| 0 <= k < voxels.len() ==> #[trigger] voxels[k] == grid_voxel(b, v, d, k)
}

/// The centre of cell `i` of `n` along `[lo, hi]`, with `hi - lo` needing `n` cells.
fn axis_center(lo: i32, hi: i32, v: u32, n: u32, i: u32) -> (r: i64)
    requires
        lo <= hi,
        v >= 1,
        n == cells_along(hi - lo, v as int),
        i < n,
    ensures
        r == cell_center(lo as int, v as int, i as int),
        -COORD_BOUND <= r <= COORD_BOUND,
{
    proof {
        lemma_cells_along(hi - lo, v as int);
        assert((i as int) * (v as int) <= (n - 1) * (v as int)) by (nonlinear_arith)
            requires
                i < n,
                v >= 1,
        ;
        assert(0 <= (i as int) * (v as int)) by (nonlinear_arith)
            requires
                v >= 1,
        ;
    }
    lo as i64 + (v / 2) as i64 + (i as i64) * (v as i64)
}

/// Lays out the grid over `bounds`: one free voxel per cell, `x` fastest.
fn fill_grid(bounds: &MeshBounds, voxel_size: u32, dims: &GridSize, total: usize) -> (r: Vec<Voxel>)
    requires
        voxel_size >= 1,
        bounds_ordered(*bounds),
        *dims == grid_size_of(*bounds, voxel_size as int),
        dims.x > 0,
        dims.y > 0,
        dims.z > 0,
        total == cell_count(*dims),
    ensures
        is_grid_over(r@, *bounds, voxel_size as int, *dims),
        forall|i: int| 0 <= i < r@.len() ==> offset_in_range(#[trigger] r@[i].offset),
{
    let ghost b = *bounds;
    let ghost v = voxel_size as int;
    let ghost dx = dims.x as int;
    let ghost dy = dims.y as int;
    let ghost dz = dims.z as int;
    proof {
        lemma_cells_along(b.max.x - b.min.x, v);
        lemma_cells_along(b.max.y - b.min.y, v);
        lemma_cells_along(b.max.z - b.min.z, v);
    }
    let mut voxels: Vec<Voxel> = Vec::new();
    let mut ix: u32 = 0;
    let mut iy: u32 = 0;
    let mut iz: u32 = 0;
    let mut k: usize = 0;
    assert(0 == 0 + dx * (0 + dy * 0)) by (nonlinear_arith);
    while k < total
        invariant
            b == *bounds,
            v == voxel_size,
            dx == dims.x,
            dy == dims.y,
            dz == dims.z,
            voxel_size >= 1,
            bounds_ordered(*bounds),
            *dims == grid_size_of(*bounds, voxel_size as int),
            dx == cells_along(b.max.x - b.min.x, v),
            dy == cells_along(b.max.y - b.min.y, v),
            dz == cells_along(b.max.z - b.min.z, v),
            dx > 0,
            dy > 0,
            dz > 0,
            total == dx * dy * dz,
            k <= total,
            ix < dx,
            iy < dy,
            iz <= dz,
            k == ix + dx * (iy + dy * iz),
            voxels@.len() == k,
            forall|j: int| 0 <= j < k ==> #[trigger] voxels@[j] == grid_voxel(b, v, *dims, j),
            forall|j: int| 0 <= j < k ==> offset_in_range(#[trigger] voxels@[j].offset),
        decreases total - k,
    {
        proof {
            assert(iz < dz) by {
                if iz >= dz {
                    assert(ix + dx * (iy + dy * iz) >= dx * dy * dz) by (nonlinear_arith)
                        requires
                            iz >= dz,
                            ix >= 0,
                            iy >= 0,
                            dx > 0,
                            dy > 0,
                    ;
                }
            }
            let q = iy + dy * iz;
            assert(k == q * dx + ix) by (nonlinear_arith)
                requires
                    k == ix + dx * q,
            ;
            lemma_fundamental_div_mod_converse(k as int, dx, q, ix as int);
            assert(q == iz * dy + iy) by (nonlinear_arith)
                requires
                    q == iy + dy * iz,
            ;
            lemma_fundamental_div_mod_converse(q, dy, iz as int, iy as int);
        }
        let cx = axis_center(bounds.min.x, bounds.max.x, voxel_size, dims.x, ix);
        let cy = axis_center(bounds.min.y, bounds.max.y, voxel_size, dims.y, iy);
        let cz = axis_center(bounds.min.z, bounds.max.z, voxel_size, dims.z, iz);
        let vox = Voxel { offset: Pos3 { x: cx, y: cy, z: cz }, is_solid: false };
        assert(vox == grid_voxel(b, v, *dims, k as int));
        voxels.push(vox);
        k = k + 1;
        if ix + 1 < dims.x {
            ix = ix + 1;
        } else if iy + 1 < dims.y {
            proof {
                assert(k == 0 + dx * ((iy + 1) + dy * iz)) by (nonlinear_arith)
                    requires
                        k == ix + dx * (iy + dy * iz) + 1,
                        ix + 1 == dx,
                ;
            }
            ix = 0;
            iy = iy + 1;
        } else {
            proof {
                assert(k == 0 + dx * (0 + dy * (iz + 1))) by (nonlinear_arith)
                    requires
                        k == ix + dx * (iy + dy * iz) + 1,
                        ix + 1 == dx,
                        iy + 1 == dy,
                ;
            }
            ix = 0;
            iy = 0;
            iz = iz + 1;
        }
    }
    voxels
}

/// A body's mesh has one bounding box: two boxes that are both tight for the
/// same vertices are equal.
pub proof fn lemma_tight_bounds_unique(vs: Seq<Vec3I>, b1: MeshBounds, b2: MeshBounds)
    requires
        is_tight_bounds(vs, b1),
        is_tight_bounds(vs, b2),
    ensures
        b1 == b2,
        bounds_ordered(b1),
{
    let wx1 = choose|i: int| 0 <= i < vs.len() && #[trigger] vs[i].x == b1.min.x;
    let wy1 = choose|i: int| 0 <= i < vs.len() && #[trigger] vs[i].y == b1.min.y;
    let wz1 = choose|i: int| 0 <= i < vs.len() && #[trigger] vs[i].z == b1.min.z;
    let ax1 = choose|i: int| 0 <= i < vs.len() && #[trigger] vs[i].x == b1.max.x;
    let ay1 = choose|i: int| 0 <= i < vs.len() && #[trigger] vs[i].y == b1.max.y;
    let az1 = choose|i: int| 0 <= i < vs.len() && #[trigger] vs[i].z == b1.max.z;
    let wx2 = choose|i: int| 0 <= i < vs.len() && #[trigger] vs[i].x == b2.min.x;
    let wy2 = choose|i: int| 0 <= i < vs.len() && #[trigger] vs[i].y == b2.min.y;
    let wz2 = choose|i: int| 0 <= i < vs.len() && #[trigger] vs[i].z == b2.min.z;
    let ax2 = choose|i: int| 0 <= i < vs.len() && #[trigger] vs[i].x == b2.max.x;
    let ay2 = choose|i: int| 0 <= i < vs.len() && #[trigger] vs[i].y == b2.max.y;
    let az2 = choose|i: int| 0 <= i < vs.len() && #[trigger] vs[i].z == b2.max.z;
    assert(within(b1.min, vs[wx2], b1.max) && within(b2.min, vs[wx1], b2.max));
    assert(within(b1.min, vs[wy2], b1.max) && within(b2.min, vs[wy1], b2.max));
    assert(within(b1.min, vs[wz2], b1.max) && within(b2.min, vs[wz1], b2.max));
    assert(within(b1.min, vs[ax2], b1.max) && within(b2.min, vs[ax1], b2.max));
    assert(within(b1.min, vs[ay2], b1.max) && within(b2.min, vs[ay1], b2.max));
    assert(within(b1.min, vs[az2], b1.max) && within(b2.min, vs[az1], b2.max));
}

/// What voxelizing `vs` with voxel size `v` and at most `max_voxels` voxels
/// gives. A bad voxel size is reported first, then a mesh without vertices,
/// then bounds that are flat along some axis, then a grid over the cap;
/// otherwise the grid over the mesh's bounding box, marked dirty.
pub open spec fn voxelization(
    vs: Seq<Vec3I>,
    v: int,
    max_voxels: int,
    r: Result<VoxelGrid, BuoyancyError>,
) -> bool {
    if v == 0 || v % 2 != 0 {
        r == Err::<VoxelGrid, BuoyancyError>(BuoyancyError::InvalidVoxelSize)
    } else if vs.len() == 0 {
        r == Err::<VoxelGrid, BuoyancyError>(BuoyancyError::MeshMissingGeometry)
    } else {
        exists|b: MeshBounds|
            #[trigger] is_tight_bounds(vs, b) && grid_result(b, v, max_voxels, r)
    }
}

/// The outcome of building the grid over the bounding box `b`.
pub open spec fn grid_result(
    b: MeshBounds,
    v: int,
    max_voxels: int,
    r: Result<VoxelGrid, BuoyancyError>,
) -> bool {
    let d = grid_size_of(b, v);
    if d.x == 0 || d.y == 0 || d.z == 0 {
        r == Err::<VoxelGrid, BuoyancyError>(BuoyancyError::DegenerateVolume)
    } else if cell_count(d) > max_voxels {
        r == Err::<VoxelGrid, BuoyancyError>(BuoyancyError::TooManyVoxels)
    } else {
        &&& r is Ok
        &&& r->Ok_0.voxel_size == v
        &&& r->Ok_0.dirty
        &&& r->Ok_0.wf()
        &&& is_grid_over(r->Ok_0.voxels@, b, v, d)
    }
}

/// Builds the grid over `bounds`, or says why there is none.
fn grid_over(bounds: &MeshBounds, voxel_size: u32, max_voxels: usize) -> (r: Result<
    VoxelGrid,
    BuoyancyError,
>)
    requires
        voxel_size >= 2,
        voxel_size % 2 == 0,
        bounds_ordered(*bounds),
    ensures
        grid_result(*bounds, voxel_size as int, max_voxels as int, r),
{
    let dims = calculate_grid_size(bounds, voxel_size);
    if dims.x == 0 || dims.y == 0 || dims.z == 0 {
        return Err(BuoyancyError::DegenerateVolume);
    }
    proof {
        let (x, y, z) = (dims.x as int, dims.y as int, dims.z as int);
        assert(x * y <= 0xffff_ffff_ffff_ffff && x * y * z <= 0xffff_ffff_ffff_ffff_ffff_ffff)
            by (nonlinear_arith)
            requires
                0 <= x <= 0xffff_ffff,
                0 <= y <= 0xffff_ffff,
                0 <= z <= 0xffff_ffff,
        ;
    }
    let total = dims.x as u128 * dims.y as u128 * dims.z as u128;
    if total > max_voxels as u128 {
        return Err(BuoyancyError::TooManyVoxels);
    }
    let voxels = fill_grid(bounds, voxel_size, &dims, total as usize);
    Ok(VoxelGrid { voxels, voxel_size, dirty: true })
}

/// Turns a mesh's vertex positions into a grid of free voxels of side
/// `voxel_size` covering the mesh's bounding box, holding at most `max_voxels`.
pub fn voxelize(vertices: &Vec<Vec3I>, voxel_size: u32, max_voxels: usize) -> (r: Result<
    VoxelGrid,
    BuoyancyError,
>)
    ensures
        voxelization(vertices@, voxel_size as int, max_voxels as int, r),
{
    if voxel_size == 0 || voxel_size % 2 != 0 {
        return Err(BuoyancyError::InvalidVoxelSize);
    }
    let bounds = match calculate_mesh_bounds(vertices) {
        Ok(b) => b,
        Err(e) => {
            return Err(e);
        },
    };
    proof {
        lemma_tight_bounds_unique(vertices@, bounds, bounds);
    }
    let r = grid_over(&bounds, voxel_size, max_voxels);
    assert(is_tight_bounds(vertices@, bounds) && grid_result(
        bounds,
        voxel_size as int,
        max_voxels as int,
        r,
    ));
    r
}

/// A grid built from a mesh holds `ceil(dx/v) * ceil(dy/v) * ceil(dz/v)`
/// voxels, where `(dx, dy, dz)` is the extent of the mesh's bounding box.
pub proof fn lemma_voxel_count(
    vs: Seq<Vec3I>,
    v: int,
    max_voxels: int,
    b: MeshBounds,
    g: VoxelGrid,
)
    requires
        voxelization(vs, v, max_voxels, Ok(g)),
        is_tight_bounds(vs, b),
    ensures
        g.voxels@.len() == cells_along(b.max.x - b.min.x, v) * cells_along(b.max.y - b.min.y, v)
            * cells_along(b.max.z - b.min.z, v),
{
    let b2 = choose|b2: MeshBounds|
        #[trigger] is_tight_bounds(vs, b2) && grid_result(b2, v, max_voxels, Ok(g));
    lemma_tight_bounds_unique(vs, b, b2);
    lemma_cells_along(b.max.x - b.min.x, v);
    lemma_cells_along(b.max.y - b.min.y, v);
    lemma_cells_along(b.max.z - b.min.z, v);
}

/// Voxelizes each body's mesh on its own: a mesh that fails leaves the other
/// bodies' grids unaffected.
pub fn voxelize_bodies(meshes: &Vec<Vec<Vec3I>>, voxel_size: u32, max_voxels: usize) -> (r: Vec<
    Result<VoxelGrid, BuoyancyError>,
>)
    ensures
        r@.len() == meshes@.len(),
        forall|i: int|
            0 <= i < meshes@.len() ==> voxelization(
                #[trigger] meshes@[i]@,
                voxel_size as int,
                max_voxels as int,
                r@[i],
            ),
{
    let mut out: Vec<Result<VoxelGrid, BuoyancyError>> = Vec::new();
    let mut i: usize = 0;
    while i < meshes.len()
        invariant
            i <= meshes@.len(),
            out@.len() == i,
            forall|j: int|
                0 <= j < i ==> voxelization(
                    #[trigger] meshes@[j]@,
                    voxel_size as int,
                    max_voxels as int,
                    out@[j],
                ),
        decreases meshes@.len() - i,
    {
        let g = voxelize(&meshes[i], voxel_size, max_voxels);
        out.push(g);
        i = i + 1;
    }
    out
}

/// The box of side `cube` centred on the origin.
pub open spec fn centered_cube_bounds(cube: int) -> MeshBounds {
    MeshBounds {
        min: Vec3I { x: -(cube / 2) as i32, y: -(cube / 2) as i32, z: -(cube / 2) as i32 },
        max: Vec3I { x: (cube / 2) as i32, y: (cube / 2) as i32, z: (cube / 2) as i32 },
    }
}

/// What subdividing a cube of side `cube` into `n` cells per axis gives, with
/// at most `max_voxels` voxels. A cube without cells is degenerate; the cells
/// must have a whole, even side; otherwise the grid over the centred cube.
pub open spec fn cube_subdivision(
    cube: int,
    n: int,
    max_voxels: int,
    r: Result<VoxelGrid, BuoyancyError>,
) -> bool {
    if cube == 0 || n == 0 {
        r == Err::<VoxelGrid, BuoyancyError>(BuoyancyError::DegenerateVolume)
    } else if cube % n != 0 || (cube / n) % 2 != 0 {
        r == Err::<VoxelGrid, BuoyancyError>(BuoyancyError::InvalidVoxelSize)
    } else {
        grid_result(centered_cube_bounds(cube), cube / n, max_voxels, r)
    }
}

/// Builds a grid of `cells_per_axis` voxels per axis filling a cube of side
/// `cube_size` centred on the body's origin, for bodies without a mesh.
pub fn subdivide_cube(cube_size: u32, cells_per_axis: u32, max_voxels: usize) -> (r: Result<
    VoxelGrid,
    BuoyancyError,
>)
    ensures
        cube_subdivision(cube_size as int, cells_per_axis as int, max_voxels as int, r),
        r is Ok ==> r->Ok_0.voxels@.len() == cells_per_axis * cells_per_axis * cells_per_axis,
{
    if cube_size == 0 || cells_per_axis == 0 {
        return Err(BuoyancyError::DegenerateVolume);
    }
    if cube_size % cells_per_axis != 0 || (cube_size / cells_per_axis) % 2 != 0 {
        return Err(BuoyancyError::InvalidVoxelSize);
    }
    let side = cube_size / cells_per_axis;
    let half = (cube_size / 2) as i32;
    let ghost n = cells_per_axis as int;
    let ghost s = side as int;
    proof {
        lemma_fundamental_div_mod(cube_size as int, cells_per_axis as int);
        assert(cube_size == n * s);
        assert(s > 0) by (nonlinear_arith)
            requires
                n * s == cube_size,
                cube_size > 0,
                n > 0,
                s >= 0,
        ;
        assert((n * s) % 2 == 0) by {
            lemma_fundamental_div_mod(s, 2);
            assert(n * s == n * (s / 2) * 2) by (nonlinear_arith)
                requires
                    s == 2 * (s / 2) + s % 2,
                    s % 2 == 0,
            ;
            lemma_fundamental_div_mod_converse(n * s, 2, n * (s / 2), 0);
        }
        assert(n * s + s - 1 == n * s + (s - 1));
        lemma_fundamental_div_mod_converse(n * s + s - 1, s, n, s - 1);
        assert(cells_along(cube_size as int, s) == n);
    }
    let bounds = MeshBounds {
        min: Vec3I { x: -half, y: -half, z: -half },
        max: Vec3I { x: half, y: half, z: half },
    };
    assert(bounds == centered_cube_bounds(cube_size as int));
    grid_over(&bounds, side, max_voxels)
}

/// The voxels of a subdivided cube sit symmetrically about the origin: along
/// each axis, cell `i` and cell `n - 1 - i` have opposite centres.
pub proof fn lemma_cube_symmetric(cube: int, n: int, i: int)
    requires
        cube > 0,
        n > 0,
        cube % n == 0,
        (cube / n) % 2 == 0,
        0 <= i < n,
    ensures
        cell_center(-(cube / 2), cube / n, i) + cell_center(-(cube / 2), cube / n, n - 1 - i) == 0,
{
    let s = cube / n;
    lemma_fundamental_div_mod(cube, n);
    lemma_fundamental_div_mod(s, 2);
    assert(cube == n * s);
    assert(i * s + (n - 1 - i) * s == n * s - s) by (nonlinear_arith);
    assert(n * s == 2 * (n * (s / 2))) by (nonlinear_arith)
        requires
            s == 2 * (s / 2),
    ;
    lemma_fundamental_div_mod_converse(cube, 2, n * (s / 2), 0);
}

} // verus!
