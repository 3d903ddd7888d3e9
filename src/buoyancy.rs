use vstd::prelude::*;

use crate::vec3i::{Pos3, Vec3I};
use crate::voxelize::{offset_in_range, Voxel, VoxelGrid};

verus! {

/// The volume below water level `w` of a voxel of side `v` centred at height
/// `y`: all of it when its top is under water, none when its bottom is above,
/// and otherwise the slab between its bottom and the surface.
pub open spec fn submerged_volume(y: int, w: int, v: int) -> int {
    let bottom = y - v / 2;
    let top = y + v / 2;
    if top <= w {
        v * v * v
    } else if bottom >= w {
        0
    } else {
        (w - bottom) * v * v
    }
}

/// Computes how much of a voxel of side `voxel_size` centred at height
/// `center_y` lies below the water height `water_height`.
pub fn calculate_submerged_volume(center_y: i64, water_height: i64, voxel_size: u32) -> (r: u128)
    requires
        voxel_size % 2 == 0,
    ensures
        r == submerged_volume(center_y as int, water_height as int, voxel_size as int),
{
    let half = (voxel_size / 2) as i128;
    let bottom = center_y as i128 - half;
    let top = center_y as i128 + half;
    let w = water_height as i128;
    proof {
        let vi = voxel_size as int;
        assert(0 <= vi * vi <= 0xffff_ffff_ffff_ffff && 0 <= vi * vi * vi
            <= 0xffff_ffff_ffff_ffff_ffff_ffff) by (nonlinear_arith)
            requires
                0 <= vi <= 0xffff_ffff,
        ;
        assert(vi * vi * vi == (vi * vi) * vi);
    }
    let vv = (voxel_size as u128) * (voxel_size as u128);
    if top <= w {
        vv * (voxel_size as u128)
    } else if bottom >= w {
        0
    } else {
        let depth = (w - bottom) as u128;
        proof {
            let vi = voxel_size as int;
            assert(depth <= vi);
            assert(depth * (vi * vi) <= vi * (vi * vi)) by (nonlinear_arith)
                requires
                    0 <= depth <= vi,
                    vi >= 0,
            ;
            assert((w - bottom) * vi * vi == depth * (vi * vi)) by (nonlinear_arith)
                requires
                    depth == w - bottom,
            ;
        }
        depth * vv
    }
}

/// The submerged volume of a voxel grows with the water height, never faster
/// than the area of the voxel's base, from nothing when the surface is at its
/// bottom to the whole voxel when the surface is at its top.
pub proof fn lemma_submerged_volume_monotone(y: int, v: int, w1: int, w2: int)
    requires
        v >= 0,
        v % 2 == 0,
        w1 <= w2,
    ensures
        0 <= submerged_volume(y, w1, v) <= submerged_volume(y, w2, v) <= v * v * v,
        submerged_volume(y, w2, v) - submerged_volume(y, w1, v) <= (w2 - w1) * v * v,
        submerged_volume(y, y - v / 2, v) == 0,
        submerged_volume(y, y + v / 2, v) == v * v * v,
{
    let bottom = y - v / 2;
    let top = y + v / 2;
    assert(top - bottom == v);
    let s1 = submerged_volume(y, w1, v);
    let s2 = submerged_volume(y, w2, v);
    assert(0 <= s1 <= s2 <= v * v * v && s2 - s1 <= (w2 - w1) * v * v) by (nonlinear_arith)
        requires
            top - bottom == v,
            v >= 0,
            w1 <= w2,
            s1 == (if top <= w1 {
                v * v * v
            } else if bottom >= w1 {
                0
            } else {
                (w1 - bottom) * v * v
            }),
            s2 == (if top <= w2 {
                v * v * v
            } else if bottom >= w2 {
                0
            } else {
                (w2 - bottom) * v * v
            }),
    ;
    if v == 0 {
        assert(v * v * v == 0) by (nonlinear_arith)
            requires
                v == 0,
        ;
    }
}

/// An upward force of `force_y` applied at a voxel's centre `offset`, relative
/// to the body's origin.
#[derive(Debug, Clone, Copy, PartialEq, Eq, Structural)]
pub struct PointForce {
    pub force_y: u128,
    pub offset: Pos3,
}

/// The buoyancy of one body for one tick: the upward resultant, and each free
/// voxel's share at its own centre so that the caller can apply torque.
#[derive(Debug, Clone, PartialEq)]
pub struct BuoyancyForces {
    pub total_y: u128,
    pub points: Vec<PointForce>,
}

/// The upward force on voxel `vx` of a body translated by `t`, with water
/// height `h` above it: `gravity * submerged volume * density`.
pub open spec fn voxel_force(vx: Voxel, t: Vec3I, h: int, v: int, rho: int, g: int) -> int {
    g * rho * submerged_volume(vx.offset.y + t.y, h, v)
}

/// The sum of the forces on the free voxels among the first `n`.
pub open spec fn total_force(
    voxels: Seq<Voxel>,
    heights: Seq<i64>,
    n: int,
    t: Vec3I,
    v: int,
    rho: int,
    g: int,
) -> int
    decreases n,
{
    if n <= 0 {
        0
    } else {
        total_force(voxels, heights, n - 1, t, v, rho, g) + if voxels[n - 1].is_solid {
            0
        } else {
            voxel_force(voxels[n - 1], t, heights[n - 1] as int, v, rho, g)
        }
    }
}

/// The point forces of the free voxels among the first `n`, in grid order.
pub open spec fn point_forces(
    voxels: Seq<Voxel>,
    heights: Seq<i64>,
    n: int,
    t: Vec3I,
    v: int,
    rho: int,
    g: int,
) -> Seq<PointForce>
    decreases n,
{
    if n <= 0 {
        seq![]
    } else {
        let earlier = point_forces(voxels, heights, n - 1, t, v, rho, g);
        if voxels[n - 1].is_solid {
            earlier
        } else {
            earlier.push(
                PointForce {
                    force_y: voxel_force(voxels[n - 1], t, heights[n - 1] as int, v, rho, g) as u128,
                    offset: voxels[n - 1].offset,
                },
            )
        }
    }
}

/// The largest force a grid of `n` voxels of side `v` can feel fits in 128
/// bits: every voxel fully submerged.
pub open spec fn forces_fit(n: int, v: int, rho: int, g: int) -> bool {
    n * (g * rho * (v * v * v)) <= u128::MAX
}

proof fn lemma_total_force_bound(
    voxels: Seq<Voxel>,
    heights: Seq<i64>,
    n: int,
    t: Vec3I,
    v: int,
    rho: int,
    g: int,
)
    requires
        0 <= n <= voxels.len(),
        n <= heights.len(),
        v >= 0,
        v % 2 == 0,
        rho >= 0,
        g >= 0,
    ensures
        0 <= total_force(voxels, heights, n, t, v, rho, g) <= n * (g * rho * (v * v * v)),
    decreases n,
{
    if n > 0 {
        lemma_total_force_bound(voxels, heights, n - 1, t, v, rho, g);
        let y = voxels[n - 1].offset.y + t.y;
        let h = heights[n - 1] as int;
        lemma_submerged_volume_monotone(y, v, h, h);
        let sv = submerged_volume(y, h, v);
        let m = g * rho * (v * v * v);
        assert(0 <= g * rho * sv <= m) by (nonlinear_arith)
            requires
                0 <= sv <= v * v * v,
                g >= 0,
                rho >= 0,
                m == g * rho * (v * v * v),
        ;
        assert((n - 1) * m + m == n * m) by (nonlinear_arith);
    }
}

/// Computes the buoyancy on every free voxel of `grid` for a body translated
/// by `translation`, where `water_heights[i]` is the water height sampled
/// above voxel `i`. Solid voxels feel no buoyancy.
pub fn integrate_buoyancy(
    grid: &VoxelGrid,
    translation: Vec3I,
    water_heights: &Vec<i64>,
    fluid_density: u32,
    gravity: u32,
) -> (r: BuoyancyForces)
    requires
        grid.wf(),
        water_heights@.len() == grid.voxels@.len(),
        forces_fit(
            grid.voxels@.len() as int,
            grid.voxel_size as int,
            fluid_density as int,
            gravity as int,
        ),
    ensures
        r.total_y == total_force(
            grid.voxels@,
            water_heights@,
            grid.voxels@.len() as int,
            translation,
            grid.voxel_size as int,
            fluid_density as int,
            gravity as int,
        ),
        r.points@ == point_forces(
            grid.voxels@,
            water_heights@,
            grid.voxels@.len() as int,
            translation,
            grid.voxel_size as int,
            fluid_density as int,
            gravity as int,
        ),
{
    let ghost vs = grid.voxels@;
    let ghost hs = water_heights@;
    let ghost v = grid.voxel_size as int;
    let ghost rho = fluid_density as int;
    let ghost g = gravity as int;
    let ghost len = vs.len() as int;
    let ghost m = g * rho * (v * v * v);
    assert(0 <= g * rho <= 0xffff_ffff_ffff_ffff) by (nonlinear_arith)
        requires
            0 <= g <= 0xffff_ffff,
            0 <= rho <= 0xffff_ffff,
    ;
    let gr = (gravity as u128) * (fluid_density as u128);
    let mut total: u128 = 0;
    let mut points: Vec<PointForce> = Vec::new();
    let mut i: usize = 0;
    while i < grid.voxels.len()
        invariant
            grid.wf(),
            vs == grid.voxels@,
            hs == water_heights@,
            v == grid.voxel_size,
            rho == fluid_density,
            g == gravity,
            len == vs.len(),
            hs.len() == len,
            m == g * rho * (v * v * v),
            gr == g * rho,
            len * m <= u128::MAX,
            i <= len,
            total == total_force(vs, hs, i as int, translation, v, rho, g),
            points@ == point_forces(vs, hs, i as int, translation, v, rho, g),
        decreases len - i,
    {
        let vx = grid.voxels[i];
        proof {
            lemma_total_force_bound(vs, hs, i as int + 1, translation, v, rho, g);
            assert((i + 1) * m <= len * m) by (nonlinear_arith)
                requires
                    i + 1 <= len,
                    m >= 0,
            ;
            assert(m >= 0) by (nonlinear_arith)
                requires
                    m == g * rho * (v * v * v),
                    g >= 0,
                    rho >= 0,
                    v >= 0,
            ;
            assert(offset_in_range(vs[i as int].offset));
        }
        if !vx.is_solid {
            let world_y = vx.offset.y + translation.y as i64;
            let vol = calculate_submerged_volume(world_y, water_heights[i], grid.voxel_size);
            proof {
                lemma_submerged_volume_monotone(
                    world_y as int,
                    v,
                    water_heights@[i as int] as int,
                    water_heights@[i as int] as int,
                );
                assert(gr * vol <= m) by (nonlinear_arith)
                    requires
                        0 <= vol <= v * v * v,
                        gr >= 0,
                        m == gr * (v * v * v),
                ;
            }
            let f = gr * vol;
            total = total + f;
            points.push(PointForce { force_y: f, offset: vx.offset });
        }
        i = i + 1;
    }
    BuoyancyForces { total_y: total, points }
}

/// The top face of voxel `vx`, of side `v`, on a body translated by `t`.
pub open spec fn voxel_top(vx: Voxel, t: Vec3I, v: int) -> int {
    vx.offset.y + t.y + v / 2
}

proof fn lemma_archimedes_prefix(
    voxels: Seq<Voxel>,
    heights: Seq<i64>,
    n: int,
    t: Vec3I,
    v: int,
    rho: int,
    g: int,
)
    requires
        0 <= n <= voxels.len(),
        heights.len() == voxels.len(),
        forall|i: int|
            0 <= i < voxels.len() ==> !(#[trigger] voxels[i]).is_solid && voxel_top(voxels[i], t, v)
                <= heights[i],
    ensures
        total_force(voxels, heights, n, t, v, rho, g) == rho * g * (v * v * v * n),
    decreases n,
{
    if n > 0 {
        lemma_archimedes_prefix(voxels, heights, n - 1, t, v, rho, g);
        assert(!voxels[n - 1].is_solid);
        assert(voxel_force(voxels[n - 1], t, heights[n - 1] as int, v, rho, g) == g * rho * (v
            * v * v));
        assert(rho * g * (v * v * v * (n - 1)) + g * rho * (v * v * v) == rho * g * (v * v * v
            * n)) by (nonlinear_arith);
    } else {
        assert(rho * g * (v * v * v * n) == 0) by (nonlinear_arith)
            requires
                n == 0,
        ;
    }
}

/// Archimedes' principle: when every voxel of a body is free and lies wholly
/// under water, the buoyancy is the weight of the displaced fluid,
/// `density * gravity * voxel volume * voxel count`.
pub proof fn lemma_archimedes(
    voxels: Seq<Voxel>,
    heights: Seq<i64>,
    t: Vec3I,
    v: int,
    rho: int,
    g: int,
)
    requires
        heights.len() == voxels.len(),
        forall|i: int|
            0 <= i < voxels.len() ==> !(#[trigger] voxels[i]).is_solid && voxel_top(voxels[i], t, v)
                <= heights[i],
    ensures
        total_force(voxels, heights, voxels.len() as int, t, v, rho, g) == rho * g * (v * v * v
            * voxels.len()),
{
    lemma_archimedes_prefix(voxels, heights, voxels.len() as int, t, v, rho, g);
}

impl BuoyancyForces {
    /// The fallback mode for bodies that must stay stable: the resultant
    /// alone, capped at the body's weight `weight_y`. It drops the torque that
    /// the point forces carry, so callers select it explicitly.
    pub fn clamped_total(&self, weight_y: u128) -> (r: u128)
        ensures
            r == if self.total_y <= weight_y {
                self.total_y
            } else {
                weight_y
            },
    {
        if self.total_y <= weight_y {
            self.total_y
        } else {
            weight_y
        }
    }
}

} // verus!
