use vstd::prelude::*;

use crate::vec3i::{Pos3, Vec3I};
use crate::voxelize::{offset_in_range, Voxel, VoxelGrid};

verus! {

/// Some collider in `hits` is not the body's own collider `own`.
pub open spec fn hits_other(hits: Seq<u64>, own: u64) -> bool {
    exists|j: int| 0 <= j < hits.len() && #[trigger] hits[j] != own
}

/// The voxels after a solidity pass. A grid whose flags are current keeps
/// them; otherwise voxel `i` becomes solid exactly when its cube overlaps a
/// collider other than the body's own, as listed in `hits[i]`.
pub open spec fn solidity_after(
    voxels: Seq<Voxel>,
    dirty: bool,
    hits: Seq<Vec<u64>>,
    own: u64,
) -> Seq<Voxel> {
    if !dirty {
        voxels
    } else {
        Seq::new(
            voxels.len(),
            |i: int| Voxel { offset: voxels[i].offset, is_solid: hits_other(hits[i]@, own) },
        )
    }
}

/// Whether some collider among `hits` belongs to another body than `own`.
fn overlaps_other(hits: &Vec<u64>, own: u64) -> (r: bool)
    ensures
        r == hits_other(hits@, own),
{
    let mut j: usize = 0;
    while j < hits.len()
        invariant
            j <= hits@.len(),
            forall|k: int| 0 <= k < j ==> #[trigger] hits@[k] == own,
        decreases hits@.len() - j,
    {
        if hits[j] != own {
            return true;
        }
        j = j + 1;
    }
    false
}

impl VoxelGrid {
    /// The number of voxels.
    pub fn len(&self) -> (r: usize)
        ensures
            r == self.voxels@.len(),
    {
        self.voxels.len()
    }

    /// Whether the solidity flags must be recomputed.
    pub fn needs_refresh(&self) -> (r: bool)
        ensures
            r == self.dirty,
    {
        self.dirty
    }

    /// Marks the solidity flags stale, after the body's geometry or the
    /// obstacles around it changed.
    pub fn mark_dirty(&mut self)
        ensures
            final(self).voxels@ == old(self).voxels@,
            final(self).voxel_size == old(self).voxel_size,
            final(self).dirty,
    {
        self.dirty = true;
    }

    /// The world position of each voxel centre for a body translated by
    /// `translation`: where the spatial queries and water samples are taken.
    pub fn world_positions(&self, translation: Vec3I) -> (r: Vec<Pos3>)
        requires
            self.wf(),
        ensures
            r@.len() == self.voxels@.len(),
            forall|i: int|
                0 <= i < r@.len() ==> {
                    &&& (#[trigger] r@[i]).x == self.voxels@[i].offset.x + translation.x
                    &&& r@[i].y == self.voxels@[i].offset.y + translation.y
                    &&& r@[i].z == self.voxels@[i].offset.z + translation.z
                },
    {
        let mut out: Vec<Pos3> = Vec::new();
        let mut i: usize = 0;
        while i < self.voxels.len()
            invariant
                self.wf(),
                i <= self.voxels@.len(),
                out@.len() == i,
                forall|k: int|
                    0 <= k < i ==> {
                        &&& (#[trigger] out@[k]).x == self.voxels@[k].offset.x + translation.x
                        &&& out@[k].y == self.voxels@[k].offset.y + translation.y
                        &&& out@[k].z == self.voxels@[k].offset.z + translation.z
                    },
            decreases self.voxels@.len() - i,
        {
            let p = self.voxels[i].offset;
            assert(offset_in_range(self.voxels@[i as int].offset));
            out.push(
                Pos3 {
                    x: p.x + translation.x as i64,
                    y: p.y + translation.y as i64,
                    z: p.z + translation.z as i64,
                },
            );
            i = i + 1;
        }
        out
    }

    /// Recomputes the solidity flags if they are stale, from `intersections[i]`,
    /// the colliders that the cube of voxel `i` overlaps, and clears `dirty`.
    /// The body's own collider `own_collider` does not make a voxel solid.
    pub fn refresh(&mut self, intersections: &Vec<Vec<u64>>, own_collider: u64)
        requires
            old(self).dirty ==> intersections@.len() == old(self).voxels@.len(),
        ensures
            final(self).voxels@ == solidity_after(
                old(self).voxels@,
                old(self).dirty,
                intersections@,
                own_collider,
            ),
            final(self).voxel_size == old(self).voxel_size,
            !final(self).dirty,
            old(self).wf() ==> final(self).wf(),
    {
        if !self.dirty {
            return;
        }
        let ghost before = self.voxels@;
        let ghost size = self.voxel_size;
        let mut i: usize = 0;
        while i < self.voxels.len()
            invariant
                self.voxels@.len() == before.len(),
                self.voxel_size == size,
                intersections@.len() == before.len(),
                i <= before.len(),
                self.dirty,
                forall|k: int|
                    0 <= k < i ==> #[trigger] self.voxels@[k] == (Voxel {
                        offset: before[k].offset,
                        is_solid: hits_other(intersections@[k]@, own_collider),
                    }),
                forall|k: int| i <= k < before.len() ==> #[trigger] self.voxels@[k] == before[k],
            decreases before.len() - i,
        {
            let solid = overlaps_other(&intersections[i], own_collider);
            let mut vx = self.voxels[i];
            vx.is_solid = solid;
            self.voxels.set(i, vx);
            i = i + 1;
        }
        self.dirty = false;
        assert(self.voxels@ =~= solidity_after(before, true, intersections@, own_collider));
        assert(forall|k: int|
            0 <= k < before.len() ==> (#[trigger] self.voxels@[k]).offset == before[k].offset);
    }
}

/// A second solidity pass on an unchanged world changes no flag: once the
/// flags are current it does nothing, and a grid marked stale again gets the
/// same flags from the same query results.
pub proof fn lemma_refresh_idempotent(
    voxels: Seq<Voxel>,
    dirty: bool,
    hits: Seq<Vec<u64>>,
    later_hits: Seq<Vec<u64>>,
    own: u64,
)
    ensures
        solidity_after(solidity_after(voxels, dirty, hits, own), false, later_hits, own)
            == solidity_after(voxels, dirty, hits, own),
        dirty ==> solidity_after(solidity_after(voxels, dirty, hits, own), true, hits, own)
            == solidity_after(voxels, dirty, hits, own),
{
    if dirty {
        let once = solidity_after(voxels, dirty, hits, own);
        assert(solidity_after(once, true, hits, own) =~= once);
    }
}

} // verus!
