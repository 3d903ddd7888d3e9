use voxel_buoyancy::{
    calculate_grid_size, calculate_mesh_bounds, subdivide_cube, voxelize, voxelize_bodies,
    BuoyancyError, GridSize, MeshBounds, Pos3, Vec3I,
};

fn v(x: i32, y: i32, z: i32) -> Vec3I {
    Vec3I::new(x, y, z)
}

#[test]
fn vec3i_new_keeps_components() {
    let p = Vec3I::new(1, -2, 3);
    assert_eq!((p.x, p.y, p.z), (1, -2, 3));
}

#[test]
fn bounds_contain_every_vertex() {
    let vs = vec![v(3, -1, 7), v(-4, 5, 2), v(0, 0, -9), v(2, 8, 1)];
    let b = calculate_mesh_bounds(&vs).unwrap();
    assert_eq!(b.min, v(-4, -1, -9));
    assert_eq!(b.max, v(3, 8, 7));
    for p in &vs {
        assert!(b.min.x <= p.x && p.x <= b.max.x);
        assert!(b.min.y <= p.y && p.y <= b.max.y);
        assert!(b.min.z <= p.z && p.z <= b.max.z);
    }
}

#[test]
fn bounds_of_single_vertex_are_that_vertex() {
    let b = calculate_mesh_bounds(&vec![v(5, 6, 7)]).unwrap();
    assert_eq!(b, MeshBounds { min: v(5, 6, 7), max: v(5, 6, 7) });
}

#[test]
fn bounds_of_no_vertices_is_missing_geometry() {
    assert_eq!(calculate_mesh_bounds(&vec![]), Err(BuoyancyError::MeshMissingGeometry));
}

#[test]
fn grid_size_rounds_up() {
    let b = MeshBounds { min: v(0, 0, 0), max: v(10, 8, 1) };
    assert_eq!(calculate_grid_size(&b, 4), GridSize { x: 3, y: 2, z: 1 });
}

#[test]
fn voxel_count_is_product_of_ceilings() {
    // extents 10, 8, 3 with voxel size 4: ceil = 3, 2, 1
    let vs = vec![v(0, 0, 0), v(10, 8, 3)];
    let g = voxelize(&vs, 4, 1000).unwrap();
    assert_eq!(g.voxels.len(), 3 * 2 * 1);
    assert_eq!(g.voxel_size, 4);
    assert!(g.dirty);
}

#[test]
fn voxel_centres_start_half_a_voxel_in_with_x_fastest() {
    let vs = vec![v(-4, 0, 10), v(4, 8, 18)];
    let g = voxelize(&vs, 8, 100).unwrap();
    assert_eq!(g.voxels.len(), 1);
    assert_eq!(g.voxels[0].offset, Pos3 { x: 0, y: 4, z: 14 });

    let vs = vec![v(0, 0, 0), v(4, 4, 4)];
    let g = voxelize(&vs, 2, 100).unwrap();
    assert_eq!(g.voxels.len(), 8);
    assert_eq!(g.voxels[0].offset, Pos3 { x: 1, y: 1, z: 1 });
    assert_eq!(g.voxels[1].offset, Pos3 { x: 3, y: 1, z: 1 });
    assert_eq!(g.voxels[2].offset, Pos3 { x: 1, y: 3, z: 1 });
    assert_eq!(g.voxels[4].offset, Pos3 { x: 1, y: 1, z: 3 });
    assert_eq!(g.voxels[7].offset, Pos3 { x: 3, y: 3, z: 3 });
    assert!(g.voxels.iter().all(|vx| !vx.is_solid));
}

#[test]
fn voxelize_empty_mesh_is_missing_geometry() {
    assert_eq!(voxelize(&vec![], 8, 100), Err(BuoyancyError::MeshMissingGeometry));
}

#[test]
fn voxelize_flat_mesh_is_degenerate() {
    let vs = vec![v(0, 0, 0), v(10, 0, 10)];
    assert_eq!(voxelize(&vs, 2, 100), Err(BuoyancyError::DegenerateVolume));
}

#[test]
fn voxelize_rejects_zero_or_odd_voxel_size() {
    let vs = vec![v(0, 0, 0), v(10, 10, 10)];
    assert_eq!(voxelize(&vs, 0, 100), Err(BuoyancyError::InvalidVoxelSize));
    assert_eq!(voxelize(&vs, 3, 100), Err(BuoyancyError::InvalidVoxelSize));
}

#[test]
fn voxelize_caps_the_voxel_count() {
    let vs = vec![v(0, 0, 0), v(10, 10, 10)];
    assert_eq!(voxelize(&vs, 2, 124), Err(BuoyancyError::TooManyVoxels));
    assert_eq!(voxelize(&vs, 2, 125).unwrap().voxels.len(), 125);
}

#[test]
fn voxelize_handles_extreme_coordinates() {
    let vs = vec![v(i32::MIN, 0, 0), v(i32::MAX, 2, 2)];
    let g = voxelize(&vs, 0x8000_0000, 10).unwrap();
    assert_eq!(g.voxels.len(), 2);
    assert_eq!(g.voxels[1].offset.x, i32::MIN as i64 + 0x4000_0000 + 0x8000_0000);
}

#[test]
fn failed_body_does_not_affect_another() {
    let meshes = vec![vec![], vec![v(0, 0, 0), v(16, 8, 8)]];
    let out = voxelize_bodies(&meshes, 8, 100);
    assert_eq!(out.len(), 2);
    assert_eq!(out[0], Err(BuoyancyError::MeshMissingGeometry));
    let g = out[1].as_ref().unwrap();
    assert_eq!(g, &voxelize(&meshes[1], 8, 100).unwrap());
    assert_eq!(g.voxels.len(), 2);
    assert_eq!(g.voxels[0].offset, Pos3 { x: 4, y: 4, z: 4 });
    assert_eq!(g.voxels[1].offset, Pos3 { x: 12, y: 4, z: 4 });
}

#[test]
fn subdivided_cube_is_centred() {
    let g = subdivide_cube(12, 3, 100).unwrap();
    assert_eq!(g.voxels.len(), 27);
    assert_eq!(g.voxel_size, 4);
    assert_eq!(g.voxels[0].offset, Pos3 { x: -4, y: -4, z: -4 });
    assert_eq!(g.voxels[13].offset, Pos3 { x: 0, y: 0, z: 0 });
    assert_eq!(g.voxels[26].offset, Pos3 { x: 4, y: 4, z: 4 });
    let sum: i64 = g.voxels.iter().map(|vx| vx.offset.x + vx.offset.y + vx.offset.z).sum();
    assert_eq!(sum, 0);
}

#[test]
fn subdivide_cube_errors() {
    assert_eq!(subdivide_cube(0, 3, 100), Err(BuoyancyError::DegenerateVolume));
    assert_eq!(subdivide_cube(12, 0, 100), Err(BuoyancyError::DegenerateVolume));
    assert_eq!(subdivide_cube(10, 3, 100), Err(BuoyancyError::InvalidVoxelSize));
    assert_eq!(subdivide_cube(9, 3, 100), Err(BuoyancyError::InvalidVoxelSize));
    assert_eq!(subdivide_cube(12, 3, 26), Err(BuoyancyError::TooManyVoxels));
}
