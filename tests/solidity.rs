use voxel_buoyancy::{subdivide_cube, voxelize, Pos3, Vec3I};

#[test]
fn refresh_marks_voxels_hit_by_other_colliders() {
    let mut g = subdivide_cube(8, 2, 100).unwrap();
    let own = 42;
    let hits = vec![vec![], vec![42], vec![42, 9], vec![9], vec![], vec![], vec![42, 42], vec![1]];
    g.refresh(&hits, own);
    let flags: Vec<bool> = g.voxels.iter().map(|vx| vx.is_solid).collect();
    assert_eq!(flags, vec![false, false, true, true, false, false, false, true]);
    assert!(!g.needs_refresh());
}

#[test]
fn refresh_twice_keeps_flags() {
    let mut g = subdivide_cube(8, 2, 100).unwrap();
    let hits = vec![vec![5], vec![], vec![], vec![5], vec![], vec![], vec![], vec![]];
    g.refresh(&hits, 1);
    let first = g.clone();
    g.refresh(&vec![], 1);
    assert_eq!(g, first);
    g.mark_dirty();
    assert!(g.needs_refresh());
    g.refresh(&hits, 1);
    assert_eq!(g.voxels, first.voxels);
}

#[test]
fn clean_grid_ignores_query_results() {
    let mut g = subdivide_cube(8, 2, 100).unwrap();
    g.refresh(&vec![vec![]; 8], 1);
    let before = g.clone();
    g.refresh(&vec![vec![9]; 8], 1);
    assert_eq!(g, before);
}

#[test]
fn world_positions_add_translation() {
    let g = voxelize(&vec![Vec3I::new(0, 0, 0), Vec3I::new(16, 8, 8)], 8, 100).unwrap();
    assert_eq!(g.len(), 2);
    let ps = g.world_positions(Vec3I::new(100, -4, 1));
    assert_eq!(ps, vec![Pos3 { x: 104, y: 0, z: 5 }, Pos3 { x: 112, y: 0, z: 5 }]);
}
