use voxel_buoyancy::{
    calculate_submerged_volume, integrate_buoyancy, subdivide_cube, voxelize, AppStates,
    BuoyancyForces, Pos3, Vec3I,
};

#[test]
fn straddling_voxel_scenario() {
    // voxel size 0.8 and centre 0 in units of 0.1: bottom -4, top 4
    assert_eq!(calculate_submerged_volume(0, 0, 8), 256);
}

#[test]
fn dry_voxel_scenario() {
    // bottom 10, top 18, water at 0
    assert_eq!(calculate_submerged_volume(14, 0, 8), 0);
}

#[test]
fn fully_submerged_voxel_is_whole_volume() {
    assert_eq!(calculate_submerged_volume(14, 18, 8), 512);
    assert_eq!(calculate_submerged_volume(-100, 0, 8), 512);
}

#[test]
fn submerged_volume_grows_with_water_height() {
    let mut last = 0;
    for w in -10..=10 {
        let s = calculate_submerged_volume(0, w, 8);
        assert!(s >= last);
        assert!(s - last <= 64);
        last = s;
    }
    assert_eq!(calculate_submerged_volume(0, -4, 8), 0);
    assert_eq!(calculate_submerged_volume(0, 4, 8), 512);
}

#[test]
fn submerged_volume_at_extreme_heights() {
    assert_eq!(calculate_submerged_volume(i64::MIN, i64::MAX, 8), 512);
    assert_eq!(calculate_submerged_volume(i64::MAX, i64::MIN, 8), 0);
}

#[test]
fn submerged_body_feels_weight_of_displaced_fluid() {
    let g = subdivide_cube(12, 3, 100).unwrap();
    let heights = vec![1000i64; g.voxels.len()];
    let r = integrate_buoyancy(&g, Vec3I::new(0, 0, 0), &heights, 1000, 981);
    assert_eq!(r.total_y, 1000 * 981 * 64 * 27);
    assert_eq!(r.points.len(), 27);
    assert!(r.points.iter().all(|p| p.force_y == 1000 * 981 * 64));
}

#[test]
fn solid_voxels_feel_no_buoyancy() {
    let mut g = voxelize(&vec![Vec3I::new(0, 0, 0), Vec3I::new(16, 8, 8)], 8, 100).unwrap();
    g.refresh(&vec![vec![7], vec![3, 7]], 7);
    assert!(!g.voxels[0].is_solid);
    assert!(g.voxels[1].is_solid);
    let heights = vec![100i64, 100];
    let r = integrate_buoyancy(&g, Vec3I::new(0, 0, 0), &heights, 2, 3);
    assert_eq!(r.total_y, 2 * 3 * 512);
    assert_eq!(r.points.len(), 1);
    assert_eq!(r.points[0].offset, Pos3 { x: 4, y: 4, z: 4 });
}

#[test]
fn translation_moves_voxels_against_the_water() {
    // one voxel centred at y = 4, side 8: raised by 6 its bottom is at 6
    let g = voxelize(&vec![Vec3I::new(0, 0, 0), Vec3I::new(8, 8, 8)], 8, 100).unwrap();
    let r = integrate_buoyancy(&g, Vec3I::new(0, 6, 0), &vec![8], 1, 1);
    assert_eq!(r.total_y, 2 * 64);
    let r = integrate_buoyancy(&g, Vec3I::new(0, -20, 0), &vec![8], 1, 1);
    assert_eq!(r.total_y, 512);
}

#[test]
fn empty_of_free_voxels_gives_no_force() {
    let mut g = subdivide_cube(4, 1, 10).unwrap();
    g.refresh(&vec![vec![1]], 2);
    let r = integrate_buoyancy(&g, Vec3I::new(0, 0, 0), &vec![100], 5, 5);
    assert_eq!(r.total_y, 0);
    assert!(r.points.is_empty());
}

#[test]
fn clamped_total_caps_at_weight() {
    let f = BuoyancyForces { total_y: 500, points: vec![] };
    assert_eq!(f.clamped_total(300), 300);
    assert_eq!(f.clamped_total(800), 500);
}

#[test]
fn app_states_start_loading() {
    assert_eq!(AppStates::default(), AppStates::AssetLoading);
    assert_ne!(AppStates::default(), AppStates::Running);
}
