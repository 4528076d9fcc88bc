use cpurender::traverse::{count_hits, start_probe, step, trace, Grid, Probe, Tolerance, CELL};
use cpurender::wec::Vec3;

fn v3i(x: i32, y: i32, z: i32) -> Vec3<i32> {
    Vec3 { x, y, z }
}

fn v3u(x: u64, y: u64, z: u64) -> Vec3<u64> {
    Vec3 { x, y, z }
}

fn grid5() -> Grid {
    Grid { lower: v3i(0, 0, 0), upper: v3i(5, 5, 5) }
}

const HALF: u64 = CELL / 2;

#[test]
fn single_axis_step_crosses_one_face() {
    let p = Probe { voxel: v3i(0, 0, 0), ingress: v3u(0, HALF, HALF) };
    let d = v3i(1 << 20, 0, 0);
    let tol = Tolerance::default();
    let r = step(&p, &d, &tol);
    assert_eq!(r.voxel, v3i(1, 0, 0));
    assert_eq!(r.ingress, v3u(0, HALF, HALF));
    assert_eq!(count_hits(&p, &d, &grid5(), &tol, 1), 1);
}

#[test]
fn step_out_of_grid_counts_nothing() {
    let p = Probe { voxel: v3i(4, 0, 0), ingress: v3u(0, HALF, HALF) };
    let d = v3i(1, 0, 0);
    assert_eq!(count_hits(&p, &d, &grid5(), &Tolerance::default(), 1), 0);
}

#[test]
fn corner_crossing_is_one_merged_step() {
    let p = Probe { voxel: v3i(0, 0, 0), ingress: v3u(0, 0, 0) };
    let d = v3i(605_395, 605_395, 605_395);
    let tol = Tolerance::default();
    let r = step(&p, &d, &tol);
    assert_eq!(r.voxel, v3i(1, 1, 1));
    assert_eq!(r.ingress, v3u(0, 0, 0));
    // one step from a grid cell to a grid cell counts once
    assert_eq!(count_hits(&p, &d, &grid5(), &tol, 1), 1);
}

#[test]
fn corner_entry_counts_each_face() {
    let p = Probe { voxel: v3i(-1, -1, -1), ingress: v3u(0, 0, 0) };
    let d = v3i(7, 7, 7);
    let tol = Tolerance::default();
    let r = step(&p, &d, &tol);
    assert_eq!(r.voxel, v3i(0, 0, 0));
    assert_eq!(count_hits(&p, &d, &grid5(), &tol, 1), 3);
}

#[test]
fn edge_entry_then_diagonal_steps() {
    let p = Probe { voxel: v3i(-1, -1, 0), ingress: v3u(0, 0, HALF) };
    let d = v3i(3, 3, 0);
    // entering through an edge touches two faces, then one hit per step
    assert_eq!(count_hits(&p, &d, &grid5(), &Tolerance::default(), 3), 4);
}

#[test]
fn step_goes_to_nearest_face() {
    let p = Probe { voxel: v3i(0, 0, 0), ingress: v3u(0, 0, 0) };
    let d = v3i(3, 5, 7);
    let r = step(&p, &d, &Tolerance::default());
    assert_eq!(r.voxel, v3i(0, 0, 1));
    assert_eq!(r.ingress, v3u(3 * CELL / 7, 5 * CELL / 7, 0));
}

#[test]
fn step_without_merge_moves_other_axes_along() {
    let p = Probe { voxel: v3i(0, 0, 0), ingress: v3u(0, 0, 0) };
    let d = v3i(1, 2, 0);
    let r = step(&p, &d, &Tolerance::default());
    assert_eq!(r.voxel, v3i(0, 1, 0));
    assert_eq!(r.ingress, v3u(HALF, 0, 0));
}

#[test]
fn near_tie_merges_into_one_step() {
    let p = Probe { voxel: v3i(0, 0, 0), ingress: v3u(0, 0, 100) };
    let d = v3i(1_000_000, 1_000_001, 0);
    let r = step(&p, &d, &Tolerance::default());
    assert_eq!(r.voxel, v3i(1, 1, 0));
    assert_eq!(r.ingress, v3u(0, 0, 100));
}

#[test]
fn near_tie_outside_tolerance_stays_apart() {
    let p = Probe { voxel: v3i(0, 0, 0), ingress: v3u(0, 0, 100) };
    let d = v3i(1_000_000, 1_000_001, 0);
    let tight = Tolerance::new(1, 1_000_000_000, 10).unwrap();
    let r = step(&p, &d, &tight);
    assert_eq!(r.voxel, v3i(0, 1, 0));
    assert_eq!(r.ingress.y, 0);
    assert!(r.ingress.x < CELL);
}

#[test]
fn negative_direction_wraps_to_top_face() {
    let p = Probe { voxel: v3i(2, 2, 2), ingress: v3u(HALF, HALF, HALF) };
    let d = v3i(-1, 0, 0);
    let r = step(&p, &d, &Tolerance::default());
    assert_eq!(r.voxel, v3i(1, 2, 2));
    assert_eq!(r.ingress, v3u(CELL, HALF, HALF));
}

#[test]
fn ingress_stays_in_cell_over_many_steps() {
    let tol = Tolerance::default();
    let dirs = [
        v3i(123_457, -98_765, 54_321),
        v3i(-1, -1, -1),
        v3i(0, 999_999, -1_000_000),
        v3i(-2_000_000_000, 3, 17),
        v3i(605_395, 605_395, 605_395),
    ];
    for d in dirs.iter() {
        let mut p = Probe { voxel: v3i(0, 0, 0), ingress: v3u(12_345, 999_000, 0) };
        for _ in 0..1000 {
            p = step(&p, d, &tol);
            let g = p.ingress;
            assert!(g.x <= CELL && g.y <= CELL && g.z <= CELL);
            let on_face = [g.x, g.y, g.z].iter().any(|&c| c == 0 || c == CELL);
            assert!(on_face);
        }
    }
}

#[test]
fn start_probe_splits_coordinates() {
    let origin = Vec3 { x: -1i64, y: 0i64, z: 3 * CELL as i64 };
    let d = v3i(-1, -1, 1);
    let p = start_probe(&origin, &d);
    assert_eq!(p.voxel, v3i(-1, -1, 3));
    assert_eq!(p.ingress, v3u(CELL - 1, CELL, 0));
}

#[test]
fn straight_ray_through_grid() {
    let c = CELL as i64;
    let origin = Vec3 { x: c / 2, y: c / 2, z: -2 * c + c / 2 };
    let d = v3i(0, 0, 1);
    assert_eq!(trace(&origin, &d, &grid5(), &Tolerance::default(), 10), 5);
}

#[test]
fn rerun_gives_same_hits() {
    let c = CELL as i64;
    let origin = Vec3 { x: -5 * c, y: 5 * c, z: -5 * c };
    let d = v3i(428_000, -428_000, 856_000);
    let tol = Tolerance::default();
    let a = trace(&origin, &d, &grid5(), &tol, 50);
    let b = trace(&origin, &d, &grid5(), &tol, 50);
    assert_eq!(a, b);
}

#[test]
fn hits_stable_across_tolerance_choices() {
    let c = CELL as i64;
    let origin = Vec3 { x: -5 * c + 3001, y: 5 * c - 7919, z: -5 * c + 104_729 };
    let tols = [
        Tolerance::default(),
        Tolerance::new(4, 1_000_000, 4).unwrap(),
        Tolerance::new(1, 50_000, 20).unwrap(),
    ];
    let dirs = [v3i(428_000, -428_000, 856_000), v3i(605_395, -605_395, 605_395), v3i(300_000, -200_000, 900_000)];
    for d in dirs.iter() {
        let first = trace(&origin, d, &grid5(), &tols[0], 50);
        for t in tols.iter() {
            assert_eq!(trace(&origin, d, &grid5(), t, 50), first);
        }
    }
}

#[test]
fn tolerance_must_be_positive() {
    assert!(Tolerance::new(0, 10, 1).is_none());
    assert!(Tolerance::new(1, 0, 1).is_none());
    let t = Tolerance::default();
    assert_eq!((t.merge_num, t.merge_den, t.boundary), (1, 100_000, 10));
}

#[test]
fn grid_membership() {
    let g = grid5();
    assert!(g.contains(&v3i(0, 4, 2)));
    assert!(!g.contains(&v3i(5, 0, 0)));
    assert!(!g.contains(&v3i(0, -1, 0)));
}
