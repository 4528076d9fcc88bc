use std::collections::HashSet;

use rayon::iter::{IntoParallelRefIterator, ParallelIterator};

use cpurender::engine::{raster_fits_checked, run_pass_parallel, fragment_jobs, paint_command, run_pass, Color, Frame, Paint, RasterError};
use cpurender::shade::{color_of_hits, render_parallel, render_sequential, shade_fragment, Scene};
use cpurender::traverse::{Grid, Tolerance, CELL};
use cpurender::wec::{Vec2, Vec3};

fn rgba(r: u8, g: u8, b: u8, a: u8) -> Color {
    Color { r, g, b, a }
}

#[test]
fn jobs_run_column_by_column() {
    let jobs = fragment_jobs(2, 3).unwrap();
    let coords: Vec<(i32, i32)> = jobs.iter().map(|v| (v.x, v.y)).collect();
    assert_eq!(coords, vec![(0, 0), (0, 1), (0, 2), (1, 0), (1, 1), (1, 2)]);
}

#[test]
fn empty_raster_is_rejected() {
    assert_eq!(fragment_jobs(0, 5), Err(RasterError::Empty));
    assert_eq!(fragment_jobs(5, 0), Err(RasterError::Empty));
    let f = |_xy: Vec2<i32>, _s: &u8| rgba(1, 2, 3, 4);
    assert_eq!(run_pass(0, 3, &0u8, &f), Err(RasterError::Empty));
    assert_eq!(run_pass_parallel(4, 0, &0u8, &f), Err(RasterError::Empty));
}

#[test]
fn pass_paints_every_pixel_once() {
    let (w, h) = (7usize, 5usize);
    let f = |xy: Vec2<i32>, s: &u8| rgba(xy.x as u8, xy.y as u8, *s, 255);
    let paints = run_pass(w, h, &9u8, &f).unwrap();
    assert_eq!(paints.len(), w * h);
    let seen: HashSet<(usize, usize)> = paints.iter().map(|p| (p.x, p.y)).collect();
    assert_eq!(seen.len(), w * h);
    for p in paints.iter() {
        assert!(p.x < w && p.y < h);
        assert_eq!((p.r, p.g, p.b, p.a), (p.x as u8, p.y as u8, 9, 255));
    }
}

#[test]
fn sequential_and_threaded_passes_agree() {
    let (w, h) = (9usize, 4usize);
    let f = |xy: Vec2<i32>, s: &u8| rgba((xy.x * 3) as u8, (xy.y * 5) as u8, *s, 7);
    let mut seq = run_pass(w, h, &3u8, &f).unwrap();
    let jobs = fragment_jobs(w, h).unwrap();
    let mut par: Vec<Paint> = jobs.par_iter().map(|xy| paint_command(*xy, f(*xy, &3u8))).collect();
    let key = |p: &Paint| (p.x, p.y, p.r, p.g, p.b, p.a);
    seq.sort_by_key(key);
    par.sort_by_key(key);
    assert_eq!(seq, par);
}

#[test]
fn colors_from_hits() {
    assert_eq!(color_of_hits(0), rgba(0, 0, 0, 255));
    assert_eq!(color_of_hits(1), rgba(17, 25, 51, 255));
    assert_eq!(color_of_hits(3), rgba(51, 76, 153, 255));
    assert_eq!(color_of_hits(5), rgba(85, 127, 255, 255));
    assert_eq!(color_of_hits(10), rgba(170, 255, 255, 255));
    assert_eq!(color_of_hits(15), rgba(255, 255, 255, 255));
    assert_eq!(color_of_hits(400), rgba(255, 255, 255, 255));
}

#[test]
fn pass_colors_reach_the_sink_unchanged() {
    // whatever the per-pixel function returns is painted as it is, on every pass
    let f = |xy: Vec2<i32>, _s: &()| rgba(255 - xy.x as u8, 10, 200, 3);
    let first = run_pass(3, 2, &(), &f).unwrap();
    let second = run_pass(3, 2, &(), &f).unwrap();
    assert_eq!(first, second);
    for p in first.iter() {
        assert_eq!((p.r, p.g, p.b, p.a), (255 - p.x as u8, 10, 200, 3));
    }
}

#[test]
fn frame_overwrites_by_coordinate() {
    let mut frame = Frame::new(3, 2);
    assert_eq!(frame.pixel(2, 1), rgba(0, 0, 0, 0));
    frame.apply(&Paint { x: 2, y: 1, r: 1, g: 2, b: 3, a: 4 });
    frame.apply(&Paint { x: 0, y: 0, r: 9, g: 9, b: 9, a: 9 });
    frame.apply(&Paint { x: 2, y: 1, r: 5, g: 6, b: 7, a: 8 });
    assert_eq!(frame.pixel(2, 1), rgba(5, 6, 7, 8));
    assert_eq!(frame.pixel(0, 0), rgba(9, 9, 9, 9));
    assert_eq!(frame.pixels[5], rgba(5, 6, 7, 8));
}

fn demo_scene(w: usize, h: usize) -> Scene {
    let c = CELL as i64;
    let mut dirs = Vec::new();
    for x in 0..w as i32 {
        for y in 0..h as i32 {
            dirs.push(Vec3 { x: 400_000 + 20_000 * x, y: -400_000 + 30_000 * y, z: 800_000 });
        }
    }
    let grid = Grid { lower: Vec3 { x: 0, y: 0, z: 0 }, upper: Vec3 { x: 5, y: 5, z: 5 } };
    Scene::new(w, h, Vec3 { x: -5 * c, y: 5 * c, z: -5 * c }, dirs, grid, Tolerance::default(), 50).unwrap()
}

#[test]
fn parallel_render_matches_sequential() {
    let scene = demo_scene(6, 5);
    let par = render_parallel(&scene);
    let seq = render_sequential(&scene);
    assert_eq!(par.len(), 30);
    assert_eq!(par, seq);
    for p in par.iter() {
        let c = shade_fragment(Vec2 { x: p.x as i32, y: p.y as i32 }, &scene);
        assert_eq!((p.r, p.g, p.b, p.a), (c.r, c.g, c.b, c.a));
    }
    // some ray of this scene goes through the grid
    assert!(par.iter().any(|p| p.b > 0));
}

#[test]
fn scene_checks_its_parts() {
    let c = CELL as i64;
    let grid = Grid { lower: Vec3 { x: 0, y: 0, z: 0 }, upper: Vec3 { x: 5, y: 5, z: 5 } };
    let origin = Vec3 { x: 0, y: 0, z: 0 };
    let d = Vec3 { x: 1, y: 0, z: 0 };
    assert!(Scene::new(2, 1, origin, vec![d, d], grid, Tolerance::default(), 5).is_some());
    assert!(Scene::new(2, 1, origin, vec![d], grid, Tolerance::default(), 5).is_none());
    assert!(Scene::new(0, 1, origin, vec![], grid, Tolerance::default(), 5).is_none());
    assert!(Scene::new(i32::MAX as usize + 1, 1, origin, vec![], grid, Tolerance::default(), 5).is_none());
    let bad_tol = Tolerance { merge_num: 0, merge_den: 1, boundary: 0 };
    assert!(Scene::new(2, 1, origin, vec![d, d], grid, bad_tol, 5).is_none());
    let far = Vec3 { x: (i32::MAX as i64) * c, y: 0, z: 0 };
    assert!(Scene::new(2, 1, far, vec![d, d], grid, Tolerance::default(), 5).is_none());
}

#[test]
fn still_ray_counts_nothing() {
    let grid = Grid { lower: Vec3 { x: 0, y: 0, z: 0 }, upper: Vec3 { x: 5, y: 5, z: 5 } };
    let scene = Scene::new(1, 1, Vec3 { x: 0, y: 0, z: 0 }, vec![Vec3 { x: 0, y: 0, z: 0 }], grid, Tolerance::default(), 5).unwrap();
    assert_eq!(shade_fragment(Vec2 { x: 0, y: 0 }, &scene), color_of_hits(0));
}

#[test]
fn raster_size_limits() {
    assert!(raster_fits_checked(1000, 1000));
    assert!(!raster_fits_checked(i32::MAX as usize + 1, 1));
    assert!(!raster_fits_checked(usize::MAX / 2, 3));
}

#[test]
fn parallel_pass_matches_sequential_pass() {
    let (w, h) = (13usize, 11usize);
    let f = |xy: Vec2<i32>, s: &u8| rgba((xy.x * 7) as u8, (xy.y * 3) as u8, *s, (xy.x + xy.y) as u8);
    let seq = run_pass(w, h, &5u8, &f).unwrap();
    let par = run_pass_parallel(w, h, &5u8, &f).unwrap();
    assert_eq!(par.len(), w * h);
    assert_eq!(par, seq);
    let seen: HashSet<(usize, usize)> = par.iter().map(|p| (p.x, p.y)).collect();
    assert_eq!(seen.len(), w * h);
}
