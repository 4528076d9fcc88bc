//! The flagship workload: every fragment traces one ray through the grid and is
//! colored by the number of hits.

use vstd::prelude::*;
use crate::engine::{
    Color, Paint, in_raster, job_at, job_index, lemma_jobs_cover_raster, paint_of, raster_fits,
    raster_fits_checked, run_pass, run_pass_parallel,
};
use crate::traverse::{Grid, Tolerance, floor_split, moving, origin_fits, trace, trace_spec};
use crate::wec::{Vec2, Vec3};

verus! {

/// One color channel for a hit count: `hits / full` of full intensity, rounded
/// down, and full intensity from `full` hits on.
pub open spec fn channel(hits: int, full: int) -> u8 {
    if hits >= full {
        255
    } else {
        (hits * 255 / full) as u8
    }
}

/// The color of a fragment whose ray counted `hits` hits.
pub open spec fn color_of_hits_spec(hits: int) -> Color {
    Color { r: channel(hits, 15), g: channel(hits, 10), b: channel(hits, 5), a: 255 }
}

/// The color of a fragment whose ray counted `hits` hits: red full at 15, green
/// at 10, blue at 5, alpha always full.
pub fn color_of_hits(hits: u64) -> (r: Color)
    ensures
        r == color_of_hits_spec(hits as int),
{
    let r: u8 = if hits >= 15 {
        255
    } else {
        (hits * 255 / 15) as u8
    };
    let g: u8 = if hits >= 10 {
        255
    } else {
        (hits * 255 / 10) as u8
    };
    let b: u8 = if hits >= 5 {
        255
    } else {
        (hits * 255 / 5) as u8
    };
    Color { r, g, b, a: 255 }
}

/// What every fragment of a pass reads: the raster, the ray origin shared by all
/// fragments, one ray direction per fragment, and the traversal's settings.
pub struct Scene {
    pub x_size: usize,
    pub y_size: usize,
    /// The ray origin, in ingress units (`CELL` per cell).
    pub origin: Vec3<i64>,
    /// The direction of the ray of fragment `(x, y)`, at index `x * y_size + y`.
    pub directions: Vec<Vec3<i32>>,
    pub grid: Grid,
    pub tol: Tolerance,
    /// Steps per ray.
    pub steps: u32,
}

impl Scene {
    pub open spec fn wf(&self) -> bool {
        &&& 0 < self.x_size
        &&& 0 < self.y_size
        &&& raster_fits(self.x_size, self.y_size)
        &&& self.directions@.len() == self.x_size * self.y_size
        &&& self.tol.wf()
        &&& origin_fits(self.origin, self.steps as int)
    }

    /// A scene, or `None` when the raster is empty or too large for the machine
    /// (see `raster_fits`), the directions do not number
    /// one per fragment, the merge tolerance is not positive, or the origin's
    /// cell leaves no room for `steps` steps in an `i32` coordinate.
    pub fn new(
        x_size: usize,
        y_size: usize,
        origin: Vec3<i64>,
        directions: Vec<Vec3<i32>>,
        grid: Grid,
        tol: Tolerance,
        steps: u32,
    ) -> (r: Option<Scene>)
        ensures
            r is Some <==> (Scene { x_size, y_size, origin, directions, grid, tol, steps }).wf(),
            r is Some ==> r->0 == (Scene { x_size, y_size, origin, directions, grid, tol, steps }),
    {
        let lo: i64 = i32::MIN as i64 + steps as i64 + 1;
        let hi: i64 = i32::MAX as i64 - steps as i64;
        let cx = floor_split(origin.x).0;
        let cy = floor_split(origin.y).0;
        let cz = floor_split(origin.z).0;
        if !raster_fits_checked(x_size, y_size) || x_size == 0 || y_size == 0
            || directions.len() != x_size * y_size || !(tol.merge_num > 0
            && tol.merge_den > 0) || !(lo <= cx && cx <= hi && lo <= cy && cy <= hi && lo <= cz
            && cz <= hi) {
            None
        } else {
            Some(Scene { x_size, y_size, origin, directions, grid, tol, steps })
        }
    }
}

/// The direction of the ray of fragment `xy`.
pub open spec fn ray_of(scene: Scene, xy: Vec2<i32>) -> Vec3<i32> {
    scene.directions@[job_index(scene.y_size as int, xy.x as int, xy.y as int)]
}

/// The hits of the ray of fragment `xy`; a ray that does not move counts none.
pub open spec fn fragment_hits(scene: Scene, xy: Vec2<i32>) -> int {
    let d = ray_of(scene, xy);
    if moving(d) {
        trace_spec(scene.origin, d, scene.grid, scene.tol, scene.steps as nat) as int
    } else {
        0
    }
}

/// The color of fragment `xy`.
pub open spec fn shade_spec(scene: Scene, xy: Vec2<i32>) -> Color {
    color_of_hits_spec(fragment_hits(scene, xy))
}

/// The paint commands of one pass over the scene, in job order.
pub open spec fn scene_pass(scene: Scene) -> Seq<Paint> {
    let h = scene.y_size as int;
    Seq::new(
        (scene.x_size * scene.y_size) as nat,
        |i: int| paint_of(job_at(h, i), shade_spec(scene, job_at(h, i))),
    )
}

/// Computes the color of fragment `xy`: traces its ray and colors it by its hits.
pub fn shade_fragment(xy: Vec2<i32>, scene: &Scene) -> (r: Color)
    requires
        scene.wf(),
        in_raster(scene.x_size as int, scene.y_size as int, xy),
    ensures
        r == shade_spec(*scene, xy),
{
    let h = scene.y_size;
    proof {
        assert(0 <= xy.x * h + xy.y < scene.x_size * h) by (nonlinear_arith)
            requires
                0 <= xy.x < scene.x_size,
                0 <= xy.y < h,
        ;
    }
    let d = scene.directions[xy.x as usize * h + xy.y as usize];
    if d.x != 0 || d.y != 0 || d.z != 0 {
        let hits = trace(&scene.origin, &d, &scene.grid, &scene.tol, scene.steps);
        color_of_hits(hits)
    } else {
        color_of_hits(0)
    }
}

/// One pass over the scene, its fragments computed in parallel on rayon's pool.
pub fn render_parallel(scene: &Scene) -> (r: Vec<Paint>)
    requires
        scene.wf(),
    ensures
        r@ == scene_pass(*scene),
{
    let w = scene.x_size;
    let h = scene.y_size;
    proof {
        lemma_jobs_cover_raster(w as int, h as int);
    }
    match run_pass_parallel(w, h, scene, &shade_fragment) {
        Ok(paints) => {
            assert forall|k: int| 0 <= k < paints@.len() implies paints@[k] == scene_pass(
                *scene,
            )[k] by {
                let xy = job_at(h as int, k);
                assert(in_raster(w as int, h as int, xy));
                assert(shade_fragment.ensures((xy, scene), crate::engine::color_of(paints@[k])));
            }
            assert(paints@ =~= scene_pass(*scene));
            paints
        },
        Err(_) => {
            assert(false);
            Vec::new()
        },
    }
}

/// One pass over the scene, its fragments computed one after another.
pub fn render_sequential(scene: &Scene) -> (r: Vec<Paint>)
    requires
        scene.wf(),
    ensures
        r@ == scene_pass(*scene),
{
    let w = scene.x_size;
    let h = scene.y_size;
    proof {
        lemma_jobs_cover_raster(w as int, h as int);
    }
    match run_pass(w, h, scene, &shade_fragment) {
        Ok(paints) => {
            assert forall|k: int| 0 <= k < paints@.len() implies paints@[k] == scene_pass(
                *scene,
            )[k] by {
                let xy = job_at(h as int, k);
                assert(in_raster(w as int, h as int, xy));
                assert(shade_fragment.ensures((xy, scene), crate::engine::color_of(paints@[k])));
            }
            assert(paints@ =~= scene_pass(*scene));
            paints
        },
        Err(_) => {
            assert(false);
            Vec::new()
        },
    }
}

} // verus!
