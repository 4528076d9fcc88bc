//! The fragment engine: one job per raster coordinate, one color per job, one
//! paint command per color.

use vstd::prelude::*;
use rayon::iter::{IndexedParallelIterator, IntoParallelRefIterator, ParallelIterator};
use crate::wec::Vec2;

verus! {

/// A color: four 8-bit channels.
#[derive(Copy, Clone, Debug, PartialEq, Eq)]
pub struct Color {
    pub r: u8,
    pub g: u8,
    pub b: u8,
    pub a: u8,
}

/// A command to paint the pixel `(x, y)` with a color.
#[derive(Copy, Clone, Debug, PartialEq, Eq)]
pub struct Paint {
    pub x: usize,
    pub y: usize,
    pub r: u8,
    pub g: u8,
    pub b: u8,
    pub a: u8,
}

/// Why a pass could not start.
#[derive(Copy, Clone, Debug, PartialEq, Eq)]
pub enum RasterError {
    /// The raster has no pixel: its width or its height is zero.
    Empty,
}

/// The sizes fit the machine: each coordinate fits an `i32`, the pixel count a `usize`.
pub open spec fn raster_fits(x_size: usize, y_size: usize) -> bool {
    x_size <= i32::MAX && y_size <= i32::MAX && x_size * y_size <= usize::MAX
}

/// Whether the sizes fit the machine, as `raster_fits` states.
pub fn raster_fits_checked(x_size: usize, y_size: usize) -> (r: bool)
    ensures
        r == raster_fits(x_size, y_size),
{
    x_size <= i32::MAX as usize && y_size <= i32::MAX as usize && x_size.checked_mul(y_size).is_some()
}

/// The coordinate of job `i` of a raster of height `h`: jobs run through each
/// column from top to bottom, column after column.
pub open spec fn job_at(h: int, i: int) -> Vec2<i32> {
    Vec2 { x: (i / h) as i32, y: (i % h) as i32 }
}

/// The index of the job at `(x, y)` in a raster of height `h`.
pub open spec fn job_index(h: int, x: int, y: int) -> int {
    x * h + y
}

/// The jobs of a `w` by `h` raster, in order.
pub open spec fn raster_jobs(w: int, h: int) -> Seq<Vec2<i32>> {
    Seq::new((w * h) as nat, |i: int| job_at(h, i))
}

/// Whether `xy` lies in a `w` by `h` raster.
pub open spec fn in_raster(w: int, h: int, xy: Vec2<i32>) -> bool {
    0 <= xy.x < w && 0 <= xy.y < h
}

pub open spec fn paint_of(xy: Vec2<i32>, c: Color) -> Paint {
    Paint { x: xy.x as usize, y: xy.y as usize, r: c.r, g: c.g, b: c.b, a: c.a }
}

pub open spec fn color_of(p: Paint) -> Color {
    Color { r: p.r, g: p.g, b: p.b, a: p.a }
}

/// `paints` is a full pass of `f` over a `w` by `h` raster: command `i` paints
/// job `i` with a color that `f` may return for it.
pub open spec fn is_pass_of<S, F: Fn(Vec2<i32>, &S) -> Color>(
    f: F,
    state: &S,
    w: int,
    h: int,
    paints: Seq<Paint>,
) -> bool {
    &&& paints.len() == w * h
    &&& forall|i: int|
        0 <= i < w * h ==> {
            &&& (#[trigger] paints[i]).x == job_at(h, i).x
            &&& paints[i].y == job_at(h, i).y
            &&& f.ensures((job_at(h, i), state), color_of(paints[i]))
        }
}

proof fn lemma_job_index(w: int, h: int, x: int, y: int)
    requires
        0 <= x < w,
        0 <= y < h,
        h <= i32::MAX,
        w <= i32::MAX,
    ensures
        0 <= x * h + y < w * h,
        job_at(h, x * h + y) == (Vec2::<i32> { x: x as i32, y: y as i32 }),
{
    assert(0 <= x * h + y < w * h) by (nonlinear_arith)
        requires
            0 <= x < w,
            0 <= y < h,
    ;
    vstd::arithmetic::div_mod::lemma_fundamental_div_mod_converse(x * h + y, h, x, y);
}

proof fn lemma_job_in_raster(w: int, h: int, i: int)
    requires
        0 < h <= i32::MAX,
        w <= i32::MAX,
        0 <= i < w * h,
    ensures
        in_raster(w, h, job_at(h, i)),
        i == job_at(h, i).x * h + job_at(h, i).y,
{
    vstd::arithmetic::div_mod::lemma_fundamental_div_mod(i, h);
    vstd::arithmetic::div_mod::lemma_div_pos_is_pos(i, h);
    assert(h * (i / h) == (i / h) * h) by (nonlinear_arith);
    assert(i / h < w) by {
        vstd::arithmetic::div_mod::lemma_div_is_ordered(i, w * h - 1, h);
        vstd::arithmetic::div_mod::lemma_fundamental_div_mod(w * h - 1, h);
        assert((w * h - 1) / h < w) by (nonlinear_arith)
            requires
                w * h - 1 == h * ((w * h - 1) / h) + (w * h - 1) % h,
                0 <= (w * h - 1) % h,
                h > 0,
        ;
    }
}

/// A pass covers its raster exactly once: every job lies in the raster, no two
/// jobs share a coordinate, and every coordinate `(x, y)` is the job at index
/// `job_index(h, x, y)`, that is `x * h + y`.
pub proof fn lemma_jobs_cover_raster(w: int, h: int)
    requires
        0 < w <= i32::MAX,
        0 < h <= i32::MAX,
    ensures
        forall|i: int| 0 <= i < w * h ==> in_raster(w, h, #[trigger] job_at(h, i)),
        forall|i: int, j: int|
            0 <= i < w * h && 0 <= j < w * h && #[trigger] job_at(h, i) == #[trigger] job_at(h, j)
                ==> i == j,
        forall|x: int, y: int|
            0 <= x < w && 0 <= y < h ==> 0 <= #[trigger] job_index(h, x, y) < w * h && job_at(
                h,
                job_index(h, x, y),
            ) == (Vec2::<i32> { x: x as i32, y: y as i32 }),
{
    assert forall|i: int| 0 <= i < w * h implies in_raster(w, h, #[trigger] job_at(h, i)) by {
        lemma_job_in_raster(w, h, i);
    }
    assert forall|i: int, j: int|
        0 <= i < w * h && 0 <= j < w * h && #[trigger] job_at(h, i) == #[trigger] job_at(h, j)
            implies i == j by {
        lemma_job_in_raster(w, h, i);
        lemma_job_in_raster(w, h, j);
    }
    assert forall|x: int, y: int| 0 <= x < w && 0 <= y < h implies 0 <= #[trigger] job_index(
        h,
        x,
        y,
    ) < w * h && job_at(h, job_index(h, x, y)) == (Vec2::<i32> { x: x as i32, y: y as i32 }) by {
        lemma_job_index(w, h, x, y);
    }
}

/// The jobs of a `x_size` by `y_size` raster, or `RasterError::Empty` when it
/// has no pixel.
pub fn fragment_jobs(x_size: usize, y_size: usize) -> (r: Result<Vec<Vec2<i32>>, RasterError>)
    requires
        raster_fits(x_size, y_size),
    ensures
        r is Err <==> (x_size == 0 || y_size == 0),
        r is Err ==> r->Err_0 == RasterError::Empty,
        r is Ok ==> r->Ok_0@ == raster_jobs(x_size as int, y_size as int),
{
    if x_size == 0 || y_size == 0 {
        return Err(RasterError::Empty);
    }
    let ghost h = y_size as int;
    let mut jobs: Vec<Vec2<i32>> = Vec::new();
    let mut x: usize = 0;
    while x < x_size
        invariant
            0 < y_size,
            h == y_size,
            raster_fits(x_size, y_size),
            x <= x_size,
            jobs@.len() == x * h,
            forall|i: int| 0 <= i < jobs@.len() ==> #[trigger] jobs@[i] == job_at(h, i),
        decreases x_size - x,
    {
        let mut y: usize = 0;
        while y < y_size
            invariant
                0 < y_size,
                h == y_size,
                raster_fits(x_size, y_size),
                x < x_size,
                y <= y_size,
                jobs@.len() == x * h + y,
                forall|i: int| 0 <= i < jobs@.len() ==> #[trigger] jobs@[i] == job_at(h, i),
            decreases y_size - y,
        {
            proof {
                lemma_job_index(x_size as int, h, x as int, y as int);
            }
            jobs.push(Vec2 { x: x as i32, y: y as i32 });
            y = y + 1;
        }
        proof {
            assert(x * h + h == (x + 1) * h) by (nonlinear_arith);
        }
        x = x + 1;
    }
    assert(jobs@ =~= raster_jobs(x_size as int, h));
    Ok(jobs)
}

/// The paint command for the job at `xy` with color `c`.
pub fn paint_command(xy: Vec2<i32>, c: Color) -> (r: Paint)
    requires
        xy.x >= 0,
        xy.y >= 0,
    ensures
        r == paint_of(xy, c),
{
    Paint { x: xy.x as usize, y: xy.y as usize, r: c.r, g: c.g, b: c.b, a: c.a }
}

/// Evaluates `f` once on the job at `xy` and returns its paint command.
pub fn paint_job<S, F: Fn(Vec2<i32>, &S) -> Color>(xy: Vec2<i32>, state: &S, f: &F) -> (r: Paint)
    requires
        xy.x >= 0,
        xy.y >= 0,
        f.requires((xy, state)),
    ensures
        r.x == xy.x,
        r.y == xy.y,
        f.ensures((xy, state), color_of(r)),
{
    let c = f(xy, state);
    paint_command(xy, c)
}

/// Relies on rayon's `par_iter` over a slice, `map` and `collect_into_vec`: the
/// output holds, at each index, the mapped value of the input at that index.
#[verifier::external_body]
fn paint_all<S: Sync, F: Fn(Vec2<i32>, &S) -> Color + Sync>(
    jobs: &Vec<Vec2<i32>>,
    state: &S,
    f: &F,
) -> (r: Vec<Paint>)
    requires
        forall|i: int|
            0 <= i < jobs@.len() ==> jobs@[i].x >= 0 && jobs@[i].y >= 0 && f.requires(
                (jobs@[i], state),
            ),
    ensures
        r@.len() == jobs@.len(),
        forall|i: int|
            0 <= i < jobs@.len() ==> {
                &&& (#[trigger] r@[i]).x == jobs@[i].x
                &&& r@[i].y == jobs@[i].y
                &&& f.ensures((jobs@[i], state), color_of(r@[i]))
            },
{
    let mut out = Vec::new();
    jobs.par_iter().map(|xy| paint_job(*xy, state, f)).collect_into_vec(&mut out);
    out
}

/// Runs one pass: evaluates `f` once for every coordinate of the raster, in job
/// order, and returns one paint command per coordinate; `RasterError::Empty`
/// when the raster has no pixel.
pub fn run_pass<S, F: Fn(Vec2<i32>, &S) -> Color>(
    x_size: usize,
    y_size: usize,
    state: &S,
    f: &F,
) -> (r: Result<Vec<Paint>, RasterError>)
    requires
        raster_fits(x_size, y_size),
        forall|xy: Vec2<i32>|
            in_raster(x_size as int, y_size as int, xy) ==> #[trigger] f.requires((xy, state)),
    ensures
        r is Err <==> (x_size == 0 || y_size == 0),
        r is Err ==> r->Err_0 == RasterError::Empty,
        r is Ok ==> is_pass_of(*f, state, x_size as int, y_size as int, r->Ok_0@),
{
    let jobs = match fragment_jobs(x_size, y_size) {
        Ok(jobs) => jobs,
        Err(e) => return Err(e),
    };
    let ghost w = x_size as int;
    let ghost h = y_size as int;
    proof {
        lemma_jobs_cover_raster(w, h);
    }
    let mut paints: Vec<Paint> = Vec::new();
    let mut i: usize = 0;
    while i < jobs.len()
        invariant
            jobs@ == raster_jobs(w, h),
            0 < w <= i32::MAX,
            0 < h <= i32::MAX,
            forall|k: int| 0 <= k < w * h ==> in_raster(w, h, #[trigger] job_at(h, k)),
            forall|xy: Vec2<i32>| in_raster(w, h, xy) ==> #[trigger] f.requires((xy, state)),
            i <= jobs@.len(),
            paints@.len() == i,
            forall|k: int|
                0 <= k < i ==> {
                    &&& (#[trigger] paints@[k]).x == job_at(h, k).x
                    &&& paints@[k].y == job_at(h, k).y
                    &&& f.ensures((job_at(h, k), state), color_of(paints@[k]))
                },
        decreases jobs@.len() - i,
    {
        assert(in_raster(w, h, job_at(h, i as int)));
        paints.push(paint_job(jobs[i], state, f));
        i = i + 1;
    }
    Ok(paints)
}

/// Runs one pass with its jobs handed to rayon's pool: evaluates `f` once for
/// every coordinate of the raster and returns one paint command per coordinate,
/// in job order; `RasterError::Empty` when the raster has no pixel.
pub fn run_pass_parallel<S: Sync, F: Fn(Vec2<i32>, &S) -> Color + Sync>(
    x_size: usize,
    y_size: usize,
    state: &S,
    f: &F,
) -> (r: Result<Vec<Paint>, RasterError>)
    requires
        raster_fits(x_size, y_size),
        forall|xy: Vec2<i32>|
            in_raster(x_size as int, y_size as int, xy) ==> #[trigger] f.requires((xy, state)),
    ensures
        r is Err <==> (x_size == 0 || y_size == 0),
        r is Err ==> r->Err_0 == RasterError::Empty,
        r is Ok ==> is_pass_of(*f, state, x_size as int, y_size as int, r->Ok_0@),
{
    let jobs = match fragment_jobs(x_size, y_size) {
        Ok(jobs) => jobs,
        Err(e) => return Err(e),
    };
    let ghost w = x_size as int;
    let ghost h = y_size as int;
    proof {
        lemma_jobs_cover_raster(w, h);
        assert forall|i: int| 0 <= i < jobs@.len() implies jobs@[i].x >= 0 && jobs@[i].y >= 0
            && f.requires((jobs@[i], state)) by {
            assert(in_raster(w, h, job_at(h, i)));
        }
    }
    let paints = paint_all(&jobs, state, f);
    Ok(paints)
}

/// Two full passes of one per-pixel function over the same raster and state
/// paint the same commands, in whatever order or on however many threads they
/// were computed (`run_pass` and `run_pass_parallel` both return full passes),
/// provided the function's result depends on its arguments alone.
pub proof fn lemma_passes_agree<S, F: Fn(Vec2<i32>, &S) -> Color>(
    f: F,
    state: &S,
    w: int,
    h: int,
    a: Seq<Paint>,
    b: Seq<Paint>,
)
    requires
        is_pass_of(f, state, w, h, a),
        is_pass_of(f, state, w, h, b),
        forall|xy: Vec2<i32>, c1: Color, c2: Color|
            f.ensures((xy, state), c1) && f.ensures((xy, state), c2) ==> c1 == c2,
    ensures
        a == b,
        a.to_multiset() == b.to_multiset(),
{
    assert forall|i: int| 0 <= i < a.len() implies a[i] == b[i] by {
        assert(f.ensures((job_at(h, i), state), color_of(a[i])));
        assert(f.ensures((job_at(h, i), state), color_of(b[i])));
        assert(color_of(a[i]) == color_of(b[i]));
    }
    assert(a =~= b);
}

/// A frame that paint commands are applied to: one color per pixel, row after
/// row, pixel `(x, y)` at index `y * width + x`. A later command for a pixel
/// overwrites an earlier one, so the order of arrival does not matter within a pass.
pub struct Frame {
    pub width: usize,
    pub height: usize,
    pub pixels: Vec<Color>,
}

impl Frame {
    pub open spec fn wf(&self) -> bool {
        &&& self.pixels@.len() == self.width * self.height
        &&& self.width * self.height <= usize::MAX
    }

    /// A frame of `width` by `height` transparent black pixels.
    pub fn new(width: usize, height: usize) -> (r: Frame)
        requires
            width * height <= usize::MAX,
        ensures
            r.wf(),
            r.width == width,
            r.height == height,
            forall|i: int|
                0 <= i < r.pixels@.len() ==> #[trigger] r.pixels@[i] == (Color { r: 0, g: 0, b: 0, a: 0 }),
    {
        let n = width * height;
        let mut pixels: Vec<Color> = Vec::new();
        let mut i: usize = 0;
        while i < n
            invariant
                i <= n,
                pixels@.len() == i,
                forall|k: int|
                    0 <= k < i ==> #[trigger] pixels@[k] == (Color { r: 0, g: 0, b: 0, a: 0 }),
            decreases n - i,
        {
            pixels.push(Color { r: 0, g: 0, b: 0, a: 0 });
            i = i + 1;
        }
        Frame { width, height, pixels }
    }

    /// Paints one pixel with the command's color.
    pub fn apply(&mut self, p: &Paint)
        requires
            old(self).wf(),
            p.x < old(self).width,
            p.y < old(self).height,
        ensures
            final(self).wf(),
            final(self).width == old(self).width,
            final(self).height == old(self).height,
            final(self).pixels@ == old(self).pixels@.update(
                p.y * old(self).width + p.x,
                color_of(*p),
            ),
    {
        proof {
            assert(0 <= p.y * self.width + p.x < self.width * self.height) by (nonlinear_arith)
                requires
                    p.x < self.width,
                    p.y < self.height,
                    self.width * self.height <= usize::MAX,
            ;
        }
        let i = p.y * self.width + p.x;
        self.pixels.set(i, Color { r: p.r, g: p.g, b: p.b, a: p.a });
    }

    /// The color of pixel `(x, y)`.
    pub fn pixel(&self, x: usize, y: usize) -> (r: Color)
        requires
            self.wf(),
            x < self.width,
            y < self.height,
        ensures
            r == self.pixels@[y * self.width + x],
    {
        proof {
            assert(0 <= y * self.width + x < self.width * self.height) by (nonlinear_arith)
                requires
                    x < self.width,
                    y < self.height,
                    self.width * self.height <= usize::MAX,
            ;
        }
        self.pixels[y * self.width + x]
    }
}

} // verus!
