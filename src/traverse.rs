//! Grid ray traversal: which cells of an integer grid a ray passes through.
//!
//! A ray is tracked as the cell it is in (`voxel`) and its position inside that
//! cell (`ingress`, each component from 0 to `CELL`). Each step moves the ray to
//! the nearest face of its cell in the direction of travel. Axes whose crossing
//! distances differ by less than the merge tolerance are crossed together, as
//! one step through an edge or a corner.

use vstd::prelude::*;
use crate::wec::{Axis3, Vec3};

verus! {

/// Ingress units per cell edge: an ingress component runs from 0 to `CELL`.
pub const CELL: u64 = 1048576;

/// Tolerances of the traversal.
///
/// A crossing distance is `gap / speed`: ingress units to the face, over the
/// magnitude of the direction component. With directions scaled to a length of
/// `CELL`, distances are measured in cell edges along the ray.
#[derive(Copy, Clone, Debug, PartialEq, Eq)]
pub struct Tolerance {
    /// Numerator of the merge tolerance: two crossing distances whose difference
    /// is below `merge_num / merge_den` are crossed as one step.
    pub merge_num: u32,
    /// Denominator of the merge tolerance.
    pub merge_den: u32,
    /// An ingress component within `boundary` units of 0 or of `CELL` lies on a
    /// face of its cell.
    pub boundary: u64,
}

impl Tolerance {
    pub open spec fn wf(self) -> bool {
        self.merge_num > 0 && self.merge_den > 0
    }

    /// A tolerance, or `None` when the merge fraction is not positive.
    pub fn new(merge_num: u32, merge_den: u32, boundary: u64) -> (r: Option<Tolerance>)
        ensures
            r is Some <==> (merge_num > 0 && merge_den > 0),
            r is Some ==> r->0.wf() && r->0 == (Tolerance { merge_num, merge_den, boundary }),
    {
        if merge_num > 0 && merge_den > 0 {
            Some(Tolerance { merge_num, merge_den, boundary })
        } else {
            None
        }
    }
}

impl Default for Tolerance {
    /// A merge tolerance of 1e-5 and a face band of 10 units (about 1e-5 of a cell).
    fn default() -> (r: Tolerance)
        ensures
            r == (Tolerance { merge_num: 1, merge_den: 100000, boundary: 10 }),
    {
        Tolerance { merge_num: 1, merge_den: 100000, boundary: 10 }
    }
}

/// The state of a ray between steps: its cell and its position inside the cell.
#[derive(Copy, Clone, Debug, PartialEq, Eq)]
pub struct Probe {
    pub voxel: Vec3<i32>,
    pub ingress: Vec3<u64>,
}

impl Probe {
    /// Every ingress component lies in `[0, CELL]`.
    pub open spec fn wf(self) -> bool {
        self.ingress.x <= CELL && self.ingress.y <= CELL && self.ingress.z <= CELL
    }
}

/// An axis-aligned box of cells: `lower` inclusive, `upper` exclusive.
#[derive(Copy, Clone, Debug, PartialEq, Eq)]
pub struct Grid {
    pub lower: Vec3<i32>,
    pub upper: Vec3<i32>,
}

impl Grid {
    pub open spec fn contains_spec(self, v: Vec3<i32>) -> bool {
        self.lower.x <= v.x < self.upper.x && self.lower.y <= v.y < self.upper.y && self.lower.z
            <= v.z < self.upper.z
    }

    /// Whether the cell `v` lies in the grid.
    pub fn contains(&self, v: &Vec3<i32>) -> (r: bool)
        ensures
            r == self.contains_spec(*v),
    {
        v.m_ge(&self.lower).all() && v.m_lt(&self.upper).all()
    }
}

/// A direction with at least one nonzero component.
pub open spec fn moving(d: Vec3<i32>) -> bool {
    d.x != 0 || d.y != 0 || d.z != 0
}

/// Magnitude of one direction component.
pub open spec fn speed1(c: i32) -> int {
    if c < 0 {
        -(c as int)
    } else {
        c as int
    }
}

/// The signed unit step of one direction component.
pub open spec fn unit1(c: i32) -> int {
    if c > 0 {
        1
    } else if c < 0 {
        -1
    } else {
        0
    }
}

/// Ingress units from `g` to the face that a component `c` moves toward
/// (0 when the component does not move).
pub open spec fn gap1(g: u64, c: i32) -> int {
    if c > 0 {
        CELL - g
    } else if c < 0 {
        g as int
    } else {
        0
    }
}

/// Whether axis `a` moves, and so can cross a face.
pub open spec fn drives(d: Vec3<i32>, a: int) -> bool {
    d.at(a) != 0
}

pub open spec fn speed(d: Vec3<i32>, a: int) -> int {
    speed1(d.at(a))
}

pub open spec fn gap(g: Vec3<u64>, d: Vec3<i32>, a: int) -> int {
    gap1(g.at(a), d.at(a))
}

/// The crossing distance of axis `a`, `gap(a) / speed(a)`, is at most that of axis `b`.
pub open spec fn no_farther(g: Vec3<u64>, d: Vec3<i32>, a: int, b: int) -> bool {
    gap(g, d, a) * speed(d, b) <= gap(g, d, b) * speed(d, a)
}

/// Axis `a` moves and no moving axis reaches its face sooner.
pub open spec fn is_nearest(g: Vec3<u64>, d: Vec3<i32>, a: int) -> bool {
    &&& drives(d, a)
    &&& drives(d, 0) ==> no_farther(g, d, a, 0)
    &&& drives(d, 1) ==> no_farther(g, d, a, 1)
    &&& drives(d, 2) ==> no_farther(g, d, a, 2)
}

/// The first axis whose crossing comes soonest; its distance is the step distance.
pub open spec fn nearest_axis(g: Vec3<u64>, d: Vec3<i32>) -> int {
    if is_nearest(g, d, 0) {
        0
    } else if is_nearest(g, d, 1) {
        1
    } else {
        2
    }
}

/// The distances `ga / sa` and `gb / sb` differ by less than the merge tolerance.
pub open spec fn within(ga: int, sa: int, gb: int, sb: int, tol: Tolerance) -> bool {
    let diff = ga * sb - gb * sa;
    let mag = if diff < 0 {
        -diff
    } else {
        diff
    };
    mag * tol.merge_den < tol.merge_num * sa * sb
}

/// Axes `a` and `b` both move and their crossing distances are within the merge tolerance.
pub open spec fn near(g: Vec3<u64>, d: Vec3<i32>, tol: Tolerance, a: int, b: int) -> bool {
    &&& drives(d, a)
    &&& drives(d, b)
    &&& within(gap(g, d, a), speed(d, a), gap(g, d, b), speed(d, b), tol)
}

/// Axis `a` is near the nearest axis.
pub open spec fn reached(g: Vec3<u64>, d: Vec3<i32>, tol: Tolerance, a: int) -> bool {
    near(g, d, tol, nearest_axis(g, d), a)
}

/// Axis `a` is crossed in this step: it is joined to the nearest axis by a chain
/// of axes whose distances are pairwise within the merge tolerance.
pub open spec fn merged(g: Vec3<u64>, d: Vec3<i32>, tol: Tolerance, a: int) -> bool {
    ||| reached(g, d, tol, a)
    ||| reached(g, d, tol, 0) && near(g, d, tol, 0, a)
    ||| reached(g, d, tol, 1) && near(g, d, tol, 1, a)
    ||| reached(g, d, tol, 2) && near(g, d, tol, 2, a)
}

/// Component `g` of direction `c` after travelling the step distance `gm / sm`,
/// rounded toward where it started.
pub open spec fn advance1(g: u64, c: i32, gm: int, sm: int) -> int {
    if c > 0 {
        g + (speed1(c) * gm) / sm
    } else if c < 0 {
        g - (speed1(c) * gm) / sm
    } else {
        g as int
    }
}

/// One ingress component after a step: a crossed axis lies exactly on the face
/// it entered through; any other axis has moved on by the step distance.
pub open spec fn next_ingress1(g: u64, c: i32, crossed: bool, gm: int, sm: int) -> int {
    if crossed {
        if c > 0 {
            0
        } else {
            CELL as int
        }
    } else {
        advance1(g, c, gm, sm)
    }
}

/// The voxel change of axis `a` in this step.
pub open spec fn delta_at(g: Vec3<u64>, d: Vec3<i32>, tol: Tolerance, a: int) -> int {
    if merged(g, d, tol, a) {
        unit1(d.at(a))
    } else {
        0
    }
}

pub open spec fn next_ingress_at(g: Vec3<u64>, d: Vec3<i32>, tol: Tolerance, a: int) -> int {
    let m = nearest_axis(g, d);
    next_ingress1(g.at(a), d.at(a), merged(g, d, tol, a), gap(g, d, m), speed(d, m))
}

/// The voxel change of one step.
pub open spec fn step_delta(p: Probe, d: Vec3<i32>, tol: Tolerance) -> Vec3<int> {
    Vec3 {
        x: delta_at(p.ingress, d, tol, 0),
        y: delta_at(p.ingress, d, tol, 1),
        z: delta_at(p.ingress, d, tol, 2),
    }
}

/// The ray after one step.
pub open spec fn step_spec(p: Probe, d: Vec3<i32>, tol: Tolerance) -> Probe {
    let delta = step_delta(p, d, tol);
    Probe {
        voxel: Vec3 {
            x: (p.voxel.x + delta.x) as i32,
            y: (p.voxel.y + delta.y) as i32,
            z: (p.voxel.z + delta.z) as i32,
        },
        ingress: Vec3 {
            x: next_ingress_at(p.ingress, d, tol, 0) as u64,
            y: next_ingress_at(p.ingress, d, tol, 1) as u64,
            z: next_ingress_at(p.ingress, d, tol, 2) as u64,
        },
    }
}

/// The voxel components leave room for `k` more steps in either direction.
pub open spec fn room_for(v: Vec3<i32>, k: int) -> bool {
    &&& i32::MIN + k <= v.x <= i32::MAX - k
    &&& i32::MIN + k <= v.y <= i32::MAX - k
    &&& i32::MIN + k <= v.z <= i32::MAX - k
}

// ---------------------------------------------------------------------------
// Arithmetic facts.

proof fn lemma_no_farther_trans(ga: int, sa: int, gb: int, sb: int, gc: int, sc: int)
    requires
        sa > 0,
        sb > 0,
        sc > 0,
        ga * sb <= gb * sa,
        gb * sc <= gc * sb,
    ensures
        ga * sc <= gc * sa,
{
    assert(ga * sb * sc <= gb * sa * sc) by (nonlinear_arith)
        requires
            ga * sb <= gb * sa,
            sc > 0,
    ;
    assert(gb * sc * sa <= gc * sb * sa) by (nonlinear_arith)
        requires
            gb * sc <= gc * sb,
            sa > 0,
    ;
    assert((ga * sc) * sb <= (gc * sa) * sb) by (nonlinear_arith)
        requires
            ga * sb * sc <= gb * sa * sc,
            gb * sc * sa <= gc * sb * sa,
    ;
    assert(ga * sc <= gc * sa) by (nonlinear_arith)
        requires
            (ga * sc) * sb <= (gc * sa) * sb,
            sb > 0,
    ;
}

proof fn lemma_trans_at(g: Vec3<u64>, d: Vec3<i32>, a: int, b: int, c: int)
    requires
        drives(d, a),
        drives(d, b),
        drives(d, c),
        no_farther(g, d, a, b),
        no_farther(g, d, b, c),
    ensures
        no_farther(g, d, a, c),
{
    lemma_no_farther_trans(
        gap(g, d, a),
        speed(d, a),
        gap(g, d, b),
        speed(d, b),
        gap(g, d, c),
        speed(d, c),
    );
}

/// Some moving axis is nearest, and `nearest_axis` names one.
pub proof fn lemma_nearest_exists(g: Vec3<u64>, d: Vec3<i32>)
    requires
        moving(d),
    ensures
        0 <= nearest_axis(g, d) < 3,
        is_nearest(g, d, nearest_axis(g, d)),
{
    if drives(d, 0) && drives(d, 1) && drives(d, 2) {
        if no_farther(g, d, 0, 1) && no_farther(g, d, 1, 2) {
            lemma_trans_at(g, d, 0, 1, 2);
        }
        if no_farther(g, d, 0, 2) && no_farther(g, d, 2, 1) {
            lemma_trans_at(g, d, 0, 2, 1);
        }
        if no_farther(g, d, 1, 0) && no_farther(g, d, 0, 2) {
            lemma_trans_at(g, d, 1, 0, 2);
        }
        if no_farther(g, d, 1, 2) && no_farther(g, d, 2, 0) {
            lemma_trans_at(g, d, 1, 2, 0);
        }
        if no_farther(g, d, 2, 0) && no_farther(g, d, 0, 1) {
            lemma_trans_at(g, d, 2, 0, 1);
        }
        if no_farther(g, d, 2, 1) && no_farther(g, d, 1, 0) {
            lemma_trans_at(g, d, 2, 1, 0);
        }
    }
}

/// An axis is near itself exactly when it moves.
proof fn lemma_near_self(g: Vec3<u64>, d: Vec3<i32>, tol: Tolerance, a: int)
    requires
        tol.wf(),
    ensures
        near(g, d, tol, a, a) == drives(d, a),
{
    if drives(d, a) {
        let s = speed(d, a);
        let gg = gap(g, d, a);
        assert(s > 0);
        assert(tol.merge_num * s * s > 0) by (nonlinear_arith)
            requires
                tol.merge_num > 0,
                s > 0,
        ;
        let diff = gg * s - gg * s;
        assert(diff == 0);
        assert(0 * tol.merge_den == 0);
        assert(within(gg, s, gg, s, tol));
    }
}

/// Nearness does not depend on the order of the two axes.
proof fn lemma_near_sym(g: Vec3<u64>, d: Vec3<i32>, tol: Tolerance, a: int, b: int)
    ensures
        near(g, d, tol, a, b) == near(g, d, tol, b, a),
{
    let ga = gap(g, d, a);
    let sa = speed(d, a);
    let gb = gap(g, d, b);
    let sb = speed(d, b);
    assert(tol.merge_num * sa * sb == tol.merge_num * sb * sa) by (nonlinear_arith);
}

// ---------------------------------------------------------------------------
// One step.

fn speed_of(c: i32) -> (r: u64)
    ensures
        r == speed1(c),
        r <= 0x8000_0000,
{
    if c < 0 {
        (-(c as i64)) as u64
    } else {
        c as u64
    }
}

fn unit_of(c: i32) -> (r: i32)
    ensures
        r == unit1(c),
{
    if c > 0 {
        1
    } else if c < 0 {
        -1
    } else {
        0
    }
}

fn gap_of(g: u64, c: i32) -> (r: u64)
    requires
        g <= CELL,
    ensures
        r == gap1(g, c),
        r <= CELL,
{
    if c > 0 {
        CELL - g
    } else if c < 0 {
        g
    } else {
        0
    }
}

/// `ga * sb <= gb * sa`.
fn no_farther_exec(ga: u64, sa: u64, gb: u64, sb: u64) -> (r: bool)
    requires
        ga <= CELL,
        gb <= CELL,
        sa <= 0x8000_0000,
        sb <= 0x8000_0000,
    ensures
        r == (ga * sb <= gb * sa),
{
    proof {
        lemma_product_small(ga as int, sb as int);
        lemma_product_small(gb as int, sa as int);
    }
    (ga as u128) * (sb as u128) <= (gb as u128) * (sa as u128)
}

proof fn lemma_product_small(g: int, s: int)
    requires
        0 <= g <= CELL,
        0 <= s <= 0x8000_0000,
    ensures
        0 <= g * s <= CELL * 0x8000_0000,
{
    assert(0 <= g * s <= CELL * 0x8000_0000) by (nonlinear_arith)
        requires
            0 <= g <= CELL,
            0 <= s <= 0x8000_0000,
    ;
}

fn within_exec(ga: u64, sa: u64, gb: u64, sb: u64, tol: &Tolerance) -> (r: bool)
    requires
        ga <= CELL,
        gb <= CELL,
        sa <= 0x8000_0000,
        sb <= 0x8000_0000,
    ensures
        r == within(ga as int, sa as int, gb as int, sb as int, *tol),
{
    proof {
        lemma_product_small(ga as int, sb as int);
        lemma_product_small(gb as int, sa as int);
    }
    let l: u128 = (ga as u128) * (sb as u128);
    let h: u128 = (gb as u128) * (sa as u128);
    let mag: u128 = if l >= h {
        l - h
    } else {
        h - l
    };
    let den = tol.merge_den as u128;
    let num = tol.merge_num as u128;
    proof {
        assert(mag * den <= CELL * 0x8000_0000 * 0x1_0000_0000) by (nonlinear_arith)
            requires
                0 <= mag <= CELL * 0x8000_0000,
                0 <= den < 0x1_0000_0000,
        ;
        assert(num * sa <= 0x1_0000_0000 * 0x8000_0000) by (nonlinear_arith)
            requires
                0 <= num < 0x1_0000_0000,
                0 <= sa <= 0x8000_0000,
        ;
        assert(num * sa * sb <= 0x1_0000_0000 * 0x8000_0000 * 0x8000_0000) by (nonlinear_arith)
            requires
                0 <= num * sa <= 0x1_0000_0000 * 0x8000_0000,
                0 <= sb <= 0x8000_0000,
        ;
    }
    mag * den < num * (sa as u128) * (sb as u128)
}

/// One ingress component after the step.
fn next_ingress_of(g: u64, c: i32, crossed: bool, gm: u64, sm: u64) -> (r: u64)
    requires
        g <= CELL,
        gm <= CELL,
        0 < sm <= 0x8000_0000,
        gm * speed1(c) <= gap1(g, c) * sm,
    ensures
        r == next_ingress1(g, c, crossed, gm as int, sm as int),
        r <= CELL,
{
    if crossed {
        if c > 0 {
            0
        } else {
            CELL
        }
    } else if c == 0 {
        g
    } else {
        let s = speed_of(c);
        let gp = gap_of(g, c);
        proof {
            lemma_product_small(gm as int, s as int);
            lemma_product_small(gp as int, sm as int);
            assert(s * gm == gm * s) by (nonlinear_arith);
            vstd::arithmetic::div_mod::lemma_div_is_ordered(
                (s * gm) as int,
                (gp * sm) as int,
                sm as int,
            );
            vstd::arithmetic::div_mod::lemma_div_multiples_vanish(gp as int, sm as int);
            assert(gp * sm == sm * gp) by (nonlinear_arith);
        }
        let moved: u64 = ((s as u128) * (gm as u128) / (sm as u128)) as u64;
        if c > 0 {
            g + moved
        } else {
            g - moved
        }
    }
}

/// Moves the ray across the nearest face of its cell, together with every face
/// whose crossing lies within the merge tolerance of it.
pub fn step(p: &Probe, d: &Vec3<i32>, tol: &Tolerance) -> (r: Probe)
    requires
        p.wf(),
        moving(*d),
        tol.wf(),
        room_for(p.voxel, 1),
    ensures
        r == step_spec(*p, *d, *tol),
        r.wf(),
{
    let g = p.ingress;
    let s = Vec3 { x: speed_of(d.x), y: speed_of(d.y), z: speed_of(d.z) };
    let gp = Vec3 { x: gap_of(g.x, d.x), y: gap_of(g.y, d.y), z: gap_of(g.z, d.z) };
    let nf01 = no_farther_exec(gp.x, s.x, gp.y, s.y);
    let nf10 = no_farther_exec(gp.y, s.y, gp.x, s.x);
    let nf02 = no_farther_exec(gp.x, s.x, gp.z, s.z);
    let nf20 = no_farther_exec(gp.z, s.z, gp.x, s.x);
    let nf12 = no_farther_exec(gp.y, s.y, gp.z, s.z);
    let nf21 = no_farther_exec(gp.z, s.z, gp.y, s.y);
    let m: Axis3 = if d.x != 0 && (d.y == 0 || nf01) && (d.z == 0 || nf02) {
        Axis3::X
    } else if d.y != 0 && (d.x == 0 || nf10) && (d.z == 0 || nf12) {
        Axis3::Y
    } else {
        Axis3::Z
    };
    proof {
        lemma_nearest_exists(g, *d);
        assert(m.index() == nearest_axis(g, *d));
    }
    let n01 = d.x != 0 && d.y != 0 && within_exec(gp.x, s.x, gp.y, s.y, tol);
    let n02 = d.x != 0 && d.z != 0 && within_exec(gp.x, s.x, gp.z, s.z, tol);
    let n12 = d.y != 0 && d.z != 0 && within_exec(gp.y, s.y, gp.z, s.z, tol);
    proof {
        lemma_near_self(g, *d, *tol, 0);
        lemma_near_self(g, *d, *tol, 1);
        lemma_near_self(g, *d, *tol, 2);
        lemma_near_sym(g, *d, *tol, 0, 1);
        lemma_near_sym(g, *d, *tol, 0, 2);
        lemma_near_sym(g, *d, *tol, 1, 2);
    }
    let (r0, r1, r2) = match m {
        Axis3::X => (d.x != 0, n01, n02),
        Axis3::Y => (n01, d.y != 0, n12),
        Axis3::Z => (n02, n12, d.z != 0),
    };
    let crossed = Vec3 {
        x: r0 || (r1 && n01) || (r2 && n02),
        y: r1 || (r0 && n01) || (r2 && n12),
        z: r2 || (r0 && n02) || (r1 && n12),
    };
    let gm = gp.get(m);
    let sm = s.get(m);
    proof {
        let mi = m.index();
        assert(gm == gap(g, *d, mi));
        assert(sm == speed(*d, mi));
        assert(gm * speed1(d.x) <= gap1(g.x, d.x) * sm) by {
            if d.x != 0 {
                assert(no_farther(g, *d, mi, 0));
            } else {
                vstd::arithmetic::mul::lemma_mul_basics(gm as int);
                vstd::arithmetic::mul::lemma_mul_basics(sm as int);
            }
        }
        assert(gm * speed1(d.y) <= gap1(g.y, d.y) * sm) by {
            if d.y != 0 {
                assert(no_farther(g, *d, mi, 1));
            } else {
                vstd::arithmetic::mul::lemma_mul_basics(gm as int);
                vstd::arithmetic::mul::lemma_mul_basics(sm as int);
            }
        }
        assert(gm * speed1(d.z) <= gap1(g.z, d.z) * sm) by {
            if d.z != 0 {
                assert(no_farther(g, *d, mi, 2));
            } else {
                vstd::arithmetic::mul::lemma_mul_basics(gm as int);
                vstd::arithmetic::mul::lemma_mul_basics(sm as int);
            }
        }
    }
    let ingress = Vec3 {
        x: next_ingress_of(g.x, d.x, crossed.x, gm, sm),
        y: next_ingress_of(g.y, d.y, crossed.y, gm, sm),
        z: next_ingress_of(g.z, d.z, crossed.z, gm, sm),
    };
    let delta = Vec3 {
        x: if crossed.x { unit_of(d.x) } else { 0 },
        y: if crossed.y { unit_of(d.y) } else { 0 },
        z: if crossed.z { unit_of(d.z) } else { 0 },
    };
    let voxel = Vec3 {
        x: p.voxel.x + delta.x,
        y: p.voxel.y + delta.y,
        z: p.voxel.z + delta.z,
    };
    Probe { voxel, ingress }
}

// ---------------------------------------------------------------------------
// Laws of one step.

/// Ingress components stay in `[0, CELL]` through one step.
proof fn lemma_next_ingress_bounds(g: u64, c: i32, crossed: bool, gm: int, sm: int)
    requires
        g <= CELL,
        0 <= gm <= CELL,
        0 < sm,
        gm * speed1(c) <= gap1(g, c) * sm,
    ensures
        0 <= next_ingress1(g, c, crossed, gm, sm) <= CELL,
{
    if !crossed && c != 0 {
        let s = speed1(c);
        let gp = gap1(g, c);
        assert(s * gm == gm * s) by (nonlinear_arith);
        assert(0 <= s * gm) by (nonlinear_arith)
            requires
                0 <= s,
                0 <= gm,
        ;
        vstd::arithmetic::div_mod::lemma_div_is_ordered(s * gm, gp * sm, sm);
        vstd::arithmetic::div_mod::lemma_div_multiples_vanish(gp, sm);
        assert(gp * sm == sm * gp) by (nonlinear_arith);
        vstd::arithmetic::div_mod::lemma_div_pos_is_pos(s * gm, sm);
    }
}

/// Whether some ingress component lies exactly on a face of the cell.
pub open spec fn on_a_face(g: Vec3<u64>) -> bool {
    g.x == 0 || g.x == CELL || g.y == 0 || g.y == CELL || g.z == 0 || g.z == CELL
}

/// One step keeps the ingress in the cell and leaves it on a face; the voxel
/// moves by at most one cell along each axis.
pub proof fn lemma_step_in_cell(p: Probe, d: Vec3<i32>, tol: Tolerance)
    requires
        p.wf(),
        moving(d),
        tol.wf(),
    ensures
        step_spec(p, d, tol).wf(),
        on_a_face(step_spec(p, d, tol).ingress),
        -1 <= step_delta(p, d, tol).x <= 1,
        -1 <= step_delta(p, d, tol).y <= 1,
        -1 <= step_delta(p, d, tol).z <= 1,
{
    let g = p.ingress;
    lemma_nearest_exists(g, d);
    let m = nearest_axis(g, d);
    let gm = gap(g, d, m);
    let sm = speed(d, m);
    lemma_near_self(g, d, tol, m);
    assert(merged(g, d, tol, m));
    assert(0 <= gm <= CELL);
    assert(0 < sm);
    assert forall|a: int| 0 <= a < 3 implies gm * speed1(d.at(a)) <= gap1(g.at(a), d.at(a)) * sm by {
        if d.at(a) != 0 {
            assert(no_farther(g, d, m, a));
        } else {
            vstd::arithmetic::mul::lemma_mul_basics(gm);
            vstd::arithmetic::mul::lemma_mul_basics(sm);
        }
    }
    lemma_next_ingress_bounds(g.x, d.x, merged(g, d, tol, 0), gm, sm);
    lemma_next_ingress_bounds(g.y, d.y, merged(g, d, tol, 1), gm, sm);
    lemma_next_ingress_bounds(g.z, d.z, merged(g, d, tol, 2), gm, sm);
}

/// The step distance is the least crossing distance: the nearest axis moves,
/// and no moving axis reaches its face sooner.
pub proof fn lemma_step_distance_least(p: Probe, d: Vec3<i32>, b: int)
    requires
        moving(d),
        0 <= b < 3,
        drives(d, b),
    ensures
        drives(d, nearest_axis(p.ingress, d)),
        gap(p.ingress, d, nearest_axis(p.ingress, d)) * speed(d, b) <= gap(p.ingress, d, b)
            * speed(d, nearest_axis(p.ingress, d)),
{
    lemma_nearest_exists(p.ingress, d);
}

/// Two axes within the merge tolerance of each other are crossed together: when
/// one is part of the step so is the other, and the step moves the voxel by the
/// unit step of each (the new voxel adds it, when the voxel leaves room for a step).
pub proof fn lemma_merge_together(p: Probe, d: Vec3<i32>, tol: Tolerance, a: int, b: int)
    requires
        moving(d),
        tol.wf(),
        0 <= a < 3,
        0 <= b < 3,
        near(p.ingress, d, tol, a, b),
        merged(p.ingress, d, tol, a) || merged(p.ingress, d, tol, b),
    ensures
        merged(p.ingress, d, tol, a),
        merged(p.ingress, d, tol, b),
        delta_at(p.ingress, d, tol, a) == unit1(d.at(a)),
        delta_at(p.ingress, d, tol, b) == unit1(d.at(b)),
        room_for(p.voxel, 1) ==> step_spec(p, d, tol).voxel.at(a) == p.voxel.at(a) + unit1(
            d.at(a),
        ),
        room_for(p.voxel, 1) ==> step_spec(p, d, tol).voxel.at(b) == p.voxel.at(b) + unit1(
            d.at(b),
        ),
{
    let g = p.ingress;
    lemma_nearest_exists(g, d);
    lemma_near_self(g, d, tol, 0);
    lemma_near_self(g, d, tol, 1);
    lemma_near_self(g, d, tol, 2);
    lemma_near_sym(g, d, tol, 0, 1);
    lemma_near_sym(g, d, tol, 0, 2);
    lemma_near_sym(g, d, tol, 1, 2);
    lemma_near_sym(g, d, tol, a, b);
    lemma_near_sym(g, d, tol, a, a);
}

// ---------------------------------------------------------------------------
// Many steps, and the hits they count.

/// An ingress component within the face band of 0 or of `CELL`.
pub open spec fn on_face1(g: u64, tol: Tolerance) -> bool {
    g <= tol.boundary || g + tol.boundary >= CELL
}

/// The ingress components that lie on a face, as a mask.
pub open spec fn face_mask(g: Vec3<u64>, tol: Tolerance) -> Vec3<bool> {
    Vec3 { x: on_face1(g.x, tol), y: on_face1(g.y, tol), z: on_face1(g.z, tol) }
}

/// The hits that one step counts: none when it ends outside the grid; one when
/// it goes from a cell of the grid to another; and when it enters the grid from
/// outside, one for each face of the cell that the ray lies on.
pub open spec fn hit_gain(before: Vec3<i32>, after: Probe, grid: Grid, tol: Tolerance) -> nat {
    if !grid.contains_spec(after.voxel) {
        0
    } else if grid.contains_spec(before) {
        1
    } else {
        face_mask(after.ingress, tol).count_spec()
    }
}

/// The ray after `k` steps.
pub open spec fn probe_after(p: Probe, d: Vec3<i32>, tol: Tolerance, k: nat) -> Probe
    decreases k,
{
    if k == 0 {
        p
    } else {
        step_spec(probe_after(p, d, tol, (k - 1) as nat), d, tol)
    }
}

/// The hits counted over the first `k` steps.
pub open spec fn hits_after(p: Probe, d: Vec3<i32>, grid: Grid, tol: Tolerance, k: nat) -> nat
    decreases k,
{
    if k == 0 {
        0
    } else {
        hits_after(p, d, grid, tol, (k - 1) as nat) + hit_gain(
            probe_after(p, d, tol, (k - 1) as nat).voxel,
            probe_after(p, d, tol, k),
            grid,
            tol,
        )
    }
}

/// For any number of steps, every ingress component stays in `[0, CELL]`, and
/// after at least one step some component lies exactly on a face of the cell.
pub proof fn lemma_ingress_stays_in_cell(p: Probe, d: Vec3<i32>, tol: Tolerance, k: nat)
    requires
        p.wf(),
        moving(d),
        tol.wf(),
    ensures
        probe_after(p, d, tol, k).wf(),
        k > 0 ==> on_a_face(probe_after(p, d, tol, k).ingress),
    decreases k,
{
    if k > 0 {
        lemma_ingress_stays_in_cell(p, d, tol, (k - 1) as nat);
        lemma_step_in_cell(probe_after(p, d, tol, (k - 1) as nat), d, tol);
    }
}

fn on_face_of(g: u64, tol: &Tolerance) -> (r: bool)
    requires
        g <= CELL,
    ensures
        r == on_face1(g, *tol),
{
    g <= tol.boundary || tol.boundary >= CELL || g >= CELL - tol.boundary
}

/// The hits that the step from `before` to `after` counts.
fn hit_gain_of(before: &Vec3<i32>, after: &Probe, grid: &Grid, tol: &Tolerance) -> (r: u64)
    requires
        after.wf(),
    ensures
        r == hit_gain(*before, *after, *grid, *tol),
        r <= 3,
{
    if !grid.contains(&after.voxel) {
        0
    } else if grid.contains(before) {
        1
    } else {
        let g = after.ingress;
        let mask = Vec3 { x: on_face_of(g.x, tol), y: on_face_of(g.y, tol), z: on_face_of(g.z, tol) };
        mask.count() as u64
    }
}

/// Counts the hits of `steps` steps of a ray that starts at `start` and moves
/// along `d`. The count is a function of the arguments alone.
pub fn count_hits(start: &Probe, d: &Vec3<i32>, grid: &Grid, tol: &Tolerance, steps: u32) -> (r: u64)
    requires
        start.wf(),
        moving(*d),
        tol.wf(),
        room_for(start.voxel, steps as int),
    ensures
        r == hits_after(*start, *d, *grid, *tol, steps as nat),
        r <= 3 * steps,
{
    let mut p = *start;
    let mut hits: u64 = 0;
    let mut i: u32 = 0;
    while i < steps
        invariant
            i <= steps,
            p == probe_after(*start, *d, *tol, i as nat),
            p.wf(),
            room_for(p.voxel, (steps - i) as int),
            hits == hits_after(*start, *d, *grid, *tol, i as nat),
            hits <= 3 * i,
            moving(*d),
            tol.wf(),
        decreases steps - i,
    {
        let q = step(&p, d, tol);
        proof {
            lemma_step_in_cell(p, *d, *tol);
        }
        let gain = hit_gain_of(&p.voxel, &q, grid, tol);
        hits = hits + gain;
        p = q;
        i = i + 1;
    }
    hits
}

// ---------------------------------------------------------------------------
// Where a ray starts.

/// The cell of a start coordinate `o` (in ingress units) for a ray moving with
/// component `c`. A start on a face, moving toward lower cells, is placed at the
/// top face of the lower cell, so that the ray does not start on the face it is
/// about to cross.
pub open spec fn start_voxel1(o: i64, c: i32) -> int {
    if (o as int) % (CELL as int) == 0 && c < 0 {
        (o as int) / (CELL as int) - 1
    } else {
        (o as int) / (CELL as int)
    }
}

/// The ingress of a start coordinate `o`, as `start_voxel1` places it.
pub open spec fn start_ingress1(o: i64, c: i32) -> int {
    if (o as int) % (CELL as int) == 0 && c < 0 {
        CELL as int
    } else {
        (o as int) % (CELL as int)
    }
}

/// The ray that starts at `origin` (in ingress units) and moves along `d`.
pub open spec fn start_spec(origin: Vec3<i64>, d: Vec3<i32>) -> Probe {
    Probe {
        voxel: Vec3 {
            x: start_voxel1(origin.x, d.x) as i32,
            y: start_voxel1(origin.y, d.y) as i32,
            z: start_voxel1(origin.z, d.z) as i32,
        },
        ingress: Vec3 {
            x: start_ingress1(origin.x, d.x) as u64,
            y: start_ingress1(origin.y, d.y) as u64,
            z: start_ingress1(origin.z, d.z) as u64,
        },
    }
}

/// The cell of every start coordinate leaves room for `k` steps.
pub open spec fn origin_fits(origin: Vec3<i64>, k: int) -> bool {
    &&& i32::MIN + k + 1 <= (origin.x as int) / (CELL as int) <= i32::MAX - k
    &&& i32::MIN + k + 1 <= (origin.y as int) / (CELL as int) <= i32::MAX - k
    &&& i32::MIN + k + 1 <= (origin.z as int) / (CELL as int) <= i32::MAX - k
}

/// Floor division of a coordinate by `CELL`, with its remainder.
pub(crate) fn floor_split(o: i64) -> (r: (i64, u64))
    ensures
        r.0 == (o as int) / (CELL as int),
        r.1 == (o as int) % (CELL as int),
        r.1 < CELL,
{
    let (q, rem): (i64, u64) = if o >= 0 {
        ((o as u64 / CELL) as i64, o as u64 % CELL)
    } else {
        let n: u64 = (-(o + 1)) as u64;
        proof {
            vstd::arithmetic::div_mod::lemma_fundamental_div_mod(n as int, CELL as int);
        }
        (-((n / CELL) as i64) - 1, CELL - 1 - n % CELL)
    };
    proof {
        vstd::arithmetic::div_mod::lemma_fundamental_div_mod(o as int, CELL as int);
        vstd::arithmetic::div_mod::lemma_fundamental_div_mod_converse(
            o as int,
            CELL as int,
            q as int,
            rem as int,
        );
    }
    (q, rem)
}

fn split_coord(o: i64, c: i32) -> (r: (i32, u64))
    requires
        i32::MIN + 1 <= (o as int) / (CELL as int) <= i32::MAX,
    ensures
        r.0 == start_voxel1(o, c),
        r.1 == start_ingress1(o, c),
        r.0 * CELL + r.1 == o,
        r.1 <= CELL,
{
    let (q, rem) = floor_split(o);
    proof {
        vstd::arithmetic::div_mod::lemma_fundamental_div_mod(o as int, CELL as int);
    }
    if rem == 0 && c < 0 {
        ((q - 1) as i32, CELL)
    } else {
        (q as i32, rem)
    }
}

/// The ray that starts at `origin`, given in ingress units, and moves along `d`.
/// Its cell and ingress describe the same point: `voxel * CELL + ingress == origin`.
pub fn start_probe(origin: &Vec3<i64>, d: &Vec3<i32>) -> (r: Probe)
    requires
        origin_fits(*origin, 0),
    ensures
        r == start_spec(*origin, *d),
        r.wf(),
        r.voxel.x * CELL + r.ingress.x == origin.x,
        r.voxel.y * CELL + r.ingress.y == origin.y,
        r.voxel.z * CELL + r.ingress.z == origin.z,
{
    let (vx, gx) = split_coord(origin.x, d.x);
    let (vy, gy) = split_coord(origin.y, d.y);
    let (vz, gz) = split_coord(origin.z, d.z);
    Probe { voxel: Vec3 { x: vx, y: vy, z: vz }, ingress: Vec3 { x: gx, y: gy, z: gz } }
}

/// The hits of `steps` steps of the ray from `origin` (in ingress units) along `d`.
pub open spec fn trace_spec(
    origin: Vec3<i64>,
    d: Vec3<i32>,
    grid: Grid,
    tol: Tolerance,
    steps: nat,
) -> nat {
    hits_after(start_spec(origin, d), d, grid, tol, steps)
}

/// Counts the hits of `steps` steps of the ray from `origin` (in ingress units)
/// along `d`. Running it again on the same arguments gives the same count.
pub fn trace(origin: &Vec3<i64>, d: &Vec3<i32>, grid: &Grid, tol: &Tolerance, steps: u32) -> (r: u64)
    requires
        moving(*d),
        tol.wf(),
        origin_fits(*origin, steps as int),
    ensures
        r == trace_spec(*origin, *d, *grid, *tol, steps as nat),
        r <= 3 * steps,
{
    let start = start_probe(origin, d);
    count_hits(&start, d, grid, tol, steps)
}

} // verus!
