//! Small fixed-size vectors with component-wise operations.

use vstd::prelude::*;

verus! {

/// Axis in 2D space.
#[derive(Copy, Clone, Eq, PartialEq, Ord, PartialOrd, Debug, Hash)]
pub enum Axis2 {
    X,
    Y,
}

/// Axis in 3D space.
#[derive(Copy, Clone, Eq, PartialEq, Ord, PartialOrd, Debug, Hash)]
pub enum Axis3 {
    X,
    Y,
    Z,
}

impl Axis3 {
    /// Position of the axis: 0 for `X`, 1 for `Y`, 2 for `Z`.
    pub open spec fn index(self) -> int {
        match self {
            Axis3::X => 0,
            Axis3::Y => 1,
            Axis3::Z => 2,
        }
    }
}

impl Axis2 {
    /// Position of the axis: 0 for `X`, 1 for `Y`.
    pub open spec fn index(self) -> int {
        match self {
            Axis2::X => 0,
            Axis2::Y => 1,
        }
    }
}

/// A 2D vector.
#[derive(Copy, Clone, Debug, Default, PartialEq, Eq)]
pub struct Vec2<T> {
    pub x: T,
    pub y: T,
}

/// A 3D vector.
#[derive(Copy, Clone, Debug, Default, PartialEq, Eq)]
pub struct Vec3<T> {
    pub x: T,
    pub y: T,
    pub z: T,
}

impl<T> Vec2<T> {
    /// Component at position `i` (0 or 1).
    pub open spec fn at(self, i: int) -> T {
        if i == 0 {
            self.x
        } else {
            self.y
        }
    }

    pub fn new(x: T, y: T) -> (r: Self)
        ensures
            r.x == x,
            r.y == y,
    {
        Vec2 { x, y }
    }
}

impl<T: Copy> Vec2<T> {
    /// Component along `axis`.
    pub fn get(&self, axis: Axis2) -> (r: T)
        ensures
            r == self.at(axis.index()),
    {
        match axis {
            Axis2::X => self.x,
            Axis2::Y => self.y,
        }
    }
}

impl<T> Vec3<T> {
    /// Component at position `i` (0, 1 or 2).
    pub open spec fn at(self, i: int) -> T {
        if i == 0 {
            self.x
        } else if i == 1 {
            self.y
        } else {
            self.z
        }
    }

    pub fn new(x: T, y: T, z: T) -> (r: Self)
        ensures
            r.x == x,
            r.y == y,
            r.z == z,
    {
        Vec3 { x, y, z }
    }
}

impl<T: Copy> Vec3<T> {
    /// The vector with every component equal to `n`.
    pub fn splat(n: T) -> (r: Self)
        ensures
            r.x == n,
            r.y == n,
            r.z == n,
    {
        Vec3 { x: n, y: n, z: n }
    }

    /// Component along `axis`.
    pub fn get(&self, axis: Axis3) -> (r: T)
        ensures
            r == self.at(axis.index()),
    {
        match axis {
            Axis3::X => self.x,
            Axis3::Y => self.y,
            Axis3::Z => self.z,
        }
    }
}

impl Vec3<bool> {
    /// True when every component is true.
    pub open spec fn all_spec(self) -> bool {
        self.x && self.y && self.z
    }

    /// Number of true components.
    pub open spec fn count_spec(self) -> nat {
        (if self.x { 1nat } else { 0nat }) + (if self.y { 1nat } else { 0nat }) + (if self.z {
            1nat
        } else {
            0nat
        })
    }

    /// True when every component is true.
    pub fn all(&self) -> (r: bool)
        ensures
            r == self.all_spec(),
    {
        self.x && self.y && self.z
    }

    /// Number of true components.
    pub fn count(&self) -> (r: u32)
        ensures
            r == self.count_spec(),
    {
        let ones: Vec3<i32> = self.v_cast();
        (ones.x + ones.y + ones.z) as u32
    }
}

impl Vec3<i32> {
    /// `>=` mask.
    pub fn m_ge(&self, rhs: &Vec3<i32>) -> (r: Vec3<bool>)
        ensures
            r.x == (self.x >= rhs.x),
            r.y == (self.y >= rhs.y),
            r.z == (self.z >= rhs.z),
    {
        Vec3 { x: self.x >= rhs.x, y: self.y >= rhs.y, z: self.z >= rhs.z }
    }

    /// `<` mask.
    pub fn m_lt(&self, rhs: &Vec3<i32>) -> (r: Vec3<bool>)
        ensures
            r.x == (self.x < rhs.x),
            r.y == (self.y < rhs.y),
            r.z == (self.z < rhs.z),
    {
        Vec3 { x: self.x < rhs.x, y: self.y < rhs.y, z: self.z < rhs.z }
    }
}

/// Ternary component-wise selection operation.
pub trait Ternary<T> {
    fn ternary(self, if_true: T, if_false: T) -> T;
}

/// Vector component-wise casting operation.
pub trait VectorCast<T> {
    type Output;

    fn v_cast(self) -> Self::Output;
}

/// Vector component-wise reinterpretation of bits.
pub trait VectorTransmute<T> {
    type Output;

    fn v_transmute(self) -> Self::Output;
}

impl<T: Copy> Ternary<Vec3<T>> for Vec3<bool> {
    fn ternary(self, if_true: Vec3<T>, if_false: Vec3<T>) -> (r: Vec3<T>)
        ensures
            r.x == (if self.x { if_true.x } else { if_false.x }),
            r.y == (if self.y { if_true.y } else { if_false.y }),
            r.z == (if self.z { if_true.z } else { if_false.z }),
    {
        Vec3 {
            x: if self.x { if_true.x } else { if_false.x },
            y: if self.y { if_true.y } else { if_false.y },
            z: if self.z { if_true.z } else { if_false.z },
        }
    }
}

impl<T: Copy> Ternary<Vec2<T>> for Vec2<bool> {
    fn ternary(self, if_true: Vec2<T>, if_false: Vec2<T>) -> (r: Vec2<T>)
        ensures
            r.x == (if self.x { if_true.x } else { if_false.x }),
            r.y == (if self.y { if_true.y } else { if_false.y }),
    {
        Vec2 { x: if self.x { if_true.x } else { if_false.x }, y: if self.y { if_true.y } else { if_false.y } }
    }
}

impl VectorCast<bool> for Vec3<i32> {
    type Output = Vec3<bool>;

    fn v_cast(self) -> (r: Vec3<bool>)
        ensures
            r.x == (self.x != 0),
            r.y == (self.y != 0),
            r.z == (self.z != 0),
    {
        Vec3 { x: self.x != 0, y: self.y != 0, z: self.z != 0 }
    }
}

impl VectorCast<i32> for Vec3<bool> {
    type Output = Vec3<i32>;

    fn v_cast(self) -> (r: Vec3<i32>)
        ensures
            r.x == (if self.x { 1i32 } else { 0i32 }),
            r.y == (if self.y { 1i32 } else { 0i32 }),
            r.z == (if self.z { 1i32 } else { 0i32 }),
    {
        Vec3 {
            x: if self.x { 1 } else { 0 },
            y: if self.y { 1 } else { 0 },
            z: if self.z { 1 } else { 0 },
        }
    }
}

impl VectorTransmute<u32> for Vec3<i32> {
    type Output = Vec3<u32>;

    fn v_transmute(self) -> (r: Vec3<u32>)
        ensures
            r.x == self.x as u32,
            r.y == self.y as u32,
            r.z == self.z as u32,
    {
        Vec3 { x: self.x as u32, y: self.y as u32, z: self.z as u32 }
    }
}

impl VectorTransmute<i32> for Vec3<u32> {
    type Output = Vec3<i32>;

    fn v_transmute(self) -> (r: Vec3<i32>)
        ensures
            r.x == self.x as i32,
            r.y == self.y as i32,
            r.z == self.z as i32,
    {
        Vec3 { x: self.x as i32, y: self.y as i32, z: self.z as i32 }
    }
}

} // verus!
