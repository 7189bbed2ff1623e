//! Grid vectors and rays.
use vstd::prelude::*;

verus! {

/// `a` brought back into the range of a vector component.
pub open spec fn clip32(a: int) -> int {
    if a >= i32::MAX {
        i32::MAX as int
    } else if a <= i32::MIN {
        i32::MIN as int
    } else {
        a
    }
}

/// Narrows a wide intermediate result to a vector component, saturating.
pub fn narrow32(a: i128) -> (r: i32)
    ensures
        r == clip32(a as int),
{
    if a >= i32::MAX as i128 {
        i32::MAX
    } else if a <= i32::MIN as i128 {
        i32::MIN
    } else {
        a as i32
    }
}

/// A pair of surface coordinates.
#[derive(Clone, Copy, Debug, PartialEq, Eq, Structural)]
pub struct Vec2 {
    pub x: i32,
    pub y: i32,
}

impl Vec2 {
    pub fn new(x: i32, y: i32) -> (r: Self)
        ensures
            r == (Vec2 { x, y }),
    {
        Self { x, y }
    }
}

/// A point or a displacement on the grid.
#[derive(Clone, Copy, Debug, PartialEq, Eq, Structural)]
pub struct Vec3 {
    pub x: i32,
    pub y: i32,
    pub z: i32,
}

impl Vec3 {
    pub fn new(x: i32, y: i32, z: i32) -> (r: Self)
        ensures
            r == (Vec3 { x, y, z }),
    {
        Self { x, y, z }
    }

    /// The vector of no length.
    pub open spec fn spec_zeros() -> Vec3 {
        Vec3 { x: 0, y: 0, z: 0 }
    }

    pub fn zeros() -> (r: Self)
        ensures
            r == Self::spec_zeros(),
    {
        Self { x: 0, y: 0, z: 0 }
    }

    /// The component on axis 0, 1 or (for any other number) 2.
    pub open spec fn spec_index(self, axis: int) -> int {
        if axis == 0 {
            self.x as int
        } else if axis == 1 {
            self.y as int
        } else {
            self.z as int
        }
    }

    pub fn index(&self, axis: usize) -> (r: i32)
        ensures
            r == self.spec_index(axis as int),
    {
        if axis == 0 {
            self.x
        } else if axis == 1 {
            self.y
        } else {
            self.z
        }
    }

    /// The exact scalar product.
    pub open spec fn spec_dot(self, other: Vec3) -> int {
        self.x * other.x + self.y * other.y + self.z * other.z
    }

    pub fn dot(&self, other: &Vec3) -> (r: i128)
        ensures
            r == self.spec_dot(*other),
    {
        let a: i128 = mul32(self.x, other.x) as i128;
        let b: i128 = mul32(self.y, other.y) as i128;
        let c: i128 = mul32(self.z, other.z) as i128;
        a + b + c
    }

    /// Componentwise sum, each component saturating.
    pub open spec fn spec_plus(self, other: Vec3) -> Vec3 {
        Vec3 {
            x: clip32(self.x + other.x) as i32,
            y: clip32(self.y + other.y) as i32,
            z: clip32(self.z + other.z) as i32,
        }
    }

    /// Componentwise difference, each component saturating.
    pub open spec fn spec_minus(self, other: Vec3) -> Vec3 {
        Vec3 {
            x: clip32(self.x - other.x) as i32,
            y: clip32(self.y - other.y) as i32,
            z: clip32(self.z - other.z) as i32,
        }
    }

    /// The opposite vector, each component saturating.
    pub open spec fn spec_negated(self) -> Vec3 {
        Vec3 { x: clip32(-self.x) as i32, y: clip32(-self.y) as i32, z: clip32(-self.z) as i32 }
    }

    pub fn plus(&self, other: &Vec3) -> (r: Vec3)
        ensures
            r == self.spec_plus(*other),
    {
        Vec3 {
            x: narrow32(self.x as i128 + other.x as i128),
            y: narrow32(self.y as i128 + other.y as i128),
            z: narrow32(self.z as i128 + other.z as i128),
        }
    }

    pub fn minus(&self, other: &Vec3) -> (r: Vec3)
        ensures
            r == self.spec_minus(*other),
    {
        Vec3 {
            x: narrow32(self.x as i128 - other.x as i128),
            y: narrow32(self.y as i128 - other.y as i128),
            z: narrow32(self.z as i128 - other.z as i128),
        }
    }

    pub fn negated(&self) -> (r: Vec3)
        ensures
            r == self.spec_negated(),
    {
        Vec3 {
            x: narrow32(-(self.x as i128)),
            y: narrow32(-(self.y as i128)),
            z: narrow32(-(self.z as i128)),
        }
    }
}

/// The exact product of two vector components.
pub fn mul32(a: i32, b: i32) -> (r: i64)
    ensures
        r == a * b,
{
    assert(-0x8000_0000 * 0x8000_0000 <= a * b <= 0x8000_0000 * 0x8000_0000) by (nonlinear_arith)
        requires
            -0x8000_0000 <= a <= 0x8000_0000,
            -0x8000_0000 <= b <= 0x8000_0000,
    ;
    (a as i64) * (b as i64)
}

/// The exact product of a ray parameter and a vector component.
pub fn mul64(t: i64, d: i32) -> (r: i128)
    ensures
        r == t * d,
        -0x4000_0000_0000_0000_0000_0000 <= r <= 0x4000_0000_0000_0000_0000_0000,
{
    assert(-0x8000_0000_0000_0000 * 0x8000_0000 <= t * d <= 0x8000_0000_0000_0000 * 0x8000_0000)
        by (nonlinear_arith)
        requires
            -0x8000_0000_0000_0000 <= t <= 0x8000_0000_0000_0000,
            -0x8000_0000 <= d <= 0x8000_0000,
    ;
    (t as i128) * (d as i128)
}

/// A ray: the points `origin + t * direction` for the ray parameter `t`.
/// `time` places moving surfaces.
#[derive(Clone, Copy, Debug, PartialEq, Eq, Structural)]
pub struct Ray {
    pub origin: Vec3,
    pub direction: Vec3,
    pub time: i64,
}

impl Default for Ray {
    /// The ray that starts at the origin and goes nowhere.
    fn default() -> (r: Self)
        ensures
            r == (Ray { origin: Vec3::spec_zeros(), direction: Vec3::spec_zeros(), time: 0 }),
    {
        Ray { origin: Vec3::zeros(), direction: Vec3::zeros(), time: 0 }
    }
}

impl Ray {
    /// The ray that starts at the origin and goes nowhere.
    pub open spec fn spec_default() -> Ray {
        Ray { origin: Vec3::spec_zeros(), direction: Vec3::spec_zeros(), time: 0 }
    }

    pub fn new(origin: Vec3, direction: Vec3) -> (r: Self)
        ensures
            r == (Ray { origin, direction, time: 0 }),
    {
        Self { origin, direction, time: 0 }
    }

    pub fn new_with_time(origin: Vec3, direction: Vec3, time: i64) -> (r: Self)
        ensures
            r == (Ray { origin, direction, time }),
    {
        Self { origin, direction, time }
    }

    /// The point at parameter `t`, each component saturating.
    pub open spec fn spec_at(self, t: int) -> Vec3 {
        Vec3 {
            x: clip32(self.origin.x + t * self.direction.x) as i32,
            y: clip32(self.origin.y + t * self.direction.y) as i32,
            z: clip32(self.origin.z + t * self.direction.z) as i32,
        }
    }

    pub fn at(&self, t: i64) -> (r: Vec3)
        ensures
            r == self.spec_at(t as int),
    {
        Vec3 {
            x: narrow32(self.origin.x as i128 + mul64(t, self.direction.x)),
            y: narrow32(self.origin.y as i128 + mul64(t, self.direction.y)),
            z: narrow32(self.origin.z as i128 + mul64(t, self.direction.z)),
        }
    }
}

} // verus!
