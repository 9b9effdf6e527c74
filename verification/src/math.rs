//! Points on the screen and the angles at which things move over it.
use vstd::prelude::*;
use vstd::std_specs::ops::{AddSpecImpl, SubSpecImpl};

verus! {

/// A position or a displacement on the screen: a row and a column, in that
/// order.
#[derive(Debug, Clone, Copy, PartialEq, Eq, Structural)]
pub struct Point(pub isize, pub isize);

impl Point {
    /// The column.
    pub fn x(&self) -> (x: isize)
        ensures
            x == self.1,
    {
        self.1
    }

    /// The row.
    pub fn y(&self) -> (y: isize)
        ensures
            y == self.0,
    {
        self.0
    }

    /// Sets the column.
    pub fn set_x(&mut self, x: isize)
        ensures
            final(self).1 == x,
            final(self).0 == old(self).0,
    {
        self.1 = x;
    }

    /// Sets the row.
    pub fn set_y(&mut self, y: isize)
        ensures
            final(self).0 == y,
            final(self).1 == old(self).1,
    {
        self.0 = y;
    }

    /// Whether the sums of the rows and of the columns fit an `isize`.
    pub open spec fn can_add(self, rhs: Point) -> bool {
        &&& isize::MIN <= self.0 + rhs.0 <= isize::MAX
        &&& isize::MIN <= self.1 + rhs.1 <= isize::MAX
    }

    /// Whether the differences of the rows and of the columns fit an `isize`.
    pub open spec fn can_sub(self, rhs: Point) -> bool {
        &&& isize::MIN <= self.0 - rhs.0 <= isize::MAX
        &&& isize::MIN <= self.1 - rhs.1 <= isize::MAX
    }

    /// Moves the point by `rhs`.
    pub fn add_assign(&mut self, rhs: Point)
        requires
            old(self).can_add(rhs),
        ensures
            final(self).0 == old(self).0 + rhs.0,
            final(self).1 == old(self).1 + rhs.1,
    {
        self.0 += rhs.0;
        self.1 += rhs.1
    }

    /// Moves the point back by `rhs`.
    pub fn sub_assign(&mut self, rhs: Point)
        requires
            old(self).can_sub(rhs),
        ensures
            final(self).0 == old(self).0 - rhs.0,
            final(self).1 == old(self).1 - rhs.1,
    {
        self.0 -= rhs.0;
        self.1 -= rhs.1;
    }
}

impl core::ops::Add for Point {
    type Output = Point;

    fn add(self, rhs: Point) -> (sum: Point) {
        Point(self.0 + rhs.0, self.1 + rhs.1)
    }
}

impl AddSpecImpl for Point {
    open spec fn obeys_add_spec() -> bool {
        true
    }

    open spec fn add_req(self, rhs: Point) -> bool {
        self.can_add(rhs)
    }

    open spec fn add_spec(self, rhs: Point) -> Point {
        Point((self.0 + rhs.0) as isize, (self.1 + rhs.1) as isize)
    }
}

impl core::ops::Sub for Point {
    type Output = Point;

    fn sub(self, rhs: Point) -> (difference: Point) {
        Point(self.0 - rhs.0, self.1 - rhs.1)
    }
}

impl SubSpecImpl for Point {
    open spec fn obeys_sub_spec() -> bool {
        true
    }

    open spec fn sub_req(self, rhs: Point) -> bool {
        self.can_sub(rhs)
    }

    open spec fn sub_spec(self, rhs: Point) -> Point {
        Point((self.0 - rhs.0) as isize, (self.1 - rhs.1) as isize)
    }
}

/// The side of an object that something collided with.
#[derive(Debug, Clone, Copy, PartialEq, Eq, Structural)]
pub enum SideCollided {
    Vertical,
    Horizontal,
}

/// The step between two angles that the system defines, in degrees.
pub const ANGLE_STEP: usize = 15;

/// Whether `degrees` is an angle that the system defines: a multiple of 15
/// below 360.
pub open spec fn is_defined_angle(degrees: int) -> bool {
    0 <= degrees < 360 && degrees % 15 == 0
}

/// The angle at which something moves on after it hits the given side of
/// an object at `degrees`.
pub open spec fn reflected(degrees: int, side_collided: SideCollided) -> int {
    if degrees == 0 {
        180
    } else if degrees == 90 {
        270
    } else if degrees == 180 {
        0
    } else if degrees == 270 {
        90
    } else {
        match side_collided {
            SideCollided::Vertical => if degrees <= 180 {
                180 - degrees
            } else {
                540 - degrees
            },
            SideCollided::Horizontal => 360 - degrees,
        }
    }
}

/// The rows that a step at `degrees` moves by.
pub open spec fn sin_of(degrees: int) -> int {
    if degrees == 0 {
        0
    } else if degrees == 75 || degrees == 105 {
        -3
    } else if degrees == 60 || degrees == 120 {
        -2
    } else if degrees <= 180 {
        -1
    } else if degrees == 255 || degrees == 285 {
        3
    } else if degrees == 240 || degrees == 300 {
        2
    } else {
        1
    }
}

/// The columns that a step at `degrees` moves by.
pub open spec fn cos_of(degrees: int) -> int {
    if degrees == 90 || degrees == 180 || degrees == 270 {
        0
    } else if degrees == 15 || degrees == 345 {
        3
    } else if degrees == 30 || degrees == 330 {
        2
    } else if degrees < 90 || degrees > 270 {
        1
    } else if degrees == 165 || degrees == 195 {
        -3
    } else if degrees == 150 || degrees == 210 {
        -2
    } else {
        -1
    }
}

/// An angle that the system defines.
#[derive(Debug, Clone, Copy, PartialEq, Eq)]
pub struct Angle(usize);

impl Angle {
    /// The angle in degrees.
    pub closed spec fn degrees(self) -> int {
        self.0 as int
    }

    #[verifier::type_invariant]
    spec fn is_defined(self) -> bool {
        is_defined_angle(self.0 as int)
    }

    /// Creates a new angle guaranteed to have a valid degree value in the
    /// system: `n` is wrapped around at 360 and rounded down to the nearest
    /// defined angle.
    pub fn new(n: usize) -> (angle: Angle)
        ensures
            angle.degrees() == n % 360 - (n % 360) % 15,
            is_defined_angle(angle.degrees()),
    {
        // Should be wrapped around
        let n = n % 360;
        // And rounded to the nearest defined angle
        let n = n - (n % ANGLE_STEP);
        Angle(n)
    }

    /// The angle in degrees.
    pub fn to_degrees(&self) -> (degrees: usize)
        ensures
            degrees == self.degrees(),
            is_defined_angle(degrees as int),
    {
        proof {
            use_type_invariant(self);
        }
        self.0
    }

    /// The angle after a collision with the given side of an object.
    pub fn reflect(self, side_collided: SideCollided) -> (angle: Angle)
        ensures
            angle.degrees() == reflected(self.degrees(), side_collided),
            is_defined_angle(angle.degrees()),
    {
        proof {
            use_type_invariant(self);
        }
        if self.0 == 0 {
            Angle(180)
        } else if self.0 == 90 {
            Angle(270)
        } else if self.0 == 180 {
            Angle(0)
        } else if self.0 == 270 {
            Angle(90)
        } else {
            match side_collided {
                // Collision with the verical side of an object
                SideCollided::Vertical => if self.0 <= 180 {
                    Angle(180 - self.0)
                } else {
                    Angle(540 - self.0)
                },
                // Collision with the horizontal side of an object
                SideCollided::Horizontal => Angle(360 - self.0),
            }
        }
    }

    /// The rows that a step at this angle moves by.
    pub fn sin(&self) -> (rows: isize)
        ensures
            rows == sin_of(self.degrees()),
            -3 <= rows <= 3,
    {
        proof {
            use_type_invariant(self);
        }
        match self.0 {
            0 => 0,
            15 => -1,
            30 => -1,
            45 => -1,
            60 => -2,
            75 => -3,
            90 => -1,
            105 => -3,
            120 => -2,
            135 => -1,
            150 => -1,
            165 => -1,
            180 => -1,
            195 => 1,
            210 => 1,
            225 => 1,
            240 => 2,
            255 => 3,
            270 => 1,
            285 => 3,
            300 => 2,
            315 => 1,
            330 => 1,
            _ => 1,
        }
    }

    /// The columns that a step at this angle moves by.
    pub fn cos(&self) -> (columns: isize)
        ensures
            columns == cos_of(self.degrees()),
            -3 <= columns <= 3,
    {
        proof {
            use_type_invariant(self);
        }
        match self.0 {
            0 => 1,
            15 => 3,
            30 => 2,
            45 => 1,
            60 => 1,
            75 => 1,
            90 => 0,
            105 => -1,
            120 => -1,
            135 => -1,
            150 => -2,
            165 => -3,
            180 => 0,
            195 => -3,
            210 => -2,
            225 => -1,
            240 => -1,
            255 => -1,
            270 => 0,
            285 => 1,
            300 => 1,
            315 => 1,
            330 => 2,
            _ => 3,
        }
    }
}

} // verus!
