//! Coordinates, axes, directions and orientations on a three-dimensional grid.
//!
//! Everything here is a plain value. Contracts are stated over [`Coordinate3<int>`], the
//! mathematical view of a [`Coordinate3<i32>`].

use vstd::multiset::Multiset;
use vstd::prelude::*;

verus! {

/// A triple of components, one per [`Axis3`] in the order x, y, z.
#[derive(Clone, Copy, Debug, PartialEq, Eq)]
pub struct Coordinate3<T>(pub T, pub T, pub T);

impl View for Coordinate3<i32> {
    type V = Coordinate3<int>;

    open spec fn view(&self) -> Coordinate3<int> {
        Coordinate3(self.0 as int, self.1 as int, self.2 as int)
    }
}

impl<T> Coordinate3<T> {
    /// Applies `f` to every component.
    pub fn map<F, R>(self, f: F) -> (mapped: Coordinate3<R>) where F: Fn(T) -> R
        requires
            f.requires((self.0,)),
            f.requires((self.1,)),
            f.requires((self.2,)),
        ensures
            f.ensures((self.0,), mapped.0),
            f.ensures((self.1,), mapped.1),
            f.ensures((self.2,), mapped.2),
    {
        Coordinate3(f(self.0), f(self.1), f(self.2))
    }

    /// Combines the components of `self` and `other` pairwise with `f`.
    pub fn zip<F, U, R>(self, other: Coordinate3<U>, f: F) -> (zipped: Coordinate3<R>) where
        F: Fn(T, U) -> R,

        requires
            f.requires((self.0, other.0)),
            f.requires((self.1, other.1)),
            f.requires((self.2, other.2)),
        ensures
            f.ensures((self.0, other.0), zipped.0),
            f.ensures((self.1, other.1), zipped.1),
            f.ensures((self.2, other.2), zipped.2),
    {
        Coordinate3(f(self.0, other.0), f(self.1, other.1), f(self.2, other.2))
    }

    /// The component on `axis`.
    pub open spec fn on(self, axis: Axis3) -> T {
        match axis {
            Axis3::X => self.0,
            Axis3::Y => self.1,
            Axis3::Z => self.2,
        }
    }

    /// `self` with the component on `axis` replaced by `value`.
    pub open spec fn with(self, axis: Axis3, value: T) -> Coordinate3<T> {
        match axis {
            Axis3::X => Coordinate3(value, self.1, self.2),
            Axis3::Y => Coordinate3(self.0, value, self.2),
            Axis3::Z => Coordinate3(self.0, self.1, value),
        }
    }
}

/// The smaller of two integers.
pub open spec fn min_int(a: int, b: int) -> int {
    if a <= b {
        a
    } else {
        b
    }
}

/// The larger of two integers.
pub open spec fn max_int(a: int, b: int) -> int {
    if a >= b {
        a
    } else {
        b
    }
}

/// The absolute value of an integer.
pub open spec fn abs_int(a: int) -> int {
    if a < 0 {
        -a
    } else {
        a
    }
}

/// The remainder of the division of `a` by `b` that rounds towards zero.
pub open spec fn truncating_rem(a: int, b: int) -> int {
    if a >= 0 {
        a % b
    } else {
        -((-a) % b)
    }
}

impl Coordinate3<int> {
    /// The component-wise minimum: the minimum corner of the cuboid spanned by `a` and `b`.
    pub open spec fn min_corner(a: Coordinate3<int>, b: Coordinate3<int>) -> Coordinate3<int> {
        Coordinate3(min_int(a.0, b.0), min_int(a.1, b.1), min_int(a.2, b.2))
    }

    /// The component-wise maximum: the maximum corner of the cuboid spanned by `a` and `b`.
    pub open spec fn max_corner(a: Coordinate3<int>, b: Coordinate3<int>) -> Coordinate3<int> {
        Coordinate3(max_int(a.0, b.0), max_int(a.1, b.1), max_int(a.2, b.2))
    }

    /// The component-wise negation.
    pub open spec fn neg(self) -> Coordinate3<int> {
        Coordinate3(-self.0, -self.1, -self.2)
    }

    /// The component-wise sum.
    pub open spec fn add(self, rhs: Coordinate3<int>) -> Coordinate3<int> {
        Coordinate3(self.0 + rhs.0, self.1 + rhs.1, self.2 + rhs.2)
    }

    /// The component-wise difference.
    pub open spec fn sub(self, rhs: Coordinate3<int>) -> Coordinate3<int> {
        Coordinate3(self.0 - rhs.0, self.1 - rhs.1, self.2 - rhs.2)
    }

    /// The component-wise remainder of the truncating division, which has the sign of the
    /// dividend.
    pub open spec fn rem(self, rhs: Coordinate3<int>) -> Coordinate3<int> {
        Coordinate3(
            truncating_rem(self.0, rhs.0),
            truncating_rem(self.1, rhs.1),
            truncating_rem(self.2, rhs.2),
        )
    }

    /// The component on the axis of `direction`, negated if `direction` is negative.
    pub open spec fn get_in_direction(self, direction: Direction3) -> int {
        direction.signed(self.on(direction.axis()))
    }

    /// Whether every component fits in an `i32`.
    pub open spec fn fits_i32(self) -> bool {
        &&& i32::MIN <= self.0 <= i32::MAX
        &&& i32::MIN <= self.1 <= i32::MAX
        &&& i32::MIN <= self.2 <= i32::MAX
    }

    /// Whether every component can be negated within an `i32`.
    pub open spec fn negatable_i32(self) -> bool {
        &&& i32::MIN < self.0 <= i32::MAX
        &&& i32::MIN < self.1 <= i32::MAX
        &&& i32::MIN < self.2 <= i32::MAX
    }

    /// The absolute values of the three components, as a multiset.
    pub open spec fn abs_components(self) -> Multiset<int> {
        Multiset::empty().insert(abs_int(self.0)).insert(abs_int(self.1)).insert(abs_int(self.2))
    }
}

impl Coordinate3<i32> {
    /// Finds the minimum corner of the cuboid spanned by `a` and `b`.
    pub fn min(a: Coordinate3<i32>, b: Coordinate3<i32>) -> (corner: Coordinate3<i32>)
        ensures
            corner@ == Coordinate3::min_corner(a@, b@),
    {
        Coordinate3(
            if a.0 <= b.0 { a.0 } else { b.0 },
            if a.1 <= b.1 { a.1 } else { b.1 },
            if a.2 <= b.2 { a.2 } else { b.2 },
        )
    }

    /// Finds the maximum corner of the cuboid spanned by `a` and `b`.
    pub fn max(a: Coordinate3<i32>, b: Coordinate3<i32>) -> (corner: Coordinate3<i32>)
        ensures
            corner@ == Coordinate3::max_corner(a@, b@),
    {
        Coordinate3(
            if a.0 >= b.0 { a.0 } else { b.0 },
            if a.1 >= b.1 { a.1 } else { b.1 },
            if a.2 >= b.2 { a.2 } else { b.2 },
        )
    }

    /// The component on `axis`.
    pub fn index(&self, axis: Axis3) -> (component: i32)
        ensures
            component == self@.on(axis),
    {
        match axis {
            Axis3::X => self.0,
            Axis3::Y => self.1,
            Axis3::Z => self.2,
        }
    }

    /// Replaces the component on `axis` by `value`.
    pub fn set(&mut self, axis: Axis3, value: i32)
        ensures
            final(self)@ == old(self)@.with(axis, value as int),
    {
        match axis {
            Axis3::X => { self.0 = value; },
            Axis3::Y => { self.1 = value; },
            Axis3::Z => { self.2 = value; },
        }
    }

    /// The component on the axis of `direction`, negated if `direction` is negative.
    pub fn get_in_direction(&self, direction: Direction3) -> (component: i32)
        requires
            direction.is_negative() ==> self@.on(direction.axis()) > i32::MIN,
        ensures
            component == self@.get_in_direction(direction),
    {
        let raw = self.index(direction.axis());
        if direction.is_negative() {
            -raw
        } else {
            raw
        }
    }

    /// The component-wise negation.
    pub fn neg(self) -> (negated: Coordinate3<i32>)
        requires
            self@.negatable_i32(),
        ensures
            negated@ == self@.neg(),
    {
        Coordinate3(-self.0, -self.1, -self.2)
    }

    /// The component-wise sum.
    pub fn add(self, rhs: Coordinate3<i32>) -> (sum: Coordinate3<i32>)
        requires
            self@.add(rhs@).fits_i32(),
        ensures
            sum@ == self@.add(rhs@),
    {
        Coordinate3(self.0 + rhs.0, self.1 + rhs.1, self.2 + rhs.2)
    }

    /// Adds `rhs` to `self` component by component.
    pub fn add_assign(&mut self, rhs: Coordinate3<i32>)
        requires
            old(self)@.add(rhs@).fits_i32(),
        ensures
            final(self)@ == old(self)@.add(rhs@),
    {
        *self = self.add(rhs);
    }

    /// The component-wise difference.
    pub fn sub(self, rhs: Coordinate3<i32>) -> (difference: Coordinate3<i32>)
        requires
            self@.sub(rhs@).fits_i32(),
        ensures
            difference@ == self@.sub(rhs@),
    {
        Coordinate3(self.0 - rhs.0, self.1 - rhs.1, self.2 - rhs.2)
    }

    /// The component-wise remainder of the truncating division of `self` by `rhs`.
    pub fn rem(self, rhs: Coordinate3<i32>) -> (remainder: Coordinate3<i32>)
        requires
            rhs.0 != 0 && rhs.1 != 0 && rhs.2 != 0,
            !(self.0 == i32::MIN && rhs.0 == -1),
            !(self.1 == i32::MIN && rhs.1 == -1),
            !(self.2 == i32::MIN && rhs.2 == -1),
        ensures
            remainder@ == self@.rem(rhs@),
    {
        Coordinate3(self.0 % rhs.0, self.1 % rhs.1, self.2 % rhs.2)
    }

    /// The three components in the order x, y, z.
    pub fn into_vec(self) -> (components: Vec<i32>)
        ensures
            components@ == seq![self.0, self.1, self.2],
    {
        vec![self.0, self.1, self.2]
    }
}

/// One of the three axes of the grid.
#[derive(Clone, Copy, Debug, PartialEq, Eq, Structural)]
pub enum Axis3 {
    X,
    Y,
    Z,
}

/// One of the six unit directions of the grid.
#[derive(Clone, Copy, Debug, PartialEq, Eq, Structural)]
pub enum Direction3 {
    /// +X
    East,
    /// -X
    West,
    /// +Y
    Up,
    /// -Y
    Down,
    /// +Z
    South,
    /// -Z
    North,
}

impl Direction3 {
    /// The direction along `axis` with the given sign.
    pub open spec fn along(axis: Axis3, positive: bool) -> Direction3 {
        match axis {
            Axis3::X => if positive { Direction3::East } else { Direction3::West },
            Axis3::Y => if positive { Direction3::Up } else { Direction3::Down },
            Axis3::Z => if positive { Direction3::South } else { Direction3::North },
        }
    }

    /// `value` if this direction is positive, `-value` if it is negative.
    pub open spec fn signed(&self, value: int) -> int {
        if self.is_positive() {
            value
        } else {
            -value
        }
    }

    /// The unit step in this direction.
    pub open spec fn unit(&self) -> Coordinate3<int> {
        Coordinate3(0, 0, 0).with(self.axis(), self.signed(1))
    }

    /// The axis this direction runs along.
    #[verifier::allow_in_spec]
    pub fn axis(&self) -> Axis3
        returns
            (match self {
                Direction3::East | Direction3::West => Axis3::X,
                Direction3::Up | Direction3::Down => Axis3::Y,
                Direction3::South | Direction3::North => Axis3::Z,
            }),
    {
        match self {
            Direction3::East => Axis3::X,
            Direction3::West => Axis3::X,
            Direction3::Up => Axis3::Y,
            Direction3::Down => Axis3::Y,
            Direction3::South => Axis3::Z,
            Direction3::North => Axis3::Z,
        }
    }

    /// Whether this direction points towards greater values of its axis.
    #[verifier::allow_in_spec]
    pub fn is_positive(&self) -> bool
        returns
            (self is East || self is Up || self is South),
    {
        match self {
            Direction3::East => true,
            Direction3::West => false,
            Direction3::Up => true,
            Direction3::Down => false,
            Direction3::South => true,
            Direction3::North => false,
        }
    }

    /// Whether this direction points towards smaller values of its axis.
    #[verifier::allow_in_spec]
    pub fn is_negative(&self) -> bool
        returns
            !self.is_positive(),
    {
        !self.is_positive()
    }

    /// `1` for a positive direction, `-1` for a negative one.
    pub fn signum(&self) -> (sign: i8)
        ensures
            sign == self.signed(1),
    {
        if self.is_positive() {
            1
        } else {
            -1
        }
    }

    /// The lower-case name of this direction.
    pub fn as_str(&self) -> (name: &'static str)
        ensures
            name@ == self.name(),
    {
        match self {
            Direction3::East => "east",
            Direction3::West => "west",
            Direction3::Up => "up",
            Direction3::Down => "down",
            Direction3::South => "south",
            Direction3::North => "north",
        }
    }

    /// The lower-case name of this direction, as characters.
    pub open spec fn name(&self) -> Seq<char> {
        match self {
            Direction3::East => "east"@,
            Direction3::West => "west"@,
            Direction3::Up => "up"@,
            Direction3::Down => "down"@,
            Direction3::South => "south"@,
            Direction3::North => "north"@,
        }
    }

    /// The coordinate that has `one` (negated for a negative direction) on the axis of this
    /// direction and `zero` on the two others.
    pub fn as_coordinate(&self, one: i32, zero: i32) -> (coordinate: Coordinate3<i32>)
        requires
            self.is_negative() ==> one > i32::MIN,
        ensures
            coordinate@ == Coordinate3(zero as int, zero as int, zero as int).with(
                self.axis(),
                self.signed(one as int),
            ),
    {
        match self {
            Direction3::East => Coordinate3(one, zero, zero),
            Direction3::West => Coordinate3(-one, zero, zero),
            Direction3::Up => Coordinate3(zero, one, zero),
            Direction3::Down => Coordinate3(zero, -one, zero),
            Direction3::South => Coordinate3(zero, zero, one),
            Direction3::North => Coordinate3(zero, zero, -one),
        }
    }

    /// The opposite direction: same axis, flipped sign.
    #[verifier::allow_in_spec]
    pub fn neg(self) -> Direction3
        returns
            Direction3::along(self.axis(), !self.is_positive()),
    {
        match self {
            Direction3::East => Direction3::West,
            Direction3::West => Direction3::East,
            Direction3::Up => Direction3::Down,
            Direction3::Down => Direction3::Up,
            Direction3::South => Direction3::North,
            Direction3::North => Direction3::South,
        }
    }

    /// Whether exactly one component of `value` is non-zero.
    pub open spec fn is_axis_aligned(value: Coordinate3<int>) -> bool {
        ||| value.0 != 0 && value.1 == 0 && value.2 == 0
        ||| value.0 == 0 && value.1 != 0 && value.2 == 0
        ||| value.0 == 0 && value.1 == 0 && value.2 != 0
    }

    /// The direction in which an axis-aligned `value` points.
    pub open spec fn of(value: Coordinate3<int>) -> Direction3 {
        if value.0 != 0 {
            Direction3::along(Axis3::X, value.0 > 0)
        } else if value.1 != 0 {
            Direction3::along(Axis3::Y, value.1 > 0)
        } else {
            Direction3::along(Axis3::Z, value.2 > 0)
        }
    }

    /// Finds the direction in which `value` points. This fails unless exactly one component of
    /// `value` is non-zero.
    pub fn try_from(value: Coordinate3<i32>) -> (result: Result<Direction3, ()>)
        ensures
            result is Ok <==> Direction3::is_axis_aligned(value@),
            result is Ok ==> result->Ok_0 == Direction3::of(value@),
    {
        let Coordinate3(s1, s2, s3) = value;
        let mut count: u8 = 0;
        if s1 != 0 {
            count = count + 1;
        }
        if s2 != 0 {
            count = count + 1;
        }
        if s3 != 0 {
            count = count + 1;
        }
        if count != 1 {
            Err(())
        } else if s1 > 0 {
            Ok(Direction3::East)
        } else if s1 < 0 {
            Ok(Direction3::West)
        } else if s2 > 0 {
            Ok(Direction3::Up)
        } else if s2 < 0 {
            Ok(Direction3::Down)
        } else if s3 > 0 {
            Ok(Direction3::South)
        } else {
            Ok(Direction3::North)
        }
    }
}

/// An [`Orientation3`] is one of the 48 ways to align a structure to the grid by rotating and
/// mirroring it. It consists of a primary, a secondary and a tertiary [`Direction3`], which lie
/// on three different axes. The name of a variant lists the axes of the three directions; a lower
/// case letter stands for a negative direction.
///
/// Seen as a matrix, column `i` holds the unit step of direction `i`: every row and every column
/// holds exactly one entry that is not zero, and that entry is `1` or `-1`.
#[allow(non_camel_case_types)]
#[derive(Clone, Copy, Debug, PartialEq, Eq, Structural)]
pub enum Orientation3 {
    XYZ,
    XYz,
    XZY,
    XZy,
    XyZ,
    Xyz,
    XzY,
    Xzy,
    YXZ,
    YXz,
    YZX,
    YZx,
    YxZ,
    Yxz,
    YzX,
    Yzx,
    ZXY,
    ZXy,
    ZYX,
    ZYx,
    ZxY,
    Zxy,
    ZyX,
    Zyx,
    xYZ,
    xYz,
    xZY,
    xZy,
    xyZ,
    xyz,
    xzY,
    xzy,
    yXZ,
    yXz,
    yZX,
    yZx,
    yxZ,
    yxz,
    yzX,
    yzx,
    zXY,
    zXy,
    zYX,
    zYx,
    zxY,
    zxy,
    zyX,
    zyx,
}

impl Orientation3 {
    /// The component of the oriented `coordinate` on `axis`: the component whose direction lies
    /// on `axis`, with the sign of that direction.
    pub open spec fn component_on(&self, axis: Axis3, coordinate: Coordinate3<int>) -> int {
        if self.direction1().axis() == axis {
            self.direction1().signed(coordinate.0)
        } else if self.direction2().axis() == axis {
            self.direction2().signed(coordinate.1)
        } else {
            self.direction3().signed(coordinate.2)
        }
    }

    /// The oriented `coordinate`: the first component moves to the axis of the primary direction,
    /// the second to that of the secondary, the third to that of the tertiary, each negated where
    /// its direction is negative.
    pub open spec fn orient(&self, coordinate: Coordinate3<int>) -> Coordinate3<int> {
        Coordinate3(
            self.component_on(Axis3::X, coordinate),
            self.component_on(Axis3::Y, coordinate),
            self.component_on(Axis3::Z, coordinate),
        )
    }

    /// Orients `coordinate` according to this orientation: the axis of the first component is
    /// renamed to that of the primary direction, the second to the secondary and the third to
    /// the tertiary. Where a direction is negative the component is negated too.
    ///
    /// For example orienting (1, 2, 3) to [`Orientation3::YzX`] gives (y: 1, z: -2, x: 3), that
    /// is (3, 1, -2). Orienting the result to the [inverse](Orientation3::inverse) gives the
    /// coordinate back.
    pub fn orient_coordinate(&self, coordinate: Coordinate3<i32>) -> (oriented: Coordinate3<i32>)
        requires
            self.direction1().is_negative() ==> coordinate.0 > i32::MIN,
            self.direction2().is_negative() ==> coordinate.1 > i32::MIN,
            self.direction3().is_negative() ==> coordinate.2 > i32::MIN,
        ensures
            oriented@ == self.orient(coordinate@),
    {
        let mut result = coordinate;
        let Coordinate3(mut t1, mut t2, mut t3) = coordinate;
        if self.direction1().is_negative() {
            t1 = -t1;
        }
        if self.direction2().is_negative() {
            t2 = -t2;
        }
        if self.direction3().is_negative() {
            t3 = -t3;
        }
        result.set(self.direction1().axis(), t1);
        result.set(self.direction2().axis(), t2);
        result.set(self.direction3().axis(), t3);
        proof {
            self.lemma_axes_distinct();
        }
        result
    }

    /// The oriented `direction`: east becomes the primary direction, up the secondary, south the
    /// tertiary, and each opposite becomes the opposite of that.
    pub open spec fn orient_unit(&self, direction: Direction3) -> Direction3 {
        let target = match direction.axis() {
            Axis3::X => self.direction1(),
            Axis3::Y => self.direction2(),
            Axis3::Z => self.direction3(),
        };
        if direction.is_positive() {
            target
        } else {
            target.neg()
        }
    }

    /// Orients `direction` according to this orientation.
    pub fn orient_direction(&self, direction: Direction3) -> (oriented: Direction3)
        ensures
            oriented == self.orient_unit(direction),
    {
        let target_direction = match direction.axis() {
            Axis3::X => self.direction1(),
            Axis3::Y => self.direction2(),
            Axis3::Z => self.direction3(),
        };
        if direction.is_positive() {
            target_direction
        } else {
            target_direction.neg()
        }
    }

    /// Finds the inverse orientation. This is the inverse of the matrix, which is its transpose.
    #[verifier::allow_in_spec]
    pub fn inverse(&self) -> Orientation3
        returns
            (match self {
            Orientation3::XYZ => Orientation3::XYZ,
            Orientation3::XYz => Orientation3::XYz,
            Orientation3::XZY => Orientation3::XZY,
            Orientation3::XZy => Orientation3::XzY,
            Orientation3::XyZ => Orientation3::XyZ,
            Orientation3::Xyz => Orientation3::Xyz,
            Orientation3::XzY => Orientation3::XZy,
            Orientation3::Xzy => Orientation3::Xzy,
            Orientation3::YXZ => Orientation3::YXZ,
            Orientation3::YXz => Orientation3::YXz,
            Orientation3::YZX => Orientation3::ZXY,
            Orientation3::YZx => Orientation3::zXY,
            Orientation3::YxZ => Orientation3::yXZ,
            Orientation3::Yxz => Orientation3::yXz,
            Orientation3::YzX => Orientation3::ZXy,
            Orientation3::Yzx => Orientation3::zXy,
            Orientation3::ZXY => Orientation3::YZX,
            Orientation3::ZXy => Orientation3::YzX,
            Orientation3::ZYX => Orientation3::ZYX,
            Orientation3::ZYx => Orientation3::zYX,
            Orientation3::ZxY => Orientation3::yZX,
            Orientation3::Zxy => Orientation3::yzX,
            Orientation3::ZyX => Orientation3::ZyX,
            Orientation3::Zyx => Orientation3::zyX,
            Orientation3::xYZ => Orientation3::xYZ,
            Orientation3::xYz => Orientation3::xYz,
            Orientation3::xZY => Orientation3::xZY,
            Orientation3::xZy => Orientation3::xzY,
            Orientation3::xyZ => Orientation3::xyZ,
            Orientation3::xyz => Orientation3::xyz,
            Orientation3::xzY => Orientation3::xZy,
            Orientation3::xzy => Orientation3::xzy,
            Orientation3::yXZ => Orientation3::YxZ,
            Orientation3::yXz => Orientation3::Yxz,
            Orientation3::yZX => Orientation3::ZxY,
            Orientation3::yZx => Orientation3::zxY,
            Orientation3::yxZ => Orientation3::yxZ,
            Orientation3::yxz => Orientation3::yxz,
            Orientation3::yzX => Orientation3::Zxy,
            Orientation3::yzx => Orientation3::zxy,
            Orientation3::zXY => Orientation3::YZx,
            Orientation3::zXy => Orientation3::Yzx,
            Orientation3::zYX => Orientation3::ZYx,
            Orientation3::zYx => Orientation3::zYx,
            Orientation3::zxY => Orientation3::yZx,
            Orientation3::zxy => Orientation3::yzx,
            Orientation3::zyX => Orientation3::Zyx,
            Orientation3::zyx => Orientation3::zyx,
            }),
    {
        match self {
            Orientation3::XYZ => Orientation3::XYZ,
            Orientation3::XYz => Orientation3::XYz,
            Orientation3::XZY => Orientation3::XZY,
            Orientation3::XZy => Orientation3::XzY,
            Orientation3::XyZ => Orientation3::XyZ,
            Orientation3::Xyz => Orientation3::Xyz,
            Orientation3::XzY => Orientation3::XZy,
            Orientation3::Xzy => Orientation3::Xzy,
            Orientation3::YXZ => Orientation3::YXZ,
            Orientation3::YXz => Orientation3::YXz,
            Orientation3::YZX => Orientation3::ZXY,
            Orientation3::YZx => Orientation3::zXY,
            Orientation3::YxZ => Orientation3::yXZ,
            Orientation3::Yxz => Orientation3::yXz,
            Orientation3::YzX => Orientation3::ZXy,
            Orientation3::Yzx => Orientation3::zXy,
            Orientation3::ZXY => Orientation3::YZX,
            Orientation3::ZXy => Orientation3::YzX,
            Orientation3::ZYX => Orientation3::ZYX,
            Orientation3::ZYx => Orientation3::zYX,
            Orientation3::ZxY => Orientation3::yZX,
            Orientation3::Zxy => Orientation3::yzX,
            Orientation3::ZyX => Orientation3::ZyX,
            Orientation3::Zyx => Orientation3::zyX,
            Orientation3::xYZ => Orientation3::xYZ,
            Orientation3::xYz => Orientation3::xYz,
            Orientation3::xZY => Orientation3::xZY,
            Orientation3::xZy => Orientation3::xzY,
            Orientation3::xyZ => Orientation3::xyZ,
            Orientation3::xyz => Orientation3::xyz,
            Orientation3::xzY => Orientation3::xZy,
            Orientation3::xzy => Orientation3::xzy,
            Orientation3::yXZ => Orientation3::YxZ,
            Orientation3::yXz => Orientation3::Yxz,
            Orientation3::yZX => Orientation3::ZxY,
            Orientation3::yZx => Orientation3::zxY,
            Orientation3::yxZ => Orientation3::yxZ,
            Orientation3::yxz => Orientation3::yxz,
            Orientation3::yzX => Orientation3::Zxy,
            Orientation3::yzx => Orientation3::zxy,
            Orientation3::zXY => Orientation3::YZx,
            Orientation3::zXy => Orientation3::Yzx,
            Orientation3::zYX => Orientation3::ZYx,
            Orientation3::zYx => Orientation3::zYx,
            Orientation3::zxY => Orientation3::yZx,
            Orientation3::zxy => Orientation3::yzx,
            Orientation3::zyX => Orientation3::Zyx,
            Orientation3::zyx => Orientation3::zyx,
        }
    }

    /// The primary direction of this orientation.
    #[verifier::allow_in_spec]
    pub fn direction1(&self) -> Direction3
        returns
            (match self {
            Orientation3::XYZ => Direction3::East,
            Orientation3::XYz => Direction3::East,
            Orientation3::XZY => Direction3::East,
            Orientation3::XZy => Direction3::East,
            Orientation3::XyZ => Direction3::East,
            Orientation3::Xyz => Direction3::East,
            Orientation3::XzY => Direction3::East,
            Orientation3::Xzy => Direction3::East,
            Orientation3::YXZ => Direction3::Up,
            Orientation3::YXz => Direction3::Up,
            Orientation3::YZX => Direction3::Up,
            Orientation3::YZx => Direction3::Up,
            Orientation3::YxZ => Direction3::Up,
            Orientation3::Yxz => Direction3::Up,
            Orientation3::YzX => Direction3::Up,
            Orientation3::Yzx => Direction3::Up,
            Orientation3::ZXY => Direction3::South,
            Orientation3::ZXy => Direction3::South,
            Orientation3::ZYX => Direction3::South,
            Orientation3::ZYx => Direction3::South,
            Orientation3::ZxY => Direction3::South,
            Orientation3::Zxy => Direction3::South,
            Orientation3::ZyX => Direction3::South,
            Orientation3::Zyx => Direction3::South,
            Orientation3::xYZ => Direction3::West,
            Orientation3::xYz => Direction3::West,
            Orientation3::xZY => Direction3::West,
            Orientation3::xZy => Direction3::West,
            Orientation3::xyZ => Direction3::West,
            Orientation3::xyz => Direction3::West,
            Orientation3::xzY => Direction3::West,
            Orientation3::xzy => Direction3::West,
            Orientation3::yXZ => Direction3::Down,
            Orientation3::yXz => Direction3::Down,
            Orientation3::yZX => Direction3::Down,
            Orientation3::yZx => Direction3::Down,
            Orientation3::yxZ => Direction3::Down,
            Orientation3::yxz => Direction3::Down,
            Orientation3::yzX => Direction3::Down,
            Orientation3::yzx => Direction3::Down,
            Orientation3::zXY => Direction3::North,
            Orientation3::zXy => Direction3::North,
            Orientation3::zYX => Direction3::North,
            Orientation3::zYx => Direction3::North,
            Orientation3::zxY => Direction3::North,
            Orientation3::zxy => Direction3::North,
            Orientation3::zyX => Direction3::North,
            Orientation3::zyx => Direction3::North,
            }),
    {
        match self {
            Orientation3::XYZ => Direction3::East,
            Orientation3::XYz => Direction3::East,
            Orientation3::XZY => Direction3::East,
            Orientation3::XZy => Direction3::East,
            Orientation3::XyZ => Direction3::East,
            Orientation3::Xyz => Direction3::East,
            Orientation3::XzY => Direction3::East,
            Orientation3::Xzy => Direction3::East,
            Orientation3::YXZ => Direction3::Up,
            Orientation3::YXz => Direction3::Up,
            Orientation3::YZX => Direction3::Up,
            Orientation3::YZx => Direction3::Up,
            Orientation3::YxZ => Direction3::Up,
            Orientation3::Yxz => Direction3::Up,
            Orientation3::YzX => Direction3::Up,
            Orientation3::Yzx => Direction3::Up,
            Orientation3::ZXY => Direction3::South,
            Orientation3::ZXy => Direction3::South,
            Orientation3::ZYX => Direction3::South,
            Orientation3::ZYx => Direction3::South,
            Orientation3::ZxY => Direction3::South,
            Orientation3::Zxy => Direction3::South,
            Orientation3::ZyX => Direction3::South,
            Orientation3::Zyx => Direction3::South,
            Orientation3::xYZ => Direction3::West,
            Orientation3::xYz => Direction3::West,
            Orientation3::xZY => Direction3::West,
            Orientation3::xZy => Direction3::West,
            Orientation3::xyZ => Direction3::West,
            Orientation3::xyz => Direction3::West,
            Orientation3::xzY => Direction3::West,
            Orientation3::xzy => Direction3::West,
            Orientation3::yXZ => Direction3::Down,
            Orientation3::yXz => Direction3::Down,
            Orientation3::yZX => Direction3::Down,
            Orientation3::yZx => Direction3::Down,
            Orientation3::yxZ => Direction3::Down,
            Orientation3::yxz => Direction3::Down,
            Orientation3::yzX => Direction3::Down,
            Orientation3::yzx => Direction3::Down,
            Orientation3::zXY => Direction3::North,
            Orientation3::zXy => Direction3::North,
            Orientation3::zYX => Direction3::North,
            Orientation3::zYx => Direction3::North,
            Orientation3::zxY => Direction3::North,
            Orientation3::zxy => Direction3::North,
            Orientation3::zyX => Direction3::North,
            Orientation3::zyx => Direction3::North,
        }
    }

    /// The secondary direction of this orientation.
    #[verifier::allow_in_spec]
    pub fn direction2(&self) -> Direction3
        returns
            (match self {
            Orientation3::XYZ => Direction3::Up,
            Orientation3::XYz => Direction3::Up,
            Orientation3::XZY => Direction3::South,
            Orientation3::XZy => Direction3::South,
            Orientation3::XyZ => Direction3::Down,
            Orientation3::Xyz => Direction3::Down,
            Orientation3::XzY => Direction3::North,
            Orientation3::Xzy => Direction3::North,
            Orientation3::YXZ => Direction3::East,
            Orientation3::YXz => Direction3::East,
            Orientation3::YZX => Direction3::South,
            Orientation3::YZx => Direction3::South,
            Orientation3::YxZ => Direction3::West,
            Orientation3::Yxz => Direction3::West,
            Orientation3::YzX => Direction3::North,
            Orientation3::Yzx => Direction3::North,
            Orientation3::ZXY => Direction3::East,
            Orientation3::ZXy => Direction3::East,
            Orientation3::ZYX => Direction3::Up,
            Orientation3::ZYx => Direction3::Up,
            Orientation3::ZxY => Direction3::West,
            Orientation3::Zxy => Direction3::West,
            Orientation3::ZyX => Direction3::Down,
            Orientation3::Zyx => Direction3::Down,
            Orientation3::xYZ => Direction3::Up,
            Orientation3::xYz => Direction3::Up,
            Orientation3::xZY => Direction3::South,
            Orientation3::xZy => Direction3::South,
            Orientation3::xyZ => Direction3::Down,
            Orientation3::xyz => Direction3::Down,
            Orientation3::xzY => Direction3::North,
            Orientation3::xzy => Direction3::North,
            Orientation3::yXZ => Direction3::East,
            Orientation3::yXz => Direction3::East,
            Orientation3::yZX => Direction3::South,
            Orientation3::yZx => Direction3::South,
            Orientation3::yxZ => Direction3::West,
            Orientation3::yxz => Direction3::West,
            Orientation3::yzX => Direction3::North,
            Orientation3::yzx => Direction3::North,
            Orientation3::zXY => Direction3::East,
            Orientation3::zXy => Direction3::East,
            Orientation3::zYX => Direction3::Up,
            Orientation3::zYx => Direction3::Up,
            Orientation3::zxY => Direction3::West,
            Orientation3::zxy => Direction3::West,
            Orientation3::zyX => Direction3::Down,
            Orientation3::zyx => Direction3::Down,
            }),
    {
        match self {
            Orientation3::XYZ => Direction3::Up,
            Orientation3::XYz => Direction3::Up,
            Orientation3::XZY => Direction3::South,
            Orientation3::XZy => Direction3::South,
            Orientation3::XyZ => Direction3::Down,
            Orientation3::Xyz => Direction3::Down,
            Orientation3::XzY => Direction3::North,
            Orientation3::Xzy => Direction3::North,
            Orientation3::YXZ => Direction3::East,
            Orientation3::YXz => Direction3::East,
            Orientation3::YZX => Direction3::South,
            Orientation3::YZx => Direction3::South,
            Orientation3::YxZ => Direction3::West,
            Orientation3::Yxz => Direction3::West,
            Orientation3::YzX => Direction3::North,
            Orientation3::Yzx => Direction3::North,
            Orientation3::ZXY => Direction3::East,
            Orientation3::ZXy => Direction3::East,
            Orientation3::ZYX => Direction3::Up,
            Orientation3::ZYx => Direction3::Up,
            Orientation3::ZxY => Direction3::West,
            Orientation3::Zxy => Direction3::West,
            Orientation3::ZyX => Direction3::Down,
            Orientation3::Zyx => Direction3::Down,
            Orientation3::xYZ => Direction3::Up,
            Orientation3::xYz => Direction3::Up,
            Orientation3::xZY => Direction3::South,
            Orientation3::xZy => Direction3::South,
            Orientation3::xyZ => Direction3::Down,
            Orientation3::xyz => Direction3::Down,
            Orientation3::xzY => Direction3::North,
            Orientation3::xzy => Direction3::North,
            Orientation3::yXZ => Direction3::East,
            Orientation3::yXz => Direction3::East,
            Orientation3::yZX => Direction3::South,
            Orientation3::yZx => Direction3::South,
            Orientation3::yxZ => Direction3::West,
            Orientation3::yxz => Direction3::West,
            Orientation3::yzX => Direction3::North,
            Orientation3::yzx => Direction3::North,
            Orientation3::zXY => Direction3::East,
            Orientation3::zXy => Direction3::East,
            Orientation3::zYX => Direction3::Up,
            Orientation3::zYx => Direction3::Up,
            Orientation3::zxY => Direction3::West,
            Orientation3::zxy => Direction3::West,
            Orientation3::zyX => Direction3::Down,
            Orientation3::zyx => Direction3::Down,
        }
    }

    /// The tertiary direction of this orientation.
    #[verifier::allow_in_spec]
    pub fn direction3(&self) -> Direction3
        returns
            (match self {
            Orientation3::XYZ => Direction3::South,
            Orientation3::XYz => Direction3::North,
            Orientation3::XZY => Direction3::Up,
            Orientation3::XZy => Direction3::Down,
            Orientation3::XyZ => Direction3::South,
            Orientation3::Xyz => Direction3::North,
            Orientation3::XzY => Direction3::Up,
            Orientation3::Xzy => Direction3::Down,
            Orientation3::YXZ => Direction3::South,
            Orientation3::YXz => Direction3::North,
            Orientation3::YZX => Direction3::East,
            Orientation3::YZx => Direction3::West,
            Orientation3::YxZ => Direction3::South,
            Orientation3::Yxz => Direction3::North,
            Orientation3::YzX => Direction3::East,
            Orientation3::Yzx => Direction3::West,
            Orientation3::ZXY => Direction3::Up,
            Orientation3::ZXy => Direction3::Down,
            Orientation3::ZYX => Direction3::East,
            Orientation3::ZYx => Direction3::West,
            Orientation3::ZxY => Direction3::Up,
            Orientation3::Zxy => Direction3::Down,
            Orientation3::ZyX => Direction3::East,
            Orientation3::Zyx => Direction3::West,
            Orientation3::xYZ => Direction3::South,
            Orientation3::xYz => Direction3::North,
            Orientation3::xZY => Direction3::Up,
            Orientation3::xZy => Direction3::Down,
            Orientation3::xyZ => Direction3::South,
            Orientation3::xyz => Direction3::North,
            Orientation3::xzY => Direction3::Up,
            Orientation3::xzy => Direction3::Down,
            Orientation3::yXZ => Direction3::South,
            Orientation3::yXz => Direction3::North,
            Orientation3::yZX => Direction3::East,
            Orientation3::yZx => Direction3::West,
            Orientation3::yxZ => Direction3::South,
            Orientation3::yxz => Direction3::North,
            Orientation3::yzX => Direction3::East,
            Orientation3::yzx => Direction3::West,
            Orientation3::zXY => Direction3::Up,
            Orientation3::zXy => Direction3::Down,
            Orientation3::zYX => Direction3::East,
            Orientation3::zYx => Direction3::West,
            Orientation3::zxY => Direction3::Up,
            Orientation3::zxy => Direction3::Down,
            Orientation3::zyX => Direction3::East,
            Orientation3::zyx => Direction3::West,
            }),
    {
        match self {
            Orientation3::XYZ => Direction3::South,
            Orientation3::XYz => Direction3::North,
            Orientation3::XZY => Direction3::Up,
            Orientation3::XZy => Direction3::Down,
            Orientation3::XyZ => Direction3::South,
            Orientation3::Xyz => Direction3::North,
            Orientation3::XzY => Direction3::Up,
            Orientation3::Xzy => Direction3::Down,
            Orientation3::YXZ => Direction3::South,
            Orientation3::YXz => Direction3::North,
            Orientation3::YZX => Direction3::East,
            Orientation3::YZx => Direction3::West,
            Orientation3::YxZ => Direction3::South,
            Orientation3::Yxz => Direction3::North,
            Orientation3::YzX => Direction3::East,
            Orientation3::Yzx => Direction3::West,
            Orientation3::ZXY => Direction3::Up,
            Orientation3::ZXy => Direction3::Down,
            Orientation3::ZYX => Direction3::East,
            Orientation3::ZYx => Direction3::West,
            Orientation3::ZxY => Direction3::Up,
            Orientation3::Zxy => Direction3::Down,
            Orientation3::ZyX => Direction3::East,
            Orientation3::Zyx => Direction3::West,
            Orientation3::xYZ => Direction3::South,
            Orientation3::xYz => Direction3::North,
            Orientation3::xZY => Direction3::Up,
            Orientation3::xZy => Direction3::Down,
            Orientation3::xyZ => Direction3::South,
            Orientation3::xyz => Direction3::North,
            Orientation3::xzY => Direction3::Up,
            Orientation3::xzy => Direction3::Down,
            Orientation3::yXZ => Direction3::South,
            Orientation3::yXz => Direction3::North,
            Orientation3::yZX => Direction3::East,
            Orientation3::yZx => Direction3::West,
            Orientation3::yxZ => Direction3::South,
            Orientation3::yxz => Direction3::North,
            Orientation3::yzX => Direction3::East,
            Orientation3::yzx => Direction3::West,
            Orientation3::zXY => Direction3::Up,
            Orientation3::zXy => Direction3::Down,
            Orientation3::zYX => Direction3::East,
            Orientation3::zYx => Direction3::West,
            Orientation3::zxY => Direction3::Up,
            Orientation3::zxy => Direction3::Down,
            Orientation3::zyX => Direction3::East,
            Orientation3::zyx => Direction3::West,
        }
    }

    /// The inverse orientation, as an operator would give it.
    pub fn not(self) -> (inverse: Orientation3)
        ensures
            inverse == self.inverse(),
    {
        self.inverse()
    }

    /// All 48 orientations, each once.
    pub fn all() -> (all: Vec<Orientation3>)
        ensures
            all@.len() == 48,
            all@.no_duplicates(),
            forall|o: Orientation3| all@.contains(o),
    {
        let all = vec![
            Orientation3::XYZ,
            Orientation3::XYz,
            Orientation3::XZY,
            Orientation3::XZy,
            Orientation3::XyZ,
            Orientation3::Xyz,
            Orientation3::XzY,
            Orientation3::Xzy,
            Orientation3::YXZ,
            Orientation3::YXz,
            Orientation3::YZX,
            Orientation3::YZx,
            Orientation3::YxZ,
            Orientation3::Yxz,
            Orientation3::YzX,
            Orientation3::Yzx,
            Orientation3::ZXY,
            Orientation3::ZXy,
            Orientation3::ZYX,
            Orientation3::ZYx,
            Orientation3::ZxY,
            Orientation3::Zxy,
            Orientation3::ZyX,
            Orientation3::Zyx,
            Orientation3::xYZ,
            Orientation3::xYz,
            Orientation3::xZY,
            Orientation3::xZy,
            Orientation3::xyZ,
            Orientation3::xyz,
            Orientation3::xzY,
            Orientation3::xzy,
            Orientation3::yXZ,
            Orientation3::yXz,
            Orientation3::yZX,
            Orientation3::yZx,
            Orientation3::yxZ,
            Orientation3::yxz,
            Orientation3::yzX,
            Orientation3::yzx,
            Orientation3::zXY,
            Orientation3::zXy,
            Orientation3::zYX,
            Orientation3::zYx,
            Orientation3::zxY,
            Orientation3::zxy,
            Orientation3::zyX,
            Orientation3::zyx,
        ];
        proof {
            assert forall|o: Orientation3| all@.contains(o) by {
                match o {
                Orientation3::XYZ => { assert(all@[0] == o); }
                Orientation3::XYz => { assert(all@[1] == o); }
                Orientation3::XZY => { assert(all@[2] == o); }
                Orientation3::XZy => { assert(all@[3] == o); }
                Orientation3::XyZ => { assert(all@[4] == o); }
                Orientation3::Xyz => { assert(all@[5] == o); }
                Orientation3::XzY => { assert(all@[6] == o); }
                Orientation3::Xzy => { assert(all@[7] == o); }
                Orientation3::YXZ => { assert(all@[8] == o); }
                Orientation3::YXz => { assert(all@[9] == o); }
                Orientation3::YZX => { assert(all@[10] == o); }
                Orientation3::YZx => { assert(all@[11] == o); }
                Orientation3::YxZ => { assert(all@[12] == o); }
                Orientation3::Yxz => { assert(all@[13] == o); }
                Orientation3::YzX => { assert(all@[14] == o); }
                Orientation3::Yzx => { assert(all@[15] == o); }
                Orientation3::ZXY => { assert(all@[16] == o); }
                Orientation3::ZXy => { assert(all@[17] == o); }
                Orientation3::ZYX => { assert(all@[18] == o); }
                Orientation3::ZYx => { assert(all@[19] == o); }
                Orientation3::ZxY => { assert(all@[20] == o); }
                Orientation3::Zxy => { assert(all@[21] == o); }
                Orientation3::ZyX => { assert(all@[22] == o); }
                Orientation3::Zyx => { assert(all@[23] == o); }
                Orientation3::xYZ => { assert(all@[24] == o); }
                Orientation3::xYz => { assert(all@[25] == o); }
                Orientation3::xZY => { assert(all@[26] == o); }
                Orientation3::xZy => { assert(all@[27] == o); }
                Orientation3::xyZ => { assert(all@[28] == o); }
                Orientation3::xyz => { assert(all@[29] == o); }
                Orientation3::xzY => { assert(all@[30] == o); }
                Orientation3::xzy => { assert(all@[31] == o); }
                Orientation3::yXZ => { assert(all@[32] == o); }
                Orientation3::yXz => { assert(all@[33] == o); }
                Orientation3::yZX => { assert(all@[34] == o); }
                Orientation3::yZx => { assert(all@[35] == o); }
                Orientation3::yxZ => { assert(all@[36] == o); }
                Orientation3::yxz => { assert(all@[37] == o); }
                Orientation3::yzX => { assert(all@[38] == o); }
                Orientation3::yzx => { assert(all@[39] == o); }
                Orientation3::zXY => { assert(all@[40] == o); }
                Orientation3::zXy => { assert(all@[41] == o); }
                Orientation3::zYX => { assert(all@[42] == o); }
                Orientation3::zYx => { assert(all@[43] == o); }
                Orientation3::zxY => { assert(all@[44] == o); }
                Orientation3::zxy => { assert(all@[45] == o); }
                Orientation3::zyX => { assert(all@[46] == o); }
                Orientation3::zyx => { assert(all@[47] == o); }
                }
            }
        }
        all
    }

    /// The three directions of an orientation lie on three different axes.
    pub proof fn lemma_axes_distinct(&self)
        ensures
            self.direction1().axis() != self.direction2().axis(),
            self.direction1().axis() != self.direction3().axis(),
            self.direction2().axis() != self.direction3().axis(),
    {
    }

    /// Orienting a coordinate and then orienting the result to the inverse orientation gives the
    /// coordinate back.
    pub proof fn lemma_inverse_undoes_orient(&self, coordinate: Coordinate3<int>)
        ensures
            self.inverse().orient(self.orient(coordinate)) == coordinate,
    {
    }

    /// The inverse of the inverse is the orientation itself.
    pub proof fn lemma_inverse_involution(&self)
        ensures
            self.inverse().inverse() == *self,
    {
    }

    /// The inverse is the transpose: where direction `i` of an orientation lies on axis `j`,
    /// direction `j` of the inverse lies on axis `i`, with the same sign.
    pub proof fn lemma_inverse_is_transpose(&self, direction: Direction3)
        ensures
            self.inverse().orient_unit(self.orient_unit(direction)) == direction,
    {
    }

    /// Orienting permutes the components and flips signs: the absolute values of the components
    /// stay the same, as a multiset.
    pub proof fn lemma_orient_is_signed_permutation(&self, coordinate: Coordinate3<int>)
        ensures
            self.orient(coordinate).abs_components() == coordinate.abs_components(),
    {
        self.lemma_axes_distinct();
        let a = abs_int(coordinate.0);
        let b = abs_int(coordinate.1);
        let c = abs_int(coordinate.2);
        let e = Multiset::<int>::empty();
        assert(e.insert(a).insert(b).insert(c) =~= e.insert(a).insert(c).insert(b));
        assert(e.insert(a).insert(b).insert(c) =~= e.insert(b).insert(a).insert(c));
        assert(e.insert(a).insert(b).insert(c) =~= e.insert(b).insert(c).insert(a));
        assert(e.insert(a).insert(b).insert(c) =~= e.insert(c).insert(a).insert(b));
        assert(e.insert(a).insert(b).insert(c) =~= e.insert(c).insert(b).insert(a));
    }

    /// Orienting a unit step gives the unit step of the oriented direction.
    pub proof fn lemma_orient_direction_agrees(&self, direction: Direction3)
        ensures
            self.orient(direction.unit()) == self.orient_unit(direction).unit(),
    {
    }
}

} // verus!
