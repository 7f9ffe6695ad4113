//! Fixed-point plane vectors, angles held as directions, and distances.

use vstd::prelude::*;

verus! {

/// Micro-units in one arena unit.
pub const UNIT: i64 = 1_000_000;

/// Largest magnitude a coordinate may take, in micro-units.
pub const COORD_MAX: i64 = 1_000_000_000_000;

/// Whether `v` lies in the coordinate range.
pub open spec fn in_range(v: int) -> bool {
    -COORD_MAX <= v <= COORD_MAX
}

/// The coordinate nearest to `v`.
pub open spec fn clamp_coord(v: int) -> int {
    if v < -COORD_MAX {
        -COORD_MAX
    } else if v > COORD_MAX {
        COORD_MAX as int
    } else {
        v
    }
}

/// The magnitude of `v`.
pub open spec fn magnitude(v: int) -> int {
    if v < 0 {
        -v
    } else {
        v
    }
}

/// `n / d` with the fraction dropped, for a positive `d`.
pub open spec fn div_toward_zero(n: int, d: int) -> int {
    if n >= 0 {
        n / d
    } else {
        -((-n) / d)
    }
}

/// A product is no larger in magnitude than the product of bounds on its
/// factors.
pub proof fn lemma_product_bounds(a: int, b: int, a_max: int, b_max: int)
    requires
        -a_max <= a <= a_max,
        -b_max <= b <= b_max,
    ensures
        -(a_max * b_max) <= a * b <= a_max * b_max,
{
    assert(-(a_max * b_max) <= a * b <= a_max * b_max) by (nonlinear_arith)
        requires
            -a_max <= a <= a_max,
            -b_max <= b <= b_max,
    ;
}

/// No square is negative.
pub proof fn lemma_square_is_not_negative(a: int)
    ensures
        a * a >= 0,
{
    assert(a * a >= 0) by (nonlinear_arith);
}

/// Brings a wide intermediate result back into the coordinate range.
pub fn clamp(v: i128) -> (r: i64)
    ensures
        r == clamp_coord(v as int),
{
    if v < -(COORD_MAX as i128) {
        -COORD_MAX
    } else if v > COORD_MAX as i128 {
        COORD_MAX
    } else {
        v as i64
    }
}

/// A point or displacement in the plane, in micro-units.
#[derive(Clone, Copy, Debug, PartialEq, Eq, Structural)]
pub struct Vec2 {
    pub x: i64,
    pub y: i64,
}

impl Vec2 {
    /// Both coordinates lie in the coordinate range.
    pub open spec fn wf(self) -> bool {
        in_range(self.x as int) && in_range(self.y as int)
    }

    /// The sum of two vectors, each coordinate stopping at the range's ends.
    pub open spec fn plus(self, other: Vec2) -> Vec2 {
        Vec2 {
            x: clamp_coord(self.x + other.x) as i64,
            y: clamp_coord(self.y + other.y) as i64,
        }
    }

    /// The vector stretched by `factor`, each coordinate stopping at the
    /// range's ends.
    pub open spec fn times(self, factor: int) -> Vec2 {
        Vec2 {
            x: clamp_coord(self.x * factor) as i64,
            y: clamp_coord(self.y * factor) as i64,
        }
    }

    /// The opposite vector.
    pub open spec fn negated(self) -> Vec2 {
        Vec2 { x: (-self.x) as i64, y: (-self.y) as i64 }
    }

    /// Half of the vector, fractions dropped.
    pub open spec fn halved(self) -> Vec2 {
        Vec2 {
            x: div_toward_zero(self.x as int, 2) as i64,
            y: div_toward_zero(self.y as int, 2) as i64,
        }
    }

    /// The vector nearest to `(x, y)` that lies in the coordinate range.
    pub fn new(x: i64, y: i64) -> (r: Vec2)
        ensures
            r.wf(),
            r.x == clamp_coord(x as int),
            r.y == clamp_coord(y as int),
    {
        Vec2 { x: clamp(x as i128), y: clamp(y as i128) }
    }

    /// Tells whether both coordinates lie in the coordinate range.
    pub fn is_wf(&self) -> (r: bool)
        ensures
            r == self.wf(),
    {
        -COORD_MAX <= self.x && self.x <= COORD_MAX && -COORD_MAX <= self.y && self.y
            <= COORD_MAX
    }

    /// Adds `other`, stopping at the ends of the coordinate range.
    pub fn add(&self, other: &Vec2) -> (r: Vec2)
        requires
            self.wf(),
            other.wf(),
        ensures
            r == self.plus(*other),
            r.wf(),
    {
        Vec2 {
            x: clamp(self.x as i128 + other.x as i128),
            y: clamp(self.y as i128 + other.y as i128),
        }
    }

    /// Stretches the vector by `factor`, stopping at the ends of the
    /// coordinate range.
    pub fn scale(&self, factor: i64) -> (r: Vec2)
        requires
            self.wf(),
        ensures
            r == self.times(factor as int),
            r.wf(),
    {
        let x: i128 = self.x as i128;
        let y: i128 = self.y as i128;
        let f: i128 = factor as i128;
        proof {
            lemma_product_bounds(x as int, f as int, COORD_MAX as int, 0x8000_0000_0000_0000);
            lemma_product_bounds(y as int, f as int, COORD_MAX as int, 0x8000_0000_0000_0000);
        }
        Vec2 { x: clamp(x * f), y: clamp(y * f) }
    }

    /// Turns the vector round.
    pub fn neg(&self) -> (r: Vec2)
        requires
            self.wf(),
        ensures
            r == self.negated(),
            r.wf(),
    {
        Vec2 { x: -self.x, y: -self.y }
    }

    /// Halves the vector, dropping fractions.
    pub fn half(&self) -> (r: Vec2)
        requires
            self.wf(),
        ensures
            r == self.halved(),
            r.wf(),
    {
        Vec2 { x: self.x / 2, y: self.y / 2 }
    }
}

impl Default for Vec2 {
    /// The origin.
    fn default() -> (r: Vec2)
        ensures
            r == (Vec2 { x: 0, y: 0 }),
    {
        Vec2 { x: 0, y: 0 }
    }
}

/// The square of the distance between `a` and `b`.
pub open spec fn distance_squared(a: Vec2, b: Vec2) -> int {
    (a.x - b.x) * (a.x - b.x) + (a.y - b.y) * (a.y - b.y)
}

/// Whether `a` and `b` are at most `reach` apart; never so for a negative
/// `reach`.
pub open spec fn within_reach(a: Vec2, b: Vec2, reach: int) -> bool {
    reach >= 0 && distance_squared(a, b) <= reach * reach
}

/// Advances `position` by one step of `velocity`.
pub fn move_with_velocity(position: &mut Vec2, velocity: &Vec2)
    requires
        old(position).wf(),
        velocity.wf(),
    ensures
        *final(position) == old(position).plus(*velocity),
        final(position).wf(),
{
    position.x = clamp(position.x as i128 + velocity.x as i128);
    position.y = clamp(position.y as i128 + velocity.y as i128);
}

/// Computes the square of the distance between `a` and `b`.
pub fn get_length_squared(a: &Vec2, b: &Vec2) -> (r: i128)
    requires
        a.wf(),
        b.wf(),
    ensures
        r == distance_squared(*a, *b),
{
    let dx: i128 = a.x as i128 - b.x as i128;
    let dy: i128 = a.y as i128 - b.y as i128;
    proof {
        lemma_product_bounds(dx as int, dx as int, 2 * COORD_MAX, 2 * COORD_MAX);
        lemma_product_bounds(dy as int, dy as int, 2 * COORD_MAX, 2 * COORD_MAX);
        lemma_square_is_not_negative(dx as int);
        lemma_square_is_not_negative(dy as int);
    }
    dx * dx + dy * dy
}

/// Tells whether `a` and `b` are at most `reach` apart, the bound included.
pub fn is_within_reach(a: &Vec2, b: &Vec2, reach: i64) -> (r: bool)
    requires
        a.wf(),
        b.wf(),
    ensures
        r == within_reach(*a, *b, reach as int),
{
    if reach < 0 {
        return false;
    }
    let limit: i128 = reach as i128;
    proof {
        lemma_product_bounds(
            limit as int,
            limit as int,
            0x8000_0000_0000_0000,
            0x8000_0000_0000_0000,
        );
    }
    get_length_squared(a, b) <= limit * limit
}

/// Whether `share` is the whole part of `UNIT * part / sqrt(square)`, for a
/// `part` that is not negative: `share / UNIT` is then the cosine of the angle
/// between a vector of squared length `square` and an axis along which it
/// extends by `part`, cut off after the sixth decimal.
pub open spec fn is_unit_share(share: int, part: int, square: int) -> bool {
    &&& 0 <= share
    &&& share * share * square <= UNIT * UNIT * (part * part)
    &&& UNIT * UNIT * (part * part) < (share + 1) * (share + 1) * square
}

/// The whole part of `UNIT * part / sqrt(square)`.
pub open spec fn unit_share(part: int, square: int) -> int {
    choose|share: int| is_unit_share(share, part, square)
}

/// `share` with the sign of `of`.
pub open spec fn signed_as(share: int, of: int) -> int {
    if of < 0 {
        -share
    } else {
        share
    }
}

/// At most one number is the whole part of `UNIT * part / sqrt(square)`.
pub proof fn lemma_unit_share_unique(a: int, b: int, part: int, square: int)
    requires
        square > 0,
        is_unit_share(a, part, square),
        is_unit_share(b, part, square),
    ensures
        a == b,
{
    if a < b {
        assert((a + 1) * (a + 1) * square <= b * b * square) by (nonlinear_arith)
            requires
                0 <= a + 1 <= b,
                square > 0,
        ;
    } else if b < a {
        assert((b + 1) * (b + 1) * square <= a * a * square) by (nonlinear_arith)
            requires
                0 <= b + 1 <= a,
                square > 0,
        ;
    }
}

/// A number found to be the whole part of `UNIT * part / sqrt(square)` is the
/// one that `unit_share` names.
pub proof fn lemma_unit_share_found(share: int, part: int, square: int)
    requires
        square > 0,
        is_unit_share(share, part, square),
    ensures
        share == unit_share(part, square),
{
    lemma_unit_share_unique(share, unit_share(part, square), part, square);
}

/// Between a number whose square times `square` does not exceed the target
/// and a larger one whose square times `square` does, there is the whole part
/// of `UNIT * part / sqrt(square)`.
proof fn lemma_unit_share_between(part: int, square: int, low: int, high: int) -> (share: int)
    requires
        square > 0,
        0 <= low < high,
        low * low * square <= UNIT * UNIT * (part * part),
        UNIT * UNIT * (part * part) < high * high * square,
    ensures
        is_unit_share(share, part, square),
        low <= share < high,
    decreases high - low,
{
    if high == low + 1 {
        low
    } else if (low + 1) * (low + 1) * square <= UNIT * UNIT * (part * part) {
        lemma_unit_share_between(part, square, low + 1, high)
    } else {
        low
    }
}

/// For a vector that is not null and a `part` that is the magnitude of one of
/// its coordinates, `unit_share` is the whole part of
/// `UNIT * part / sqrt(square)`, and it is at most `UNIT`.
pub proof fn lemma_unit_share(part: int, square: int)
    requires
        0 <= part,
        part * part <= square,
        square > 0,
    ensures
        is_unit_share(unit_share(part, square), part, square),
        0 <= unit_share(part, square) <= UNIT,
{
    let scale = UNIT * UNIT;
    assert(scale == 1_000_000_000_000);
    assert((UNIT + 1) * (UNIT + 1) * square > scale * (part * part)) by (nonlinear_arith)
        requires
            0 <= part * part <= square,
            square > 0,
            scale == 1_000_000_000_000,
            UNIT == 1_000_000,
    ;
    assert(0 * 0 * square <= scale * (part * part)) by (nonlinear_arith)
        requires
            0 <= part * part,
            scale > 0,
    ;
    let share = lemma_unit_share_between(part, square, 0, UNIT + 1);
    lemma_unit_share_found(share, part, square);
}

/// The unit vector along an angle is one unit long, to within a micro-unit
/// on each axis: it is no longer than `UNIT`, and would be longer with one
/// micro-unit more on each axis.
pub proof fn lemma_unit_vector_length(rotation: Rotation)
    ensures
        ({
            let unit = rotation.unit_vector();
            let x = magnitude(unit.x as int);
            let y = magnitude(unit.y as int);
            &&& x * x + y * y <= UNIT * UNIT
            &&& (x + 1) * (x + 1) + (y + 1) * (y + 1) > UNIT * UNIT
        }),
{
    if rotation.x == 0 && rotation.y == 0 {
        assert(UNIT * UNIT + 0 * 0 <= UNIT * UNIT);
        assert((UNIT + 1) * (UNIT + 1) + (0 + 1) * (0 + 1) > UNIT * UNIT) by (nonlinear_arith);
    } else {
        let across = magnitude(rotation.x as int);
        let up = magnitude(rotation.y as int);
        let square = rotation.x * rotation.x + rotation.y * rotation.y;
        assert(across * across == rotation.x * rotation.x) by (nonlinear_arith)
            requires
                across == rotation.x || across == -rotation.x,
        ;
        assert(up * up == rotation.y * rotation.y) by (nonlinear_arith)
            requires
                up == rotation.y || up == -rotation.y,
        ;
        lemma_square_is_not_negative(across);
        lemma_square_is_not_negative(up);
        assert(square > 0) by (nonlinear_arith)
            requires
                square == rotation.x * rotation.x + rotation.y * rotation.y,
                rotation.x != 0 || rotation.y != 0,
        ;
        lemma_unit_share(across, square);
        lemma_unit_share(up, square);
        let x = unit_share(across, square);
        let y = unit_share(up, square);
        assert(magnitude(rotation.unit_vector().x as int) == x);
        assert(magnitude(rotation.unit_vector().y as int) == y);
        let scale = UNIT * UNIT;
        assert(x * x + y * y <= scale) by (nonlinear_arith)
            requires
                square > 0,
                x * x * square <= scale * (across * across),
                y * y * square <= scale * (up * up),
                across * across + up * up == square,
        ;
        assert((x + 1) * (x + 1) + (y + 1) * (y + 1) > scale) by (nonlinear_arith)
            requires
                square > 0,
                scale * (across * across) < (x + 1) * (x + 1) * square,
                scale * (up * up) < (y + 1) * (y + 1) * square,
                across * across + up * up == square,
        ;
    }
}

/// Along the positive x axis the unit vector is `(UNIT, 0)`, whatever the
/// length of the vector that holds the angle.
pub proof fn lemma_unit_vector_along_x(length: i64)
    requires
        length > 0,
    ensures
        (Rotation { x: length, y: 0 }).unit_vector() == (Vec2 { x: UNIT, y: 0 }),
{
    let square = length * length + 0 * 0;
    assert(square == length * length);
    assert(square > 0) by (nonlinear_arith)
        requires
            square == length * length,
            length > 0,
    ;
    assert(is_unit_share(UNIT as int, length as int, square)) by (nonlinear_arith)
        requires
            square == length * length,
            square > 0,
            UNIT == 1_000_000,
    ;
    lemma_unit_share_found(UNIT as int, length as int, square);
    assert(is_unit_share(0, 0, square)) by (nonlinear_arith)
        requires
            square > 0,
    ;
    lemma_unit_share_found(0, 0, square);
}

/// Finds the whole part of `UNIT * part / sqrt(square)` by bisection.
fn find_unit_share(part: i128, square: i128) -> (share: i64)
    requires
        0 <= part <= 2_000_000_000_000,
        part * part <= square <= 8_000_000_000_000_000_000_000_000,
        square > 0,
    ensures
        share == unit_share(part as int, square as int),
        0 <= share <= UNIT,
{
    proof {
        lemma_product_bounds(part as int, part as int, 2_000_000_000_000, 2_000_000_000_000);
        lemma_square_is_not_negative(part as int);
    }
    let part_squared: i128 = part * part;
    let scale: i128 = 1_000_000_000_000;
    assert(scale == UNIT * UNIT);
    proof {
        lemma_product_bounds(
            scale as int,
            part_squared as int,
            1_000_000_000_000,
            4_000_000_000_000_000_000_000_000,
        );
    }
    let target: i128 = scale * part_squared;
    let mut low: i128 = 0;
    let mut high: i128 = 1_000_001;
    proof {
        assert(1_000_001 * 1_000_001 * square > scale * part_squared) by (nonlinear_arith)
            requires
                0 <= part_squared <= square,
                square > 0,
                scale == 1_000_000_000_000,
        ;
        assert(0 * 0 * square == 0);
        assert(target >= 0) by (nonlinear_arith)
            requires
                target == scale * part_squared,
                part_squared >= 0,
                scale > 0,
        ;
    }
    while high - low > 1
        invariant
            0 <= low < high <= 1_000_001,
            0 < square <= 8_000_000_000_000_000_000_000_000,
            target == UNIT * UNIT * (part * part),
            low * low * square <= target,
            target < high * high * square,
        decreases high - low,
    {
        let middle: i128 = low + (high - low) / 2;
        proof {
            lemma_product_bounds(middle as int, middle as int, 1_000_001, 1_000_001);
            lemma_square_is_not_negative(middle as int);
            lemma_product_bounds(
                middle * middle,
                square as int,
                1_000_002_000_001,
                8_000_000_000_000_000_000_000_000,
            );
        }
        if middle * middle * square <= target {
            low = middle;
        } else {
            high = middle;
        }
    }
    proof {
        assert(high == low + 1);
        assert(is_unit_share(low as int, part as int, square as int));
        lemma_unit_share_found(low as int, part as int, square as int);
    }
    low as i64
}

/// An angle, held exactly as a vector that points along it: the angle from
/// the positive x axis to `(x, y)`, which is what the two-argument arctangent
/// of `y` and `x` gives. The null vector stands for the angle zero, as it does
/// for that arctangent.
#[derive(Clone, Copy, Debug, PartialEq, Eq, Structural)]
pub struct Rotation {
    pub x: i64,
    pub y: i64,
}

impl Rotation {
    /// Each coordinate is one that the difference of two coordinates in range
    /// can take.
    pub open spec fn wf(self) -> bool {
        &&& -2 * COORD_MAX <= self.x <= 2 * COORD_MAX
        &&& -2 * COORD_MAX <= self.y <= 2 * COORD_MAX
    }

    /// The angle along `v`.
    pub open spec fn along(v: Vec2) -> Rotation {
        Rotation { x: v.x, y: v.y }
    }

    /// The angle at which `to` is seen from `from`.
    pub open spec fn facing(from: Vec2, to: Vec2) -> Rotation {
        Rotation { x: (to.x - from.x) as i64, y: (to.y - from.y) as i64 }
    }

    /// The vector of length `UNIT` along the angle, which is `UNIT` times its
    /// cosine and sine, each cut off after the last micro-unit.
    pub open spec fn unit_vector(self) -> Vec2 {
        if self.x == 0 && self.y == 0 {
            Vec2 { x: UNIT, y: 0 }
        } else {
            let square = self.x * self.x + self.y * self.y;
            Vec2 {
                x: signed_as(unit_share(magnitude(self.x as int), square), self.x as int) as i64,
                y: signed_as(unit_share(magnitude(self.y as int), square), self.y as int) as i64,
            }
        }
    }

    /// Tells whether the angle is well formed.
    pub fn is_wf(&self) -> (r: bool)
        ensures
            r == self.wf(),
    {
        -2 * COORD_MAX <= self.x && self.x <= 2 * COORD_MAX && -2 * COORD_MAX <= self.y
            && self.y <= 2 * COORD_MAX
    }

    /// The angle along `v`.
    pub fn of(v: &Vec2) -> (r: Rotation)
        ensures
            r == Rotation::along(*v),
            v.wf() ==> r.wf(),
    {
        Rotation { x: v.x, y: v.y }
    }

    /// The angle at which `to` is seen from `from`.
    pub fn toward(from: &Vec2, to: &Vec2) -> (r: Rotation)
        requires
            from.wf(),
            to.wf(),
        ensures
            r == Rotation::facing(*from, *to),
            r.x == to.x - from.x,
            r.y == to.y - from.y,
            r.wf(),
    {
        Rotation { x: to.x - from.x, y: to.y - from.y }
    }

    /// Computes the vector of length `UNIT` along the angle.
    pub fn unit(&self) -> (r: Vec2)
        requires
            self.wf(),
        ensures
            r == self.unit_vector(),
            -UNIT <= r.x <= UNIT,
            -UNIT <= r.y <= UNIT,
            r.wf(),
    {
        if self.x == 0 && self.y == 0 {
            return Vec2 { x: UNIT, y: 0 };
        }
        let x: i128 = self.x as i128;
        let y: i128 = self.y as i128;
        let across: i128 = if x < 0 {
            -x
        } else {
            x
        };
        let up: i128 = if y < 0 {
            -y
        } else {
            y
        };
        proof {
            lemma_product_bounds(x as int, x as int, 2_000_000_000_000, 2_000_000_000_000);
            lemma_product_bounds(y as int, y as int, 2_000_000_000_000, 2_000_000_000_000);
            lemma_square_is_not_negative(x as int);
            lemma_square_is_not_negative(y as int);
            assert(across * across == x * x) by (nonlinear_arith)
                requires
                    across == x || across == -x,
            ;
            assert(up * up == y * y) by (nonlinear_arith)
                requires
                    up == y || up == -y,
            ;
            assert(x * x + y * y > 0) by (nonlinear_arith)
                requires
                    x != 0 || y != 0,
            ;
        }
        let square: i128 = x * x + y * y;
        let along_x: i64 = find_unit_share(across, square);
        let along_y: i64 = find_unit_share(up, square);
        Vec2 {
            x: if x < 0 {
                -along_x
            } else {
                along_x
            },
            y: if y < 0 {
                -along_y
            } else {
                along_y
            },
        }
    }
}

impl Default for Rotation {
    /// The angle zero: along the positive x axis.
    fn default() -> (r: Rotation)
        ensures
            r == (Rotation { x: 1, y: 0 }),
    {
        Rotation { x: 1, y: 0 }
    }
}

} // verus!
