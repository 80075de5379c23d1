//! Units, distances, positions and speeds of the machine, in fixed-point
//! integer arithmetic.
//!
//! The canonical length unit is the micrometre (`um`, 1/1000 mm); inch
//! values are exchanged in hundred-thousandths of an inch (1e-5 in), so
//! that one such unit is exactly 127/500 um.  Speeds are micrometres per
//! second, durations are milliseconds.  All constructors clamp into a
//! fixed working range, so every value of these types is well formed.

use vstd::prelude::*;
use vstd::arithmetic::div_mod::{lemma_fundamental_div_mod, lemma_mod_bound};

verus! {

/// Largest magnitude a distance or coordinate may take, in micrometres.
pub const DIST_LIMIT_UM: i64 = 1_000_000_000_000_000;

/// Largest magnitude a speed may take, in micrometres per second.
pub const SPEED_LIMIT_UM_S: i64 = 1_000_000_000_000;

/// Largest inch input (in 1e-5 in) whose conversion does not clamp.
pub const IN_E5_LIMIT: i64 = 3_900_000_000_000_000;

/// Clamp an unbounded integer into `[-limit, limit]`.
pub open spec fn clamp_to(x: int, limit: int) -> int {
    if x > limit {
        limit
    } else if x < -limit {
        -limit
    } else {
        x
    }
}

/// Integer division rounding toward zero, as the conversions do on
/// magnitudes.
pub open spec fn div_tz(a: int, b: int) -> int
    recommends
        b > 0,
{
    if a >= 0 {
        a / b
    } else {
        -((-a) / b)
    }
}

/// The micrometre count `Distance::new` produces for a fixed-point value
/// in the given units.
pub open spec fn spec_dist_um(value_e3: int, units: Units) -> int {
    match units {
        Units::Millimeters => clamp_to(value_e3, DIST_LIMIT_UM as int),
        Units::Inches => clamp_to(div_tz(value_e3 * 100 * 127, 500), DIST_LIMIT_UM as int),
    }
}

/// Integer square root: the largest `r` with `r * r <= n`.
pub fn isqrt_u128(n: u128) -> (r: u64)
    ensures
        r * r <= n,
        n < (r + 1) * (r + 1),
{
    let mut lo: u128 = 0;
    let mut hi: u128 = 18_446_744_073_709_551_615;
    proof {
        assert((hi + 1) * (hi + 1) > n) by (nonlinear_arith)
            requires
                hi == 18_446_744_073_709_551_615,
                n <= 340_282_366_920_938_463_463_374_607_431_768_211_455,
        ;
    }
    // invariant: lo*lo <= n < (hi+1)*(hi+1)
    while lo < hi
        invariant
            0 <= lo <= hi <= 18_446_744_073_709_551_615,
            lo * lo <= n,
            n < (hi + 1) * (hi + 1),
        decreases hi - lo,
    {
        let mid = lo + (hi - lo + 1) / 2;
        proof {
            assert(mid * mid <= 340_282_366_920_938_463_426_481_119_284_349_108_225u128)
                by (nonlinear_arith)
                requires
                    0 <= mid <= 18_446_744_073_709_551_615u128,
            ;
        }
        let sq: u128 = mid * mid;
        if sq <= n {
            lo = mid;
        } else {
            proof {
                assert(n < mid * mid);
                assert(mid * mid <= ((mid - 1) + 1) * ((mid - 1) + 1));
            }
            hi = mid - 1;
        }
    }
    lo as u64
}
#[derive(Debug, Clone, Copy, PartialEq, Eq, Structural)]
pub enum Units {
    Inches,
    Millimeters,
}

impl Default for Units {
    /// Programs start in millimetres.
    fn default() -> (r: Self)
        ensures
            r == Units::Millimeters,
    {
        Units::Millimeters
    }
}

/// Plane in which planar distances are measured.
#[derive(Debug, Clone, Copy, PartialEq, Eq, Structural)]
pub enum ActivePlane {
    XY,
    XZ,
    YZ,
}

impl Default for ActivePlane {
    fn default() -> (r: Self)
        ensures
            r == ActivePlane::XY,
    {
        ActivePlane::XY
    }
}

/// How axis and extrusion words are interpreted.
#[derive(Debug, Clone, Copy, PartialEq, Eq, Structural)]
pub enum PositionMode {
    Relative,
    Absolute,
}

impl Default for PositionMode {
    fn default() -> (r: Self)
        ensures
            r == PositionMode::Relative,
    {
        PositionMode::Relative
    }
}

/// A scalar length in micrometres, clamped to `[-DIST_LIMIT_UM, DIST_LIMIT_UM]`.
#[derive(Debug, Clone, Copy, PartialEq, Eq, Structural)]
pub struct Distance {
    pub um: i64,
}

impl Distance {
    /// The magnitude lies within the working range.
    pub open spec fn wf(self) -> bool {
        -DIST_LIMIT_UM <= self.um <= DIST_LIMIT_UM
    }

    /// Build a distance from micrometres, clamping into the working range.
    pub fn from_um(um: i64) -> (r: Self)
        ensures
            r.wf(),
            r.um == clamp_to(um as int, DIST_LIMIT_UM as int),
    {
        if um > DIST_LIMIT_UM {
            Distance { um: DIST_LIMIT_UM }
        } else if um < -DIST_LIMIT_UM {
            Distance { um: -DIST_LIMIT_UM }
        } else {
            Distance { um }
        }
    }

    /// Build a distance from thousandths of a millimetre (micrometres).
    pub fn from_mm_e3(mm_e3: i64) -> (r: Self)
        ensures
            r.wf(),
            r.um == clamp_to(mm_e3 as int, DIST_LIMIT_UM as int),
    {
        Self::from_um(mm_e3)
    }

    /// Build a distance from hundred-thousandths of an inch (1e-5 in),
    /// converting at 25.4 mm to the inch and rounding toward zero.
    pub fn from_inches_e5(in_e5: i64) -> (r: Self)
        ensures
            r.wf(),
            r.um == clamp_to(div_tz(in_e5 as int * 127, 500), DIST_LIMIT_UM as int),
    {
        if in_e5 >= 4_000_000_000_000_000 {
            proof {
                lemma_div_tz_big(in_e5 as int * 127, 500, DIST_LIMIT_UM as int);
            }
            Distance { um: DIST_LIMIT_UM }
        } else if in_e5 <= -4_000_000_000_000_000 {
            proof {
                lemma_div_tz_big(in_e5 as int * 127, 500, DIST_LIMIT_UM as int);
            }
            Distance { um: -DIST_LIMIT_UM }
        } else if in_e5 >= 0 {
            let m: u64 = (in_e5 as u64) * 127 / 500;
            assert(m == (in_e5 as int * 127) / 500) by (nonlinear_arith)
                requires
                    0 <= in_e5 < 4_000_000_000_000_000,
                    m == ((in_e5 as u64) * 127 / 500) as int,
            ;
            if m > DIST_LIMIT_UM as u64 {
                Distance { um: DIST_LIMIT_UM }
            } else {
                Distance { um: m as i64 }
            }
        } else {
            let neg: i64 = -in_e5;
            let m: u64 = (neg as u64) * 127 / 500;
            assert(m == ((-(in_e5 as int)) * 127) / 500) by (nonlinear_arith)
                requires
                    -4_000_000_000_000_000 < in_e5 < 0,
                    neg == -(in_e5 as int),
                    m == ((neg as u64) * 127 / 500) as int,
            ;
            if m > DIST_LIMIT_UM as u64 {
                Distance { um: -DIST_LIMIT_UM }
            } else {
                Distance { um: -(m as i64) }
            }
        }
    }

    /// Build a distance in the given units: millimetre-thousandths for
    /// `Millimeters`, inch-thousandths for `Inches` (one thousandth of an
    /// inch converts exactly to 25.4 um).
    pub fn new(value_e3: i64, units: &Units) -> (r: Self)
        ensures
            r.wf(),
            r.um == spec_dist_um(value_e3 as int, *units),
    {
        match units {
            Units::Millimeters => Self::from_mm_e3(value_e3),
            Units::Inches => {
                if value_e3 > 40_000_000_000_000_000 {
                    proof {
                        lemma_div_tz_big(value_e3 as int * 100 * 127, 500, DIST_LIMIT_UM as int);
                    }
                    Distance { um: DIST_LIMIT_UM }
                } else if value_e3 < -40_000_000_000_000_000 {
                    proof {
                        lemma_div_tz_big(value_e3 as int * 100 * 127, 500, DIST_LIMIT_UM as int);
                    }
                    Distance { um: -DIST_LIMIT_UM }
                } else {
                    Self::from_inches_e5(value_e3 * 100)
                }
            },
        }
    }

    /// The distance in micrometres.
    pub fn as_um(self) -> (r: i64)
        ensures
            r == self.um,
    {
        self.um
    }

    /// The distance in thousandths of a millimetre.
    pub fn as_mm_e3(self) -> (r: i64)
        ensures
            r == self.um,
    {
        self.um
    }

    /// The distance in hundred-thousandths of an inch, rounded toward zero.
    pub fn as_inches_e5(self) -> (r: i64)
        requires
            self.wf(),
        ensures
            r == div_tz(self.um as int * 500, 127),
    {
        if self.um >= 0 {
            let m: u64 = (self.um as u64) * 500 / 127;
            assert(m == (self.um as int * 500) / 127) by (nonlinear_arith)
                requires
                    0 <= self.um <= DIST_LIMIT_UM,
                    m == ((self.um as u64) * 500 / 127) as int,
            ;
            assert(m <= 4_000_000_000_000_000) by (nonlinear_arith)
                requires
                    m == (self.um as int * 500) / 127,
                    0 <= self.um <= DIST_LIMIT_UM,
            ;
            m as i64
        } else {
            let neg: i64 = -self.um;
            let m: u64 = (neg as u64) * 500 / 127;
            assert(m == ((-(self.um as int)) * 500) / 127) by (nonlinear_arith)
                requires
                    -DIST_LIMIT_UM <= self.um < 0,
                    neg == -(self.um as int),
                    m == ((neg as u64) * 500 / 127) as int,
            ;
            assert(m <= 4_000_000_000_000_000) by (nonlinear_arith)
                requires
                    m == ((-(self.um as int)) * 500) / 127,
                    -DIST_LIMIT_UM <= self.um < 0,
            ;
            -(m as i64)
        }
    }

    /// True exactly when the distance is zero on the micrometre grid.
    pub fn is_zero(self) -> (r: bool)
        ensures
            r == (self.um == 0),
    {
        self.um == 0
    }

    /// Sum of two distances, clamped into the working range.
    pub fn add(self, rhs: Self) -> (r: Self)
        requires
            self.wf(),
            rhs.wf(),
        ensures
            r.wf(),
            r.um == clamp_to(self.um + rhs.um, DIST_LIMIT_UM as int),
    {
        Self::from_um(self.um + rhs.um)
    }

    /// Difference of two distances, clamped into the working range.
    pub fn sub(self, rhs: Self) -> (r: Self)
        requires
            self.wf(),
            rhs.wf(),
        ensures
            r.wf(),
            r.um == clamp_to(self.um - rhs.um, DIST_LIMIT_UM as int),
    {
        Self::from_um(self.um - rhs.um)
    }
}

/// For a quotient beyond the clamping bound the clamp absorbs the division:
/// used where a conversion saturates without computing the full product.
proof fn lemma_div_tz_big(a: int, b: int, limit: int)
    requires
        b > 0,
        limit > 0,
        a > limit * b || a < -(limit * b),
    ensures
        a > limit * b ==> clamp_to(div_tz(a, b), limit) == limit,
        a < -(limit * b) ==> clamp_to(div_tz(a, b), limit) == -limit,
{
    if a > limit * b {
        assert(a / b >= limit) by (nonlinear_arith)
            requires
                b > 0,
                a > limit * b,
        ;
    } else {
        assert((-a) / b >= limit) by (nonlinear_arith)
            requires
                b > 0,
                -a > limit * b,
        ;
    }
}

/// Converting hundred-thousandths of an inch to micrometres and back moves
/// the value by at most ten units, that is, by at most 1e-4 inch.
pub proof fn lemma_inches_round_trip(v: int)
    requires
        -IN_E5_LIMIT <= v <= IN_E5_LIMIT,
    ensures
        clamp_to(div_tz(v * 127, 500), DIST_LIMIT_UM as int) == div_tz(v * 127, 500),
        -10 <= div_tz(div_tz(v * 127, 500) * 500, 127) - v <= 10,
{
    if v >= 0 {
        lemma_inches_round_trip_nonneg(v);
    } else {
        lemma_inches_round_trip_nonneg(-v);
        assert(div_tz(v * 127, 500) == -div_tz((-v) * 127, 500));
        assert(div_tz(div_tz(v * 127, 500) * 500, 127) == -div_tz(
            div_tz((-v) * 127, 500) * 500,
            127,
        ));
    }
}

proof fn lemma_inches_round_trip_nonneg(v: int)
    requires
        0 <= v <= IN_E5_LIMIT,
    ensures
        0 <= div_tz(v * 127, 500) <= DIST_LIMIT_UM,
        -10 <= div_tz(div_tz(v * 127, 500) * 500, 127) - v <= 10,
{
    let um = (v * 127) / 500;
    lemma_fundamental_div_mod(v * 127, 500);
    lemma_mod_bound(v * 127, 500);
    assert(500 * um <= v * 127 < 500 * um + 500);
    assert(0 <= um <= DIST_LIMIT_UM) by (nonlinear_arith)
        requires
            0 <= v <= IN_E5_LIMIT,
            500 * um <= v * 127 < 500 * um + 500,
    ;
    let back = (um * 500) / 127;
    lemma_fundamental_div_mod(um * 500, 127);
    lemma_mod_bound(um * 500, 127);
    assert(127 * back <= um * 500 < 127 * back + 127);
    assert(um * 500 == 500 * um);
    assert(127 * back <= v * 127);
    assert(back <= v);
    assert(127 * back + 127 > 500 * um > v * 127 - 500);
    assert(127 * (v - back) < 627);
    assert(v - back <= 4);
}

/// A floor square root at spec level, named by its defining property.
pub open spec fn spec_sqrt_floor(q: int) -> int {
    choose|r: int| r >= 0 && (#[trigger] (r * r)) <= q < (r + 1) * (r + 1)
}

/// The floor square root is pinned by its bracketing property.
pub proof fn lemma_sqrt_floor_unique(q: int, r: int)
    requires
        r >= 0,
        r * r <= q,
        q < (r + 1) * (r + 1),
    ensures
        spec_sqrt_floor(q) == r,
{
    assert(exists|t: int| t >= 0 && (#[trigger] (t * t)) <= q < (t + 1) * (t + 1)) by {
        assert(r >= 0 && r * r <= q < (r + 1) * (r + 1));
    }
    let c = spec_sqrt_floor(q);
    assert(c >= 0 && c * c <= q < (c + 1) * (c + 1));
    if c < r {
        assert((c + 1) * (c + 1) <= r * r) by (nonlinear_arith)
            requires
                0 <= c < r,
        ;
    } else if r < c {
        assert((r + 1) * (r + 1) <= c * c) by (nonlinear_arith)
            requires
                0 <= r < c,
        ;
    }
}

/// Planar length between two positions: the floor square root of the
/// squared planar distance, clamped into the working range.
pub open spec fn spec_planar_len(a: Position, b: Position, plane: ActivePlane) -> int {
    let s = spec_sqrt_floor(a.spec_planar_dd(b, plane));
    if s >= DIST_LIMIT_UM {
        DIST_LIMIT_UM as int
    } else {
        s
    }
}

/// The square of a bounded magnitude is bounded.
proof fn lemma_square_bound(d: int)
    requires
        0 <= d <= 2_000_000_000_000_000,
    ensures
        d * d <= 4_000_000_000_000_000_000_000_000_000_000,
{
    assert(d * d <= 4_000_000_000_000_000_000_000_000_000_000) by (nonlinear_arith)
        requires
            0 <= d <= 2_000_000_000_000_000,
    ;
}

/// A point of the machine volume, one micrometre coordinate per axis.
#[derive(Debug, Clone, Copy, PartialEq, Eq, Structural)]
pub struct Position {
    pub x_um: i64,
    pub y_um: i64,
    pub z_um: i64,
}

/// The value `Position::add` returns: per-axis clamped sum.
pub open spec fn spec_pos_add(a: Position, b: Position) -> Position {
    Position {
        x_um: clamp_to(a.x_um + b.x_um, DIST_LIMIT_UM as int) as i64,
        y_um: clamp_to(a.y_um + b.y_um, DIST_LIMIT_UM as int) as i64,
        z_um: clamp_to(a.z_um + b.z_um, DIST_LIMIT_UM as int) as i64,
    }
}

impl Position {
    /// All three coordinates lie in the working range.
    pub open spec fn wf(self) -> bool {
        &&& -DIST_LIMIT_UM <= self.x_um <= DIST_LIMIT_UM
        &&& -DIST_LIMIT_UM <= self.y_um <= DIST_LIMIT_UM
        &&& -DIST_LIMIT_UM <= self.z_um <= DIST_LIMIT_UM
    }

    /// The machine origin `(0, 0, 0)`.
    pub fn origin() -> (r: Self)
        ensures
            r.wf(),
            r == (Position { x_um: 0, y_um: 0, z_um: 0 }),
    {
        Position { x_um: 0, y_um: 0, z_um: 0 }
    }

    /// Build a position from per-axis micrometre counts, clamping each.
    pub fn from_um(x_um: i64, y_um: i64, z_um: i64) -> (r: Self)
        ensures
            r.wf(),
            r.x_um == clamp_to(x_um as int, DIST_LIMIT_UM as int),
            r.y_um == clamp_to(y_um as int, DIST_LIMIT_UM as int),
            r.z_um == clamp_to(z_um as int, DIST_LIMIT_UM as int),
    {
        Position {
            x_um: Distance::from_um(x_um).as_um(),
            y_um: Distance::from_um(y_um).as_um(),
            z_um: Distance::from_um(z_um).as_um(),
        }
    }

    pub fn x(&self) -> (r: Distance)
        requires
            self.wf(),
        ensures
            r.wf(),
            r.um == self.x_um,
    {
        Distance { um: self.x_um }
    }

    pub fn y(&self) -> (r: Distance)
        requires
            self.wf(),
        ensures
            r.wf(),
            r.um == self.y_um,
    {
        Distance { um: self.y_um }
    }

    pub fn z(&self) -> (r: Distance)
        requires
            self.wf(),
        ensures
            r.wf(),
            r.um == self.z_um,
    {
        Distance { um: self.z_um }
    }

    /// Move along the x axis: replace the coordinate under `Absolute`,
    /// offset it (clamped) under `Relative`.
    pub fn translate_x(&mut self, dx: Distance, mode: &PositionMode)
        requires
            old(self).wf(),
            dx.wf(),
        ensures
            final(self).wf(),
            mode is Absolute ==> final(self).x_um == dx.um,
            mode is Relative ==> final(self).x_um == clamp_to(
                old(self).x_um + dx.um,
                DIST_LIMIT_UM as int,
            ),
            final(self).y_um == old(self).y_um,
            final(self).z_um == old(self).z_um,
    {
        match mode {
            PositionMode::Absolute => self.x_um = dx.as_um(),
            PositionMode::Relative => self.x_um = Distance::from_um(self.x_um + dx.as_um()).as_um(),
        }
    }

    /// Move along the y axis, as `translate_x` does along x.
    pub fn translate_y(&mut self, dy: Distance, mode: &PositionMode)
        requires
            old(self).wf(),
            dy.wf(),
        ensures
            final(self).wf(),
            mode is Absolute ==> final(self).y_um == dy.um,
            mode is Relative ==> final(self).y_um == clamp_to(
                old(self).y_um + dy.um,
                DIST_LIMIT_UM as int,
            ),
            final(self).x_um == old(self).x_um,
            final(self).z_um == old(self).z_um,
    {
        match mode {
            PositionMode::Absolute => self.y_um = dy.as_um(),
            PositionMode::Relative => self.y_um = Distance::from_um(self.y_um + dy.as_um()).as_um(),
        }
    }

    /// Move along the z axis, as `translate_x` does along x.
    pub fn translate_z(&mut self, dz: Distance, mode: &PositionMode)
        requires
            old(self).wf(),
            dz.wf(),
        ensures
            final(self).wf(),
            mode is Absolute ==> final(self).z_um == dz.um,
            mode is Relative ==> final(self).z_um == clamp_to(
                old(self).z_um + dz.um,
                DIST_LIMIT_UM as int,
            ),
            final(self).x_um == old(self).x_um,
            final(self).y_um == old(self).y_um,
    {
        match mode {
            PositionMode::Absolute => self.z_um = dz.as_um(),
            PositionMode::Relative => self.z_um = Distance::from_um(self.z_um + dz.as_um()).as_um(),
        }
    }

    /// Per-axis sum, each coordinate clamped into the working range.
    pub fn add(self, rhs: Self) -> (r: Self)
        requires
            self.wf(),
            rhs.wf(),
        ensures
            r.wf(),
            r == spec_pos_add(self, rhs),
    {
        Position::from_um(self.x_um + rhs.x_um, self.y_um + rhs.y_um, self.z_um + rhs.z_um)
    }

    /// Squared Euclidean distance to `to`, in square micrometres.
    pub open spec fn spec_dd(self, to: Position) -> int {
        (to.x_um - self.x_um) * (to.x_um - self.x_um) + (to.y_um - self.y_um) * (to.y_um
            - self.y_um) + (to.z_um - self.z_um) * (to.z_um - self.z_um)
    }

    /// Squared distance to `to` within `plane`, in square micrometres.
    pub open spec fn spec_planar_dd(self, to: Position, plane: ActivePlane) -> int {
        match plane {
            ActivePlane::XY => (to.x_um - self.x_um) * (to.x_um - self.x_um) + (to.y_um
                - self.y_um) * (to.y_um - self.y_um),
            ActivePlane::XZ => (to.x_um - self.x_um) * (to.x_um - self.x_um) + (to.z_um
                - self.z_um) * (to.z_um - self.z_um),
            ActivePlane::YZ => (to.y_um - self.y_um) * (to.y_um - self.y_um) + (to.z_um
                - self.z_um) * (to.z_um - self.z_um),
        }
    }

    /// Euclidean distance to `to`: the integer square root of the sum of
    /// squared axis differences, clamped into the working range.
    pub fn distance(&self, to: &Position) -> (r: Distance)
        requires
            self.wf(),
            to.wf(),
        ensures
            r.wf(),
            r.um >= 0,
            r.um * r.um <= self.spec_dd(*to),
            r.um < DIST_LIMIT_UM ==> self.spec_dd(*to) < (r.um + 1) * (r.um + 1),
    {
        let dx = Self::axis_diff(self.x_um, to.x_um);
        let dy = Self::axis_diff(self.y_um, to.y_um);
        let dz = Self::axis_diff(self.z_um, to.z_um);
        proof {
            lemma_square_bound(dx as int);
            lemma_square_bound(dy as int);
            lemma_square_bound(dz as int);
        }
        let dd: u128 = dx * dx + dy * dy + dz * dz;
        let root = isqrt_u128(dd);
        proof {
            assert(dx * dx == (to.x_um - self.x_um) * (to.x_um - self.x_um)) by (nonlinear_arith)
                requires
                    dx == if to.x_um >= self.x_um {
                        to.x_um - self.x_um
                    } else {
                        self.x_um - to.x_um
                    },
            ;
            assert(dy * dy == (to.y_um - self.y_um) * (to.y_um - self.y_um)) by (nonlinear_arith)
                requires
                    dy == if to.y_um >= self.y_um {
                        to.y_um - self.y_um
                    } else {
                        self.y_um - to.y_um
                    },
            ;
            assert(dz * dz == (to.z_um - self.z_um) * (to.z_um - self.z_um)) by (nonlinear_arith)
                requires
                    dz == if to.z_um >= self.z_um {
                        to.z_um - self.z_um
                    } else {
                        self.z_um - to.z_um
                    },
            ;
        }
        if root > DIST_LIMIT_UM as u64 {
            proof {
                assert(DIST_LIMIT_UM * DIST_LIMIT_UM <= root * root) by (nonlinear_arith)
                    requires
                        root > DIST_LIMIT_UM,
                        DIST_LIMIT_UM > 0,
                ;
            }
            Distance { um: DIST_LIMIT_UM }
        } else {
            Distance { um: root as i64 }
        }
    }

    /// Distance to `to` measured within `plane`, clamped as `distance`.
    pub fn planar_distance(&self, to: &Position, plane: &ActivePlane) -> (r: Distance)
        requires
            self.wf(),
            to.wf(),
        ensures
            r.wf(),
            r.um >= 0,
            r.um == spec_planar_len(*self, *to, *plane),
            r.um * r.um <= self.spec_planar_dd(*to, *plane),
            r.um < DIST_LIMIT_UM ==> self.spec_planar_dd(*to, *plane) < (r.um + 1) * (r.um + 1),
    {
        let (a1, a2, b1, b2) = match plane {
            ActivePlane::XY => (self.x_um, to.x_um, self.y_um, to.y_um),
            ActivePlane::XZ => (self.x_um, to.x_um, self.z_um, to.z_um),
            ActivePlane::YZ => (self.y_um, to.y_um, self.z_um, to.z_um),
        };
        let da = Self::axis_diff(a1, a2);
        let db = Self::axis_diff(b1, b2);
        proof {
            lemma_square_bound(da as int);
            lemma_square_bound(db as int);
        }
        let dd: u128 = da * da + db * db;
        let root = isqrt_u128(dd);
        proof {
            assert(da * da == (a2 - a1) * (a2 - a1)) by (nonlinear_arith)
                requires
                    da == if a2 >= a1 {
                        a2 - a1
                    } else {
                        a1 - a2
                    },
            ;
            assert(db * db == (b2 - b1) * (b2 - b1)) by (nonlinear_arith)
                requires
                    db == if b2 >= b1 {
                        b2 - b1
                    } else {
                        b1 - b2
                    },
            ;
        }
        proof {
            lemma_sqrt_floor_unique(self.spec_planar_dd(*to, *plane), root as int);
        }
        if root > DIST_LIMIT_UM as u64 {
            proof {
                assert(DIST_LIMIT_UM * DIST_LIMIT_UM <= root * root) by (nonlinear_arith)
                    requires
                        root > DIST_LIMIT_UM,
                        DIST_LIMIT_UM > 0,
                ;
            }
            Distance { um: DIST_LIMIT_UM }
        } else {
            Distance { um: root as i64 }
        }
    }

    /// Magnitude of the difference of two in-range coordinates.

    fn axis_diff(a: i64, b: i64) -> (r: u128)
        requires
            -DIST_LIMIT_UM <= a <= DIST_LIMIT_UM,
            -DIST_LIMIT_UM <= b <= DIST_LIMIT_UM,
        ensures
            r == if b >= a {
                b - a
            } else {
                a - b
            },
            r <= 2 * DIST_LIMIT_UM,
    {
        if b >= a {
            (b - a) as u128
        } else {
            (a - b) as u128
        }
    }

    /// Per-axis difference, each coordinate clamped into the working range.
    pub fn sub(self, rhs: Self) -> (r: Self)
        requires
            self.wf(),
            rhs.wf(),
        ensures
            r.wf(),
            r.x_um == clamp_to(self.x_um - rhs.x_um, DIST_LIMIT_UM as int),
            r.y_um == clamp_to(self.y_um - rhs.y_um, DIST_LIMIT_UM as int),
            r.z_um == clamp_to(self.z_um - rhs.z_um, DIST_LIMIT_UM as int),
    {
        Position::from_um(self.x_um - rhs.x_um, self.y_um - rhs.y_um, self.z_um - rhs.z_um)
    }
}

impl Default for Position {
    /// Positions default to the origin.
    fn default() -> (r: Self)
        ensures
            r.wf(),
            r == (Position { x_um: 0, y_um: 0, z_um: 0 }),
    {
        Position::origin()
    }
}

/// Position addition is commutative.
pub proof fn lemma_position_add_comm(a: Position, b: Position)
    ensures
        spec_pos_add(a, b) == spec_pos_add(b, a),
{
}

/// The origin is the identity of position addition.
pub proof fn lemma_position_add_origin(p: Position)
    requires
        p.wf(),
    ensures
        spec_pos_add(p, Position { x_um: 0, y_um: 0, z_um: 0 }) == p,
{
}

/// Position addition is associative wherever no coordinate saturates:
/// on sums that stay inside the working range the clamp is inert.
pub proof fn lemma_position_add_assoc(a: Position, b: Position, c: Position)
    requires
        -DIST_LIMIT_UM <= a.x_um + b.x_um <= DIST_LIMIT_UM,
        -DIST_LIMIT_UM <= a.y_um + b.y_um <= DIST_LIMIT_UM,
        -DIST_LIMIT_UM <= a.z_um + b.z_um <= DIST_LIMIT_UM,
        -DIST_LIMIT_UM <= b.x_um + c.x_um <= DIST_LIMIT_UM,
        -DIST_LIMIT_UM <= b.y_um + c.y_um <= DIST_LIMIT_UM,
        -DIST_LIMIT_UM <= b.z_um + c.z_um <= DIST_LIMIT_UM,
        -DIST_LIMIT_UM <= a.x_um + b.x_um + c.x_um <= DIST_LIMIT_UM,
        -DIST_LIMIT_UM <= a.y_um + b.y_um + c.y_um <= DIST_LIMIT_UM,
        -DIST_LIMIT_UM <= a.z_um + b.z_um + c.z_um <= DIST_LIMIT_UM,
    ensures
        spec_pos_add(spec_pos_add(a, b), c) == spec_pos_add(a, spec_pos_add(b, c)),
{
}

/// A signed speed in micrometres per second, clamped to the working range.
#[derive(Debug, Clone, Copy, PartialEq, Eq, Structural)]
pub struct Speed {
    pub um_s: i64,
}

impl Speed {
    /// The magnitude lies within the working range.
    pub open spec fn wf(self) -> bool {
        -SPEED_LIMIT_UM_S <= self.um_s <= SPEED_LIMIT_UM_S
    }

    /// Build a speed from micrometres per second, clamping.
    pub fn from_um_per_s(um_s: i64) -> (r: Self)
        ensures
            r.wf(),
            r.um_s == clamp_to(um_s as int, SPEED_LIMIT_UM_S as int),
    {
        if um_s > SPEED_LIMIT_UM_S {
            Speed { um_s: SPEED_LIMIT_UM_S }
        } else if um_s < -SPEED_LIMIT_UM_S {
            Speed { um_s: -SPEED_LIMIT_UM_S }
        } else {
            Speed { um_s }
        }
    }

    /// Build a speed from thousandths of a millimetre per second.
    pub fn from_mm_e3_per_s(v: i64) -> (r: Self)
        ensures
            r.wf(),
            r.um_s == clamp_to(v as int, SPEED_LIMIT_UM_S as int),
    {
        Self::from_um_per_s(v)
    }

    /// Speed covering `d` in `t_ms` milliseconds; zero when no time passes.
    pub fn from_distance_time(d: Distance, t_ms: u64) -> (r: Self)
        requires
            d.wf(),
        ensures
            r.wf(),
            t_ms == 0 ==> r.um_s == 0,
            t_ms > 0 ==> r.um_s == clamp_to(
                div_tz(d.um as int * 1000, t_ms as int),
                SPEED_LIMIT_UM_S as int,
            ),
    {
        if t_ms == 0 {
            Speed { um_s: 0 }
        } else if d.um >= 0 {
            let num: u128 = (d.um as u128) * 1000;
            let q: u128 = num / (t_ms as u128);
            assert(q == (d.um as int * 1000) / (t_ms as int)) by (nonlinear_arith)
                requires
                    0 <= d.um,
                    t_ms > 0,
                    num == d.um as int * 1000,
                    q == num as int / (t_ms as int),
            ;
            if q > SPEED_LIMIT_UM_S as u128 {
                Speed { um_s: SPEED_LIMIT_UM_S }
            } else {
                Speed { um_s: q as i64 }
            }
        } else {
            let neg: i64 = -d.um;
            let num: u128 = (neg as u128) * 1000;
            let q: u128 = num / (t_ms as u128);
            assert(q == ((-(d.um as int)) * 1000) / (t_ms as int)) by (nonlinear_arith)
                requires
                    d.um < 0,
                    t_ms > 0,
                    neg == -(d.um as int),
                    num == neg as int * 1000,
                    q == num as int / (t_ms as int),
            ;
            if q > SPEED_LIMIT_UM_S as u128 {
                Speed { um_s: -SPEED_LIMIT_UM_S }
            } else {
                Speed { um_s: -(q as i64) }
            }
        }
    }

    /// The speed in micrometres per second.
    pub fn as_um_per_s(self) -> (r: i64)
        ensures
            r == self.um_s,
    {
        self.um_s
    }

    /// True exactly when the speed is zero on the grid.
    pub fn is_zero(self) -> (r: bool)
        ensures
            r == (self.um_s == 0),
    {
        self.um_s == 0
    }
}

impl Default for Speed {
    /// Speeds default to zero.
    fn default() -> (r: Self)
        ensures
            r.wf(),
            r.um_s == 0,
    {
        Speed { um_s: 0 }
    }
}

/// Milliseconds needed to cover `d` at speed `s`; zero for a speed that is
/// zero or negative, as for a zero-length move.
pub fn duration_ms(d: Distance, s: Speed) -> (r: u64)
    requires
        d.wf(),
        d.um >= 0,
    ensures
        s.um_s <= 0 ==> r == 0,
        s.um_s > 0 ==> r == d.um as int * 1000 / s.um_s as int,
{
    if s.um_s <= 0 {
        0
    } else {
        let num: u128 = (d.um as u128) * 1000;
        let q: u128 = num / (s.um_s as u128);
        assert(q == d.um as int * 1000 / (s.um_s as int)) by (nonlinear_arith)
            requires
                0 <= d.um,
                s.um_s > 0,
                num == d.um as int * 1000,
                q == num as int / (s.um_s as int),
        ;
        assert(q <= d.um as int * 1000) by (nonlinear_arith)
            requires
                q == d.um as int * 1000 / (s.um_s as int),
                s.um_s >= 1,
                0 <= d.um,
        ;
        q as u64
    }
}

} // verus!
