//! Great-circle distances in integer arithmetic.
//!
//! The distance between two points follows the haversine formula. Angles
//! come in as millionths of a degree. Everything between is computed in
//! fixed point with fifteen decimal places: sines from a series in nested
//! form, square roots exactly, and the arctangent from a series after its
//! argument has been brought below the tangent of 22.5 degrees. Every
//! rounding cuts off.

use vstd::prelude::*;

verus! {

/// The fixed-point unit: a real number `x` is held as the integer `x * ONE`,
/// cut off.
pub const ONE: u64 = 1_000_000_000_000_000;

/// Pi, in fixed point.
pub const PI: u64 = 3_141_592_653_589_793;

/// The tangent of an eighth of a half turn (22.5 degrees), in fixed point.
pub const TAN_EIGHTH: u64 = 414_213_562_373_095;

/// A quarter turn, 90 degrees, in millionths of a degree.
pub const QUARTER_TURN: u64 = 90_000_000;

/// Half a turn, 180 degrees, in millionths of a degree.
pub const HALF_TURN: u64 = 180_000_000;

/// A full turn, 360 degrees, in millionths of a degree.
pub const FULL_TURN: u64 = 360_000_000;

/// Mean radius of the Earth, in kilometres.
pub const EARTH_RADIUS_KM: u64 = 6371;

/// No two points of the sphere are further apart than half its
/// circumference, in kilometres.
pub const MAX_DISTANCE_KM: u64 = 20_015;

/// Number of terms kept of the sine series.
pub const SINE_TERMS: u64 = 12;

/// Number of terms kept of the arctangent series.
pub const ARCTAN_TERMS: u64 = 24;

/// Product of two fixed-point numbers.
pub open spec fn fx_mul(x: int, y: int) -> int {
    x * y / (ONE as int)
}

/// How far `x` and `y` are apart.
pub open spec fn abs_diff(x: int, y: int) -> int {
    if x <= y {
        y - x
    } else {
        x - y
    }
}

/// `x`, or one where `x` is more than one.
pub open spec fn at_most_one(x: int) -> int {
    if x <= ONE {
        x
    } else {
        ONE as int
    }
}

/// The sine series in nested form: with `h2` the square of an angle `h`,
/// `sin h = h * q(1)` where `q(k) = 1 - h2 / (2k (2k + 1)) * q(k + 1)`, and
/// the nesting stops after `SINE_TERMS` levels.
pub open spec fn sine_factor(h2: int, k: int) -> int
    decreases SINE_TERMS + 1 - k,
{
    if k < 1 || k > SINE_TERMS {
        ONE as int
    } else {
        ONE - fx_mul(h2, sine_factor(h2, k + 1)) / ((2 * k) * (2 * k + 1))
    }
}

/// The haversine of an angle of `angle` millionths of a degree, between
/// nothing and half a turn: the square of the sine of half the angle.
pub open spec fn haversine(angle: int) -> int {
    let half = angle * PI / (FULL_TURN as int);
    let sine = fx_mul(half, sine_factor(fx_mul(half, half), 1));
    at_most_one(fx_mul(sine, sine))
}

/// The cosine of an angle between nothing and a quarter turn.
pub open spec fn cosine(angle: int) -> int {
    ONE - at_most_one(2 * haversine(angle))
}

/// The haversine of the central angle between two points, by the haversine
/// formula: `hav(dlat) + cos(lat1) * cos(lat2) * hav(dlon)`.
pub open spec fn central_haversine(lat1: int, lon1: int, lat2: int, lon2: int) -> int {
    let dlat = abs_diff(lat1, lat2);
    let turned = abs_diff(lon1, lon2);
    let dlon = if turned > HALF_TURN {
        FULL_TURN - turned
    } else {
        turned
    };
    at_most_one(
        haversine(dlat) + fx_mul(
            fx_mul(cosine(abs_diff(0, lat1)), cosine(abs_diff(0, lat2))),
            haversine(dlon),
        ),
    )
}

/// `r` is the square root of `x`, cut off.
pub open spec fn is_floor_sqrt(x: int, r: int) -> bool {
    0 <= r && r * r <= x < (r + 1) * (r + 1)
}

/// The square root of `x`, cut off.
pub open spec fn floor_sqrt(x: int) -> int {
    choose|r: int| is_floor_sqrt(x, r)
}

/// The arctangent series in nested form: with `w2` the square of `w`,
/// `atan w = w * r(0)` where `r(k) = 1 / (2k + 1) - w2 * r(k + 1)`, and the
/// nesting stops after `ARCTAN_TERMS` levels.
pub open spec fn arctan_factor(w2: int, k: int) -> int
    decreases ARCTAN_TERMS + 1 - k,
{
    if k < 0 || k > ARCTAN_TERMS {
        0
    } else {
        (ONE as int) / (2 * k + 1) - fx_mul(w2, arctan_factor(w2, k + 1))
    }
}

/// The arctangent of `w`, read off the series. It is close for small `w`.
pub open spec fn arctan_series(w: int) -> int {
    fx_mul(w, arctan_factor(fx_mul(w, w), 0))
}

/// The arctangent of `u` between 0 and 1. Above `TAN_EIGHTH` the series is
/// applied to `(1 - u) / (1 + u)`, whose arctangent is an eighth of a turn
/// less the arctangent of `u`.
pub open spec fn arctan_unit(u: int) -> int {
    if u <= TAN_EIGHTH {
        arctan_series(u)
    } else {
        PI / 4 - arctan_series((ONE - u) * ONE / (ONE + u))
    }
}

/// A quarter of the central angle whose haversine is `a`, in radians: with
/// `s` and `t` the square roots of `a` and `1 - a`, the sine and cosine of
/// half the angle, it is the arctangent of `s / (1 + t)`.
pub open spec fn quarter_angle(a: int) -> int {
    let s = floor_sqrt(a * ONE);
    let t = floor_sqrt((ONE - a) * ONE);
    arctan_unit(s * ONE / (ONE + t))
}

/// Great-circle distance in whole kilometres, cut off, between two points
/// given in millionths of a degree, on a sphere of radius
/// `EARTH_RADIUS_KM`.
pub open spec fn great_circle_km(lat1: int, lon1: int, lat2: int, lon2: int) -> int {
    EARTH_RADIUS_KM * 4 * quarter_angle(central_haversine(lat1, lon1, lat2, lon2)) / (ONE as int)
}

/// A product of two numbers that are not negative is not negative, and a
/// factor of at most one does not make the other larger.
proof fn lemma_fx_mul_bounds(x: int, y: int)
    requires
        0 <= x,
        0 <= y,
    ensures
        0 <= fx_mul(x, y),
        x <= ONE ==> fx_mul(x, y) <= y,
        y <= ONE ==> fx_mul(x, y) <= x,
{
    let one = ONE as int;
    assert(0 <= x * y) by (nonlinear_arith)
        requires
            0 <= x,
            0 <= y,
    ;
    vstd::arithmetic::div_mod::lemma_div_pos_is_pos(x * y, one);
    if x <= ONE {
        assert(x * y <= one * y) by (nonlinear_arith)
            requires
                0 <= x <= one,
                0 <= y,
        ;
        vstd::arithmetic::div_mod::lemma_div_is_ordered(x * y, one * y, one);
        vstd::arithmetic::div_mod::lemma_div_multiples_vanish(y, one);
    }
    if y <= ONE {
        assert(x * y <= one * x) by (nonlinear_arith)
            requires
                0 <= y <= one,
                0 <= x,
        ;
        vstd::arithmetic::div_mod::lemma_div_is_ordered(x * y, one * x, one);
        vstd::arithmetic::div_mod::lemma_div_multiples_vanish(x, one);
    }
}

/// A product with zero is zero.
proof fn lemma_fx_mul_zero(y: int)
    ensures
        fx_mul(0, y) == 0,
        fx_mul(y, 0) == 0,
{
    assert(0 * y == 0 && y * 0 == 0) by (nonlinear_arith);
}

/// Product of two fixed-point numbers, neither above 4.
fn mul_fixed(x: u64, y: u64) -> (z: u64)
    requires
        x <= 4 * ONE,
        y <= 4 * ONE,
    ensures
        z == fx_mul(x as int, y as int),
        x <= ONE ==> z <= y,
        y <= ONE ==> z <= x,
{
    proof {
        lemma_fx_mul_bounds(x as int, y as int);
        assert(x * y <= 16_000_000_000_000_000_000_000_000_000_000) by (nonlinear_arith)
            requires
                0 <= x <= 4_000_000_000_000_000,
                0 <= y <= 4_000_000_000_000_000,
        ;
    }
    let wide: u128 = (x as u128) * (y as u128);
    (wide / (ONE as u128)) as u64
}

/// For an angle up to a quarter turn, every level of the sine series lies
/// between zero and one.
proof fn lemma_sine_factor_bounds(h2: int, k: int)
    requires
        0 <= h2 <= 3 * ONE,
    ensures
        0 <= sine_factor(h2, k) <= ONE,
    decreases SINE_TERMS + 1 - k,
{
    if 1 <= k <= SINE_TERMS {
        lemma_sine_factor_bounds(h2, k + 1);
        let inner = sine_factor(h2, k + 1);
        lemma_fx_mul_bounds(h2, inner);
        let m = fx_mul(h2, inner);
        let d = (2 * k) * (2 * k + 1);
        assert(d >= 6) by (nonlinear_arith)
            requires
                k >= 1,
                d == (2 * k) * (2 * k + 1),
        ;
        vstd::arithmetic::div_mod::lemma_div_is_ordered_by_denominator(m, 6, d);
        vstd::arithmetic::div_mod::lemma_div_pos_is_pos(m, d);
    }
}

/// The outermost level of the sine series, for the square `h2` of an angle.
fn sine_factor_of(h2: u64) -> (q: u64)
    requires
        h2 <= 3 * ONE,
    ensures
        q == sine_factor(h2 as int, 1),
        q <= ONE,
{
    let mut q: u64 = ONE;
    let mut k: u64 = SINE_TERMS;
    while k >= 1
        invariant
            k <= SINE_TERMS,
            h2 <= 3 * ONE,
            q <= ONE,
            q == sine_factor(h2 as int, k + 1),
        decreases k,
    {
        proof {
            lemma_sine_factor_bounds(h2 as int, k as int);
            assert(6 <= (2 * k) * (2 * k + 1) <= 600) by (nonlinear_arith)
                requires
                    1 <= k <= 12,
            ;
        }
        let m = mul_fixed(h2, q);
        let d: u64 = (2 * k) * (2 * k + 1);
        q = ONE - m / d;
        k = k - 1;
    }
    q
}

/// The haversine of an angle between nothing and half a turn.
fn haversine_of(angle: u64) -> (v: u64)
    requires
        angle <= HALF_TURN,
    ensures
        v == haversine(angle as int),
        v <= ONE,
{
    proof {
        assert(angle * PI <= 565_486_677_646_162_740_000_000) by (nonlinear_arith)
            requires
                0 <= angle <= 180_000_000,
                PI == 3_141_592_653_589_793,
        ;
        vstd::arithmetic::div_mod::lemma_div_is_ordered(
            angle * PI,
            565_486_677_646_162_740_000_000,
            FULL_TURN as int,
        );
    }
    let turned: u128 = (angle as u128) * (PI as u128);
    let half: u64 = (turned / (FULL_TURN as u128)) as u64;
    assert(half * half <= 1_570_796_326_794_897 * 1_570_796_326_794_897) by (nonlinear_arith)
        requires
            0 <= half <= 1_570_796_326_794_897,
    ;
    let h2 = mul_fixed(half, half);
    let q = sine_factor_of(h2);
    let sine = mul_fixed(half, q);
    let square = mul_fixed(sine, sine);
    if square <= ONE {
        square
    } else {
        ONE
    }
}

/// The cosine of an angle between nothing and a quarter turn.
fn cosine_of(angle: u64) -> (c: u64)
    requires
        angle <= QUARTER_TURN,
    ensures
        c == cosine(angle as int),
        c <= ONE,
{
    let twice: u64 = 2 * haversine_of(angle);
    if twice <= ONE {
        ONE - twice
    } else {
        0
    }
}

/// Squaring keeps the order of numbers that are not negative.
proof fn lemma_square_ordered(a: int, b: int)
    requires
        0 <= a <= b,
    ensures
        a * a <= b * b,
{
    assert(a * a <= b * b) by (nonlinear_arith)
        requires
            0 <= a <= b,
    ;
}

/// A square has its root for square root.
proof fn lemma_sqrt_of_square(n: int)
    requires
        0 <= n,
    ensures
        is_floor_sqrt(n * n, n),
{
    assert(n * n < (n + 1) * (n + 1)) by (nonlinear_arith)
        requires
            0 <= n,
    ;
}

/// A number has at most one square root cut off.
proof fn lemma_floor_sqrt_unique(x: int, r1: int, r2: int)
    requires
        is_floor_sqrt(x, r1),
        is_floor_sqrt(x, r2),
    ensures
        r1 == r2,
{
    if r1 < r2 {
        lemma_square_ordered(r1 + 1, r2);
    } else if r2 < r1 {
        lemma_square_ordered(r2 + 1, r1);
    }
}

/// The square root, cut off, of a number up to `ONE * ONE`.
fn integer_sqrt(x: u128) -> (r: u64)
    requires
        x <= ONE * ONE,
    ensures
        r == floor_sqrt(x as int),
        is_floor_sqrt(x as int, r as int),
        r <= ONE,
{
    let mut low: u64 = 0;
    let mut high: u64 = ONE + 1;
    proof {
        lemma_sqrt_of_square(0);
        lemma_sqrt_of_square(ONE as int);
    }
    while high - low > 1
        invariant
            low < high <= ONE + 1,
            low * low <= x < high * high,
        decreases high - low,
    {
        let middle: u64 = low + (high - low) / 2;
        proof {
            assert(middle * middle <= 1_000_000_000_000_002_000_000_000_000_001)
                by (nonlinear_arith)
                requires
                    0 <= middle <= 1_000_000_000_000_001,
            ;
        }
        let square: u128 = (middle as u128) * (middle as u128);
        if square <= x {
            low = middle;
        } else {
            high = middle;
        }
    }
    proof {
        assert(high == low + 1);
        assert(is_floor_sqrt(x as int, low as int));
        lemma_floor_sqrt_unique(x as int, low as int, floor_sqrt(x as int));
    }
    low
}

/// For an argument up to one, level `k` of the arctangent series lies
/// between zero and `1 / (2k + 1)`.
proof fn lemma_arctan_factor_bounds(w2: int, k: int)
    requires
        0 <= w2 <= ONE,
        0 <= k,
    ensures
        0 <= arctan_factor(w2, k) <= (ONE as int) / (2 * k + 1),
    decreases ARCTAN_TERMS + 1 - k,
{
    vstd::arithmetic::div_mod::lemma_div_pos_is_pos(ONE as int, 2 * k + 1);
    if k <= ARCTAN_TERMS {
        lemma_arctan_factor_bounds(w2, k + 1);
        let inner = arctan_factor(w2, k + 1);
        lemma_fx_mul_bounds(w2, inner);
        vstd::arithmetic::div_mod::lemma_div_is_ordered_by_denominator(
            ONE as int,
            2 * k + 1,
            2 * k + 3,
        );
    }
}

/// The arctangent of a number up to one, read off the series.
fn arctan_series_of(w: u64) -> (angle: u64)
    requires
        w <= ONE,
    ensures
        angle == arctan_series(w as int),
        angle <= w,
{
    let w2 = mul_fixed(w, w);
    let mut r: u64 = 0;
    let mut k: u64 = ARCTAN_TERMS + 1;
    while k >= 1
        invariant
            k <= ARCTAN_TERMS + 1,
            w2 <= ONE,
            r <= ONE,
            r == arctan_factor(w2 as int, k as int),
        decreases k,
    {
        proof {
            lemma_arctan_factor_bounds(w2 as int, k as int);
            lemma_arctan_factor_bounds(w2 as int, k as int - 1);
            vstd::arithmetic::div_mod::lemma_div_is_ordered_by_denominator(
                ONE as int,
                1,
                2 * k as int - 1,
            );
        }
        let m = mul_fixed(w2, r);
        r = ONE / (2 * (k - 1) + 1) - m;
        k = k - 1;
    }
    mul_fixed(w, r)
}

/// The arctangent of a number between 0 and 1: at most an eighth of a turn.
fn arctan_unit_of(u: u64) -> (angle: u64)
    requires
        u <= ONE,
    ensures
        angle == arctan_unit(u as int),
        angle <= PI / 4,
{
    if u <= TAN_EIGHTH {
        arctan_series_of(u)
    } else {
        proof {
            assert((ONE - u) * ONE <= 1_000_000_000_000_000_000_000_000_000_000)
                by (nonlinear_arith)
                requires
                    0 <= ONE - u <= 1_000_000_000_000_000,
                    ONE == 1_000_000_000_000_000,
            ;
        }
        let above: u128 = ((ONE - u) as u128) * (ONE as u128);
        let below: u128 = (ONE + u) as u128;
        proof {
            let n = (ONE - u) as int;
            assert(n * ONE <= n * (ONE + u)) by (nonlinear_arith)
                requires
                    0 <= n,
                    0 <= u,
            ;
            vstd::arithmetic::div_mod::lemma_div_is_ordered(
                n * ONE,
                n * (ONE + u),
                (ONE + u) as int,
            );
            assert(n * (ONE + u) == (ONE + u) * n) by (nonlinear_arith);
            vstd::arithmetic::div_mod::lemma_div_multiples_vanish(n, (ONE + u) as int);
        }
        let w: u64 = (above / below) as u64;
        PI / 4 - arctan_series_of(w)
    }
}

/// A quarter of the central angle whose haversine is `a`.
fn quarter_angle_of(a: u64) -> (angle: u64)
    requires
        a <= ONE,
    ensures
        angle == quarter_angle(a as int),
        angle <= PI / 4,
{
    proof {
        assert(a * ONE <= ONE * ONE && (ONE - a) * ONE <= ONE * ONE) by (nonlinear_arith)
            requires
                0 <= a <= ONE,
        ;
        assert(ONE * ONE == 1_000_000_000_000_000_000_000_000_000_000) by (nonlinear_arith)
            requires
                ONE == 1_000_000_000_000_000,
        ;
    }
    let s = integer_sqrt((a as u128) * (ONE as u128));
    let t = integer_sqrt(((ONE - a) as u128) * (ONE as u128));
    let above: u128 = (s as u128) * (ONE as u128);
    let below: u128 = (ONE + t) as u128;
    proof {
        assert(s * ONE <= ONE * ONE) by (nonlinear_arith)
            requires
                0 <= s <= ONE,
        ;
        assert(s * ONE <= (ONE + t) * s) by (nonlinear_arith)
            requires
                0 <= s,
                0 <= t,
        ;
        vstd::arithmetic::div_mod::lemma_div_is_ordered(
            s * ONE,
            (ONE + t) * s,
            (ONE + t) as int,
        );
        vstd::arithmetic::div_mod::lemma_div_multiples_vanish(s as int, (ONE + t) as int);
    }
    let u: u64 = (above / below) as u64;
    arctan_unit_of(u)
}

/// A point on the globe: latitude and longitude in millionths of a degree,
/// the latitude within a quarter turn of the equator and the longitude
/// within half a turn of the prime meridian.
#[derive(Clone, Copy, Debug, PartialEq, Eq)]
pub struct Coordinates {
    latitude: i32,
    longitude: i32,
}

/// Whether `latitude` and `longitude`, in millionths of a degree, name a
/// point on the globe.
pub open spec fn on_globe(latitude: int, longitude: int) -> bool {
    &&& -(QUARTER_TURN as int) <= latitude <= QUARTER_TURN
    &&& -(HALF_TURN as int) <= longitude <= HALF_TURN
}

impl Coordinates {
    #[verifier::type_invariant]
    spec fn is_on_globe(self) -> bool {
        on_globe(self.latitude as int, self.longitude as int)
    }

    /// Latitude in millionths of a degree, north positive.
    pub closed spec fn lat(self) -> int {
        self.latitude as int
    }

    /// Longitude in millionths of a degree, east positive.
    pub closed spec fn lon(self) -> int {
        self.longitude as int
    }

    /// The point at `latitude` and `longitude`, in millionths of a degree;
    /// `None` when they are off the globe.
    pub fn new(latitude: i32, longitude: i32) -> (point: Option<Coordinates>)
        ensures
            point is Some == on_globe(latitude as int, longitude as int),
            point matches Some(p) ==> p.lat() == latitude && p.lon() == longitude,
    {
        if -90_000_000 <= latitude && latitude <= 90_000_000 && -180_000_000 <= longitude
            && longitude <= 180_000_000 {
            Some(Coordinates { latitude, longitude })
        } else {
            None
        }
    }

    /// Latitude in millionths of a degree, north positive.
    pub fn latitude(&self) -> (latitude: i32)
        ensures
            latitude == self.lat(),
            on_globe(self.lat(), self.lon()),
    {
        proof {
            use_type_invariant(self);
        }
        self.latitude
    }

    /// Longitude in millionths of a degree, east positive.
    pub fn longitude(&self) -> (longitude: i32)
        ensures
            longitude == self.lon(),
            on_globe(self.lat(), self.lon()),
    {
        proof {
            use_type_invariant(self);
        }
        self.longitude
    }
}

/// How far two angles are apart.
fn distance_on_axis(x: i32, y: i32) -> (d: u64)
    ensures
        d == abs_diff(x as int, y as int),
{
    if x <= y {
        (y as i64 - x as i64) as u64
    } else {
        (x as i64 - y as i64) as u64
    }
}

/// Great-circle distance between two points in whole kilometres, cut off.
pub fn haversine_distance(from: &Coordinates, to: &Coordinates) -> (km: u64)
    ensures
        km == great_circle_km(from.lat(), from.lon(), to.lat(), to.lon()),
        km <= MAX_DISTANCE_KM,
{
    let lat1 = from.latitude();
    let lon1 = from.longitude();
    let lat2 = to.latitude();
    let lon2 = to.longitude();
    let dlat = distance_on_axis(lat1, lat2);
    let turned = distance_on_axis(lon1, lon2);
    let dlon = if turned > HALF_TURN {
        FULL_TURN - turned
    } else {
        turned
    };
    let hav_lat = haversine_of(dlat);
    let hav_lon = haversine_of(dlon);
    let cos1 = cosine_of(distance_on_axis(0, lat1));
    let cos2 = cosine_of(distance_on_axis(0, lat2));
    let sum: u64 = hav_lat + mul_fixed(mul_fixed(cos1, cos2), hav_lon);
    let a = if sum <= ONE {
        sum
    } else {
        ONE
    };
    let quarter = quarter_angle_of(a);
    proof {
        assert((EARTH_RADIUS_KM * 4) * quarter <= 20_015_086_796_020_564_832) by (nonlinear_arith)
            requires
                0 <= quarter <= 785_398_163_397_448,
                EARTH_RADIUS_KM == 6371,
        ;
        vstd::arithmetic::div_mod::lemma_div_is_ordered(
            (EARTH_RADIUS_KM * 4) * quarter,
            20_015_086_796_020_564_832,
            ONE as int,
        );
    }
    let wide: u128 = ((EARTH_RADIUS_KM * 4) as u128) * (quarter as u128);
    (wide / (ONE as u128)) as u64
}

/// The distance from `a` to `b` is the distance from `b` to `a`.
pub proof fn lemma_distance_symmetric(lat1: int, lon1: int, lat2: int, lon2: int)
    ensures
        great_circle_km(lat1, lon1, lat2, lon2) == great_circle_km(lat2, lon2, lat1, lon1),
{
    let c1 = cosine(abs_diff(0, lat1));
    let c2 = cosine(abs_diff(0, lat2));
    assert(c1 * c2 == c2 * c1) by (nonlinear_arith);
}

/// The distance from a point to itself is nothing.
pub proof fn lemma_distance_to_self(lat: int, lon: int)
    ensures
        great_circle_km(lat, lon, lat, lon) == 0,
{
    let one = ONE as int;
    lemma_fx_mul_zero(sine_factor(fx_mul(0, 0), 1));
    lemma_fx_mul_zero(0);
    assert(haversine(0) == 0);
    lemma_fx_mul_zero(fx_mul(cosine(abs_diff(0, lat)), cosine(abs_diff(0, lat))));
    assert(central_haversine(lat, lon, lat, lon) == 0);
    assert(0 * one == 0) by (nonlinear_arith);
    lemma_sqrt_of_square(0);
    lemma_sqrt_of_square(one);
    lemma_floor_sqrt_unique(0, 0, floor_sqrt(0));
    lemma_floor_sqrt_unique(one * one, one, floor_sqrt(one * one));
    lemma_fx_mul_zero(arctan_factor(fx_mul(0, 0), 0));
    assert(quarter_angle(0) == 0);
}

} // verus!
