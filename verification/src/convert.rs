//! Coordinate and unit conversions.
//!
//! All geometry is fixed point (`crate::num::FIX_SCALE` units per source
//! unit).  One source pixel is 10 mil = 0.254 mm; the vendor origin is
//! top left, so symbol emission flips the Y axis by negation.  Angles are
//! fixed-point degrees; `atan2_fx` is an integer approximation of the
//! two-argument arctangent, exact on the axes and always inside [0, 360).

use vstd::prelude::*;
use crate::num::fits_coord;
use crate::errors::ConversionError;
use vstd::string::*;

verus! {

/// Which KiCad dialect an emitter targets.
#[derive(Debug, Clone, Copy, PartialEq, Eq, Structural)]
pub enum KicadVersion {
    V5,
    V6,
}

/// 360 degrees in fixed-point units.
pub const FULL_TURN: i64 = 3600000;

/// Pi scaled by 10^9.
pub const PI_E9: i64 = 3141592654;

/// Rounding division by a positive divisor, half away from zero.
pub open spec fn rdiv(a: int, b: int) -> int {
    if a >= 0 { (a + b / 2) / b } else { -((-a + b / 2) / b) }
}

/// Pixels to integer mils: `round(10 * px)`.
pub open spec fn px_to_mil_spec(v: int) -> int {
    rdiv(v, 1000)
}

/// Pixels to fixed-point millimetres: `px * 0.254`.
pub open spec fn px_to_mm_spec(v: int) -> int {
    rdiv(v * 254, 1000)
}

/// The vendor Y axis points down; negate to point up.
pub open spec fn flip_y_spec(v: int) -> int {
    -v
}

/// Fixed-point degrees to fixed-point radians.
pub open spec fn deg_to_rad_spec(v: int) -> int {
    rdiv(v * 3141592654, 180000000000)
}

/// Fixed-point radians to fixed-point degrees.
pub open spec fn rad_to_deg_spec(v: int) -> int {
    rdiv(v * 180000000000, 3141592654)
}

pub struct Converter {
    pub kicad_version: KicadVersion,
}

impl Converter {
    pub fn new(kicad_version: KicadVersion) -> (r: Converter)
        ensures
            r.kicad_version == kicad_version,
    {
        Converter { kicad_version }
    }

    /// Convert pixels to mils (1 px = 10 mil), rounding to the nearest mil.
    pub fn px_to_mil(&self, px: i64) -> (r: i64)
        requires
            fits_coord(px as int),
        ensures
            r == px_to_mil_spec(px as int),
    {
        if px >= 0 { (px + 500) / 1000 } else { -((-px + 500) / 1000) }
    }

    /// Convert pixels to millimetres (1 px = 10 mil = 0.254 mm).
    pub fn px_to_mm(&self, px: i64) -> (r: i64)
        requires
            fits_coord(px as int),
        ensures
            r == px_to_mm_spec(px as int),
            -300000000000 <= r <= 300000000000,
    {
        let scaled = px * 254;
        if scaled >= 0 { (scaled + 500) / 1000 } else { -((-scaled + 500) / 1000) }
    }

    /// Flip the Y coordinate: vendor origin is top left, KiCad bottom left.
    pub fn flip_y(&self, y: i64) -> (r: i64)
        requires
            i64::MIN < y,
        ensures
            r == flip_y_spec(y as int),
    {
        -y
    }

    /// Shift a coordinate so the bounding-box origin becomes zero.
    pub fn normalize_to_bbox(&self, coord: i64, bbox_origin: i64) -> (r: i64)
        requires
            fits_coord(coord as int),
            fits_coord(bbox_origin as int),
        ensures
            r == coord - bbox_origin,
    {
        coord - bbox_origin
    }

    /// Degrees to radians, both fixed point.
    pub fn deg_to_rad(&self, degrees: i64) -> (r: i64)
        requires
            fits_coord(degrees as int),
        ensures
            r == deg_to_rad_spec(degrees as int),
    {
        let wide: i128 = (degrees as i128) * (PI_E9 as i128);
        proof {
            assert(-4000000000000000000000 <= wide <= 4000000000000000000000) by (nonlinear_arith)
                requires
                    wide == (degrees as int) * 3141592654,
                    -1000000000000 <= degrees as int <= 1000000000000;
        }
        let d: i128 = 180000000000;
        let r: i128 = if wide >= 0 { (wide + d / 2) / d } else { -((-wide + d / 2) / d) };
        r as i64
    }

    /// Radians to degrees, both fixed point.
    pub fn rad_to_deg(&self, radians: i64) -> (r: i64)
        requires
            fits_coord(radians as int),
        ensures
            r == rad_to_deg_spec(radians as int),
    {
        let wide: i128 = (radians as i128) * 180000000000;
        proof {
            assert(-200000000000000000000000 <= wide <= 200000000000000000000000)
                by (nonlinear_arith)
                requires
                    wide == (radians as int) * 180000000000,
                    -1000000000000 <= radians as int <= 1000000000000;
        }
        let d: i128 = PI_E9 as i128;
        let r: i128 = if wide >= 0 { (wide + d / 2) / d } else { -((-wide + d / 2) / d) };
        r as i64
    }

    /// The smallest axis-aligned box around the points, as
    /// `(min_x, min_y, max_x, max_y)`; `None` for an empty list.
    pub fn calculate_bbox(&self, points: &Vec<(i64, i64)>) -> (r: Option<(i64, i64, i64, i64)>)
        ensures
            r is Some <==> points@.len() > 0,
            r is Some ==> ({
                let (min_x, min_y, max_x, max_y) = r->Some_0;
                &&& forall|i: int| 0 <= i < points@.len()
                    ==> min_x <= (#[trigger] points@[i]).0 <= max_x
                        && min_y <= points@[i].1 <= max_y
                &&& exists|i: int| 0 <= i < points@.len() && (#[trigger] points@[i]).0 == min_x
                &&& exists|i: int| 0 <= i < points@.len() && (#[trigger] points@[i]).0 == max_x
                &&& exists|i: int| 0 <= i < points@.len() && (#[trigger] points@[i]).1 == min_y
                &&& exists|i: int| 0 <= i < points@.len() && (#[trigger] points@[i]).1 == max_y
            }),
    {
        if points.len() == 0 {
            return None;
        }
        let first = points[0];
        let mut min_x = first.0;
        let mut max_x = first.0;
        let mut min_y = first.1;
        let mut max_y = first.1;
        let mut i: usize = 1;
        while i < points.len()
            invariant
                1 <= i <= points@.len(),
                forall|k: int| 0 <= k < i
                    ==> min_x <= (#[trigger] points@[k]).0 <= max_x
                        && min_y <= points@[k].1 <= max_y,
                exists|k: int| 0 <= k < i && (#[trigger] points@[k]).0 == min_x,
                exists|k: int| 0 <= k < i && (#[trigger] points@[k]).0 == max_x,
                exists|k: int| 0 <= k < i && (#[trigger] points@[k]).1 == min_y,
                exists|k: int| 0 <= k < i && (#[trigger] points@[k]).1 == max_y,
            decreases points@.len() - i,
        {
            let (x, y) = points[i];
            if x < min_x {
                min_x = x;
            }
            if x > max_x {
                max_x = x;
            }
            if y < min_y {
                min_y = y;
            }
            if y > max_y {
                max_y = y;
            }
            i = i + 1;
        }
        Some((min_x, min_y, max_x, max_y))
    }
}

/// Arctangent of `t/10000` in fixed-point degrees, for `t` in [0, 10000].
/// A quadratic approximation, exact at the interval ends, inside [0, 45
/// degrees] everywhere.
pub open spec fn atan_unit_spec(t: int) -> int {
    45 * t + 157 * t * (10000 - t) / 100000
}

/// The two-argument arctangent, approximated in integer arithmetic.
/// Exact on the four axes; always in [0, 360 degrees).
pub open spec fn atan2_fx_spec(dy: int, dx: int) -> int {
    let ax = if dx < 0 { -dx } else { dx };
    let ay = if dy < 0 { -dy } else { dy };
    if ax == 0 && ay == 0 {
        0
    } else {
        let t = if ay <= ax { ay * 10000 / ax } else { ax * 10000 / ay };
        let a = atan_unit_spec(t);
        let oct = if ay <= ax { a } else { 900000 - a };
        if dx >= 0 && dy >= 0 {
            oct
        } else if dx < 0 && dy >= 0 {
            1800000 - oct
        } else if dx < 0 {
            1800000 + oct
        } else if oct == 0 {
            0
        } else {
            3600000 - oct
        }
    }
}

proof fn lemma_atan_unit_range(t: int)
    requires
        0 <= t <= 10000,
    ensures
        0 <= atan_unit_spec(t) <= 450000,
{
    assert(0 <= 157 * t * (10000 - t) / 100000) by (nonlinear_arith)
        requires 0 <= t <= 10000;
    assert(45 * t + 157 * t * (10000 - t) / 100000 <= 450000) by (nonlinear_arith)
        requires 0 <= t <= 10000;
}

/// Range of the arctangent approximation.
pub proof fn lemma_atan2_fx_range(dy: int, dx: int)
    ensures
        0 <= atan2_fx_spec(dy, dx) < 3600000,
{
    let ax = if dx < 0 { -dx } else { dx };
    let ay = if dy < 0 { -dy } else { dy };
    if !(ax == 0 && ay == 0) {
        let t = if ay <= ax { ay * 10000 / ax } else { ax * 10000 / ay };
        assert(0 <= t <= 10000) by (nonlinear_arith)
            requires
                ax >= 0, ay >= 0, !(ax == 0 && ay == 0),
                t == if ay <= ax { ay * 10000 / ax } else { ax * 10000 / ay };
        lemma_atan_unit_range(t);
    }
}

/// Executable arctangent; exactly `atan2_fx_spec`.
pub fn atan2_fx(dy: i64, dx: i64) -> (r: i64)
    requires
        -4000000000000000000 <= dy <= 4000000000000000000,
        -4000000000000000000 <= dx <= 4000000000000000000,
    ensures
        r == atan2_fx_spec(dy as int, dx as int),
        0 <= r < 3600000,
{
    proof {
        lemma_atan2_fx_range(dy as int, dx as int);
    }
    let ax: i64 = if dx < 0 { -dx } else { dx };
    let ay: i64 = if dy < 0 { -dy } else { dy };
    if ax == 0 && ay == 0 {
        return 0;
    }
    let tq: i128 = if ay <= ax {
        ((ay as i128) * 10000) / (ax as i128)
    } else {
        ((ax as i128) * 10000) / (ay as i128)
    };
    proof {
        assert(0 <= tq <= 10000) by (nonlinear_arith)
            requires
                ax as int >= 0,
                ay as int >= 0,
                !(ax as int == 0 && ay as int == 0),
                tq == if ay as int <= ax as int { (ay as int) * 10000 / (ax as int) }
                    else { (ax as int) * 10000 / (ay as int) };
    }
    let t: i64 = tq as i64;
    proof {
        lemma_atan_unit_range(t as int);
    }
    let a: i64 = 45 * t + 157 * t * (10000 - t) / 100000;
    let oct: i64 = if ay <= ax { a } else { 900000 - a };
    if dx >= 0 && dy >= 0 {
        oct
    } else if dx < 0 && dy >= 0 {
        1800000 - oct
    } else if dx < 0 {
        1800000 + oct
    } else if oct == 0 {
        0
    } else {
        3600000 - oct
    }
}

/// An angle folded into [0, 360) by repeatedly adding or subtracting a
/// full turn.
pub open spec fn norm_angle_spec(a: int) -> int
    decreases (if a < 0 { 3600000 - a } else { a }) when -100000000000000 <= a <= 100000000000000
{
    if a < 0 {
        norm_angle_spec(a + 3600000)
    } else if a >= 3600000 {
        norm_angle_spec(a - 3600000)
    } else {
        a
    }
}

pub proof fn lemma_norm_angle_range(a: int)
    requires
        -100000000000000 <= a <= 100000000000000,
    ensures
        0 <= norm_angle_spec(a) < 3600000,
    decreases (if a < 0 { 3600000 - a } else { a }),
{
    if a < 0 {
        lemma_norm_angle_range(a + 3600000);
    } else if a >= 3600000 {
        lemma_norm_angle_range(a - 3600000);
    }
}

/// Fold an angle into [0, 360).
pub fn norm_angle(a: i64) -> (r: i64)
    requires
        -100000000000000 <= a <= 100000000000000,
    ensures
        r == norm_angle_spec(a as int),
        0 <= r < FULL_TURN,
    decreases (if a < 0 { 3600000 - a as int } else { a as int }),
{
    if a < 0 {
        norm_angle(a + 3600000)
    } else if a >= 3600000 {
        norm_angle(a - 3600000)
    } else {
        a
    }
}

/// Integer square root: the greatest `r` with `r * r <= n`.
pub fn isqrt(n: u128) -> (r: u128)
    requires
        n < 0x40000000000000000000000000000000,
    ensures
        r * r <= n,
        (r + 1) * (r + 1) > n,
{
    let mut lo: u128 = 0;
    let mut hi: u128 = 0x8000000000000000;
    proof {
        assert(0x8000000000000000 * 0x8000000000000000
            == 0x40000000000000000000000000000000int) by (nonlinear_arith);
    }
    while lo + 1 < hi
        invariant
            lo * lo <= n,
            hi * hi > n,
            lo < hi <= 0x8000000000000000,
        decreases hi - lo,
    {
        let ghost loi = lo as int;
        let ghost hii = hi as int;
        proof {
            let mi = loi + (hii - loi) / 2;
            assert(mi * mi <= 0x8000000000000000 * 0x8000000000000000) by (nonlinear_arith)
                requires 0 <= mi <= 0x8000000000000000;
            assert(0x8000000000000000 * 0x8000000000000000
                == 0x40000000000000000000000000000000int) by (nonlinear_arith);
        }
        let mid = lo + (hi - lo) / 2;
        if mid * mid <= n {
            lo = mid;
        } else {
            hi = mid;
        }
    }
    lo
}


/// Flipping the Y axis twice gives the original coordinate back.
pub proof fn lemma_flip_y_round_trip(y: int)
    ensures
        flip_y_spec(flip_y_spec(y)) == y,
{
}

/// Ten source pixels are exactly 2.54 millimetres on the fixed grid.
pub proof fn lemma_ten_px_is_2540(v: int)
    requires
        v == 100000,
    ensures
        px_to_mm_spec(v) == 25400,
{
}


/// Sine of an angle in [0, 180 degrees], by the classic quadratic
/// rational approximation; the result is scaled by 10^4 and lies in
/// [0, 10^4].
pub open spec fn half_sin_spec(x: int) -> int {
    let p = x * (1800000 - x);
    4 * p * 10000 / (4050000000000 - p)
}

/// Sine over the fixed-point degree grid, via the half-turn
/// approximation.
pub open spec fn sin_fx_spec(a: int) -> int {
    let n = norm_angle_spec(a);
    if n <= 1800000 {
        half_sin_spec(n)
    } else {
        -half_sin_spec(n - 1800000)
    }
}

/// Cosine as the quarter-turn shift of the sine.
pub open spec fn cos_fx_spec(a: int) -> int {
    sin_fx_spec(a + 900000)
}

proof fn lemma_half_sin_range(x: int)
    requires
        0 <= x <= 1800000,
    ensures
        0 <= half_sin_spec(x) <= 10000,
{
    assert(0 <= x * (1800000 - x) <= 810000000000) by (nonlinear_arith)
        requires 0 <= x <= 1800000;
    let p = x * (1800000 - x);
    assert(4 * p * 10000 >= 0) by (nonlinear_arith)
        requires p >= 0;
    assert(4050000000000 - p >= 3240000000000);
    assert(0 <= 4 * p * 10000 / (4050000000000 - p) <= 10000) by (nonlinear_arith)
        requires
            0 <= p <= 810000000000;
}

/// Range of the sine approximation.
pub proof fn lemma_sin_fx_range(a: int)
    requires
        -100000000000000 <= a <= 100000000000000,
    ensures
        -10000 <= sin_fx_spec(a) <= 10000,
{
    lemma_norm_angle_range(a);
    let n = norm_angle_spec(a);
    if n <= 1800000 {
        lemma_half_sin_range(n);
    } else {
        lemma_half_sin_range(n - 1800000);
    }
}

/// Executable sine; exactly `sin_fx_spec`, within [-10^4, 10^4].
pub fn sin_fx(a: i64) -> (r: i64)
    requires
        -100000000000000 <= a <= 100000000000000,
    ensures
        r as int == sin_fx_spec(a as int),
        -10000 <= r <= 10000,
{
    proof {
        lemma_sin_fx_range(a as int);
    }
    let n = norm_angle(a);
    let x: i64 = if n <= 1800000 { n } else { n - 1800000 };
    proof {
        assert(0 <= (x as int) * (1800000 - x as int) <= 810000000000) by (nonlinear_arith)
            requires 0 <= x as int <= 1800000;
        lemma_half_sin_range(x as int);
    }
    let p: i64 = x * (1800000 - x);
    let numer: i128 = 4 * (p as i128) * 10000;
    let denom: i128 = 4050000000000 - (p as i128);
    proof {
        assert(numer == 4 * (p as int) * 10000) by (nonlinear_arith)
            requires numer == 4 * (p as int) * 10000;
        assert(0 <= numer / denom <= 10000) by (nonlinear_arith)
            requires
                0 <= p as int <= 810000000000,
                numer == 4 * (p as int) * 10000,
                denom == 4050000000000 - p as int;
    }
    let v: i64 = (numer / denom) as i64;
    if n <= 1800000 { v } else { -v }
}

/// Executable cosine; exactly `cos_fx_spec`.
pub fn cos_fx(a: i64) -> (r: i64)
    requires
        -100000000000000 <= a <= 99999999000000,
    ensures
        r as int == cos_fx_spec(a as int),
        -10000 <= r <= 10000,
{
    sin_fx(a + 900000)
}

/// A wide intermediate clamped onto the grid the arctangent accepts.
fn clamp_wide(v: i128) -> (r: i64)
    ensures
        r as int == clampw(v as int),
        -4000000000000000000 <= r <= 4000000000000000000,
{
    if v > 4000000000000000000 {
        4000000000000000000
    } else if v < -4000000000000000000 {
        -4000000000000000000
    } else {
        v as i64
    }
}

/// Truncated halving, as the host language divides.
pub open spec fn tdiv2w(a: int) -> int {
    if a >= 0 { a / 2 } else { -((-a) / 2) }
}

/// Truncated division by a positive divisor.
pub open spec fn tdivw(a: int, b: int) -> int {
    if a >= 0 { a / b } else { -((-a) / b) }
}

/// The floor of the square root, for the specification mirror of the arc
/// conversion.
pub open spec fn sqrt_floor(n: int) -> int
    decreases n,
{
    if n < 1 {
        0
    } else {
        let r = sqrt_floor(n - 1);
        if (r + 1) * (r + 1) <= n { r + 1 } else { r }
    }
}

pub proof fn lemma_sqrt_floor_bracket(n: int)
    requires
        n >= 0,
    ensures
        sqrt_floor(n) >= 0,
        sqrt_floor(n) * sqrt_floor(n) <= n,
        (sqrt_floor(n) + 1) * (sqrt_floor(n) + 1) > n,
    decreases n,
{
    if n >= 1 {
        lemma_sqrt_floor_bracket(n - 1);
        let r = sqrt_floor(n - 1);
        if (r + 1) * (r + 1) <= n {
            assert((r + 2) * (r + 2) > n) by (nonlinear_arith)
                requires
                    (r + 1) * (r + 1) > n - 1,
                    r >= 0;
        }
    }
}

/// The bracket property determines the root: any bracketing value is the
/// floor square root.
pub proof fn lemma_sqrt_floor_unique(n: int, r: int)
    requires
        n >= 0,
        r >= 0,
        r * r <= n,
        (r + 1) * (r + 1) > n,
    ensures
        sqrt_floor(n) == r,
{
    lemma_sqrt_floor_bracket(n);
    let s = sqrt_floor(n);
    assert(r == s) by (nonlinear_arith)
        requires
            r >= 0,
            s >= 0,
            r * r <= n,
            (r + 1) * (r + 1) > n,
            s * s <= n,
            (s + 1) * (s + 1) > n;
}

/// A wide value clamped onto the grid the arctangent accepts.
pub open spec fn clampw(v: int) -> int {
    if v > 4000000000000000000 {
        4000000000000000000
    } else if v < -4000000000000000000 {
        -4000000000000000000
    } else {
        v
    }
}

/// The rotated full chord, at the scale of the trigonometric grid: twice
/// the x offset of the start in the ellipse frame, times ten thousand.
pub open spec fn arc_xq(start: (i64, i64), end: (i64, i64), phi: int) -> int {
    cos_fx_spec(phi) * (start.0 - end.0) + sin_fx_spec(phi) * (start.1 - end.1)
}

pub open spec fn arc_yq(start: (i64, i64), end: (i64, i64), phi: int) -> int {
    -sin_fx_spec(phi) * (start.0 - end.0) + cos_fx_spec(phi) * (start.1 - end.1)
}

/// The rotated half chord on the coordinate grid.
pub open spec fn rot_half_dx(start: (i64, i64), end: (i64, i64), phi: int) -> int {
    tdivw(arc_xq(start, end, phi), 20000)
}

pub open spec fn rot_half_dy(start: (i64, i64), end: (i64, i64), phi: int) -> int {
    tdivw(arc_yq(start, end, phi), 20000)
}

/// An arc is degenerate exactly when its endpoints coincide or a radius
/// vanishes.
pub open spec fn arc_degenerate(start: (i64, i64), end: (i64, i64), radii: (i64, i64)) -> bool {
    ||| (start.0 == end.0 && start.1 == end.1)
    ||| radii.0 == 0
    ||| radii.1 == 0
}

/// A radius grown so the half chord fits inside the ellipse, saturated at
/// the edge of the grid; `r0` is the radius being corrected.
pub open spec fn corrected_radius(r0: int, rx: int, ry: int, x1p: int, y1p: int) -> int {
    let num = (x1p * ry) * (x1p * ry) + (y1p * rx) * (y1p * rx);
    let den = (rx * ry) * (rx * ry);
    if num > den {
        let rw = r0 * sqrt_floor(num) / sqrt_floor(den) + 1;
        if rw > 3000000000 { 3000000000 } else { rw }
    } else {
        r0
    }
}

/// The centre in the rotated frame and the raw sweep extent, mirroring
/// the executable steps: the square-root term, the signed centre, the two
/// endpoint angles, and the extent folded to a half turn and then ordered
/// by the sweep flag.
pub open spec fn arc_frame(rx: int, ry: int, x1p: int, y1p: int, large_arc: bool, sweep: bool)
    -> (int, int, int, int, int) {
    let a1 = rx * y1p;
    let b1 = ry * x1p;
    let rr = rx * ry;
    let top = rr * rr - a1 * a1 - b1 * b1;
    let bot = a1 * a1 + b1 * b1;
    let sq = if top <= 0 { 0 } else { sqrt_floor(top) };
    let sqb = sqrt_floor(bot);
    let sign: int = if large_arc == sweep { -1 } else { 1 };
    let cxp = clampw(tdivw(sign * sq * a1, sqb * ry));
    let cyp = clampw(-tdivw(sign * sq * b1, sqb * rx));
    let theta1 = atan2_fx_spec(clampw(y1p - cyp), clampw(x1p - cxp));
    let theta_v = atan2_fx_spec(clampw(-y1p - cyp), clampw(-x1p - cxp));
    let d0 = theta_v - theta1;
    let d1 = if d0 > 1800000 { d0 - 3600000 } else if d0 <= -1800000 { d0 + 3600000 } else { d0 };
    let d2 = if !sweep && d1 > 0 { d1 - 3600000 } else if sweep && d1 < 0 { d1 + 3600000 } else { d1 };
    (cxp, cyp, theta1, norm_angle_spec(theta1 + d2), d2)
}

/// The sweep extent the conversion traverses, before the final fold into
/// [0, 360): for a chord below the grid resolution a half turn in the
/// flag's direction, otherwise the extent of `arc_frame`.
pub open spec fn arc_sweep_delta(start: (i64, i64), end: (i64, i64), radii: (i64, i64),
    phi: int, large_arc: bool, sweep: bool) -> int {
    let x1p = rot_half_dx(start, end, phi);
    let y1p = rot_half_dy(start, end, phi);
    if x1p == 0 && y1p == 0 {
        if sweep { 1800000 } else { -1800000 }
    } else {
        let rx0 = if radii.0 < 0 { -radii.0 as int } else { radii.0 as int };
        let ry0 = if radii.1 < 0 { -radii.1 as int } else { radii.1 as int };
        let rxc = corrected_radius(rx0, rx0, ry0, x1p, y1p);
        let ryc = corrected_radius(ry0, rx0, ry0, x1p, y1p);
        arc_frame(rxc, ryc, x1p, y1p, large_arc, sweep).4
    }
}

/// The whole endpoint-to-centre conversion as a specification: rotate the
/// chord, fall back to a half turn around the chord midpoint when the
/// half chord is below the grid resolution, otherwise grow the radii,
/// place the centre, and rotate it back.
pub open spec fn arc_center_spec(start: (i64, i64), end: (i64, i64), radii: (i64, i64),
    phi: int, large_arc: bool, sweep: bool) -> (int, int, int, int) {
    let xq = arc_xq(start, end, phi);
    let yq = arc_yq(start, end, phi);
    let x1p = tdivw(xq, 20000);
    let y1p = tdivw(yq, 20000);
    let mx = tdiv2w(start.0 + end.0);
    let my = tdiv2w(start.1 + end.1);
    if x1p == 0 && y1p == 0 {
        let theta1 = atan2_fx_spec(yq, xq);
        (mx, my, theta1, norm_angle_spec(theta1 + if sweep { 1800000int } else { -1800000int }))
    } else {
        let rx0 = if radii.0 < 0 { -radii.0 as int } else { radii.0 as int };
        let ry0 = if radii.1 < 0 { -radii.1 as int } else { radii.1 as int };
        let rxc = corrected_radius(rx0, rx0, ry0, x1p, y1p);
        let ryc = corrected_radius(ry0, rx0, ry0, x1p, y1p);
        let f = arc_frame(rxc, ryc, x1p, y1p, large_arc, sweep);
        let cx = clampw(tdivw(cos_fx_spec(phi) * f.0 - sin_fx_spec(phi) * f.1, 10000) + mx);
        let cy = clampw(tdivw(sin_fx_spec(phi) * f.0 + cos_fx_spec(phi) * f.1, 10000) + my);
        (cx, cy, f.2, f.3)
    }
}

impl Converter {
    /// The endpoint-to-centre conversion of an elliptical arc: rotate the
    /// endpoints into the ellipse frame, grow under-sized radii to fit,
    /// derive the centre and the two angles, and fold both angles into
    /// [0, 360).  The result is exactly `arc_center_spec`; the end angle
    /// is the start angle moved by `arc_sweep_delta`, which runs forward
    /// under the sweep flag and backward without it.  Fails exactly on a
    /// degenerate arc: coincident endpoints or a vanishing radius.
    /// Oversized corrected radii and centres saturate at the edge of the
    /// grid.
    #[verifier::rlimit(100)]
    pub fn compute_arc_center(&self, start: (i64, i64), end: (i64, i64), radii: (i64, i64),
        x_axis_rotation: i64, large_arc: bool, sweep: bool)
        -> (r: Result<(i64, i64, i64, i64), ConversionError>)
        requires
            -1000000000 <= start.0 <= 1000000000,
            -1000000000 <= start.1 <= 1000000000,
            -1000000000 <= end.0 <= 1000000000,
            -1000000000 <= end.1 <= 1000000000,
            -1000000000 <= radii.0 <= 1000000000,
            -1000000000 <= radii.1 <= 1000000000,
            -100000000000 <= x_axis_rotation <= 100000000000,
        ensures
            r is Err <==> arc_degenerate(start, end, radii),
            match r {
                Ok(t) => {
                    let phi = x_axis_rotation as int;
                    let d = arc_sweep_delta(start, end, radii, phi, large_arc, sweep);
                    &&& (t.0 as int, t.1 as int, t.2 as int, t.3 as int)
                        == arc_center_spec(start, end, radii, phi, large_arc, sweep)
                    &&& 0 <= t.2 < 3600000
                    &&& 0 <= t.3 < 3600000
                    &&& t.3 as int == norm_angle_spec(t.2 as int + d)
                    &&& (sweep ==> 0 <= d < 3600000)
                    &&& (!sweep ==> -3600000 < d <= 0)
                },
                Err(e) => e is ArcConversion,
            },
    {
        let (x1, y1) = start;
        let (x2, y2) = end;
        if x1 == x2 && y1 == y2 {
            return Err(arc_error());
        }
        if radii.0 == 0 || radii.1 == 0 {
            return Err(arc_error());
        }
        let ghost phi = x_axis_rotation as int;
        let rx0: i64 = if radii.0 < 0 { -radii.0 } else { radii.0 };
        let ry0: i64 = if radii.1 < 0 { -radii.1 } else { radii.1 };
        let cphi = cos_fx(x_axis_rotation);
        let sphi = sin_fx(x_axis_rotation);
        let ddx: i64 = x1 - x2;
        let ddy: i64 = y1 - y2;
        let xq: i128 = mul_trig(cphi, ddx) + mul_trig(sphi, ddy);
        let yq: i128 = mul_trig(-sphi, ddx) + mul_trig(cphi, ddy);
        let x1p: i64 = if xq >= 0 { (xq / 20000) as i64 } else { (-((-xq) / 20000)) as i64 };
        let y1p: i64 = if yq >= 0 { (yq / 20000) as i64 } else { (-((-yq) / 20000)) as i64 };
        let mx = tdiv2_exec(x1 + x2);
        let my = tdiv2_exec(y1 + y2);
        proof {
            assert((-sphi) as int * (ddx as int) == -(sphi as int) * (ddx as int))
                by (nonlinear_arith);
            assert(xq == arc_xq(start, end, phi));
            assert(yq == arc_yq(start, end, phi));
            assert(x1p as int == rot_half_dx(start, end, phi));
            assert(y1p as int == rot_half_dy(start, end, phi));
            assert(-2000000000 <= x1p <= 2000000000);
            assert(-2000000000 <= y1p <= 2000000000);
        }
        if x1p == 0 && y1p == 0 {
            // the chord is below the grid resolution: a half turn around
            // the chord midpoint, starting toward the first endpoint
            let xqc = clamp_mul_trig(xq);
            let yqc = clamp_mul_trig(yq);
            let theta1 = atan2_fx(yqc, xqc);
            let d: i64 = if sweep { 1800000 } else { -1800000 };
            let theta2 = norm_angle(theta1 + d);
            proof {
                assert(theta1 as int == atan2_fx_spec(yq as int, xq as int));
            }
            return Ok((mx, my, theta1, theta2));
        }
        let rx = corrected_radius_exec(rx0, rx0, ry0, x1p, y1p);
        let ry = corrected_radius_exec(ry0, rx0, ry0, x1p, y1p);
        let (cxp, cyp, theta1, theta2, dtheta) =
            arc_center_angles(rx, ry, x1p, y1p, large_arc, sweep);
        // centre back in the source frame
        let rot_x: i128 = mul_wide_trig(cphi, cxp) - mul_wide_trig(sphi, cyp);
        let rot_y: i128 = mul_wide_trig(sphi, cxp) + mul_wide_trig(cphi, cyp);
        let bx: i128 = if rot_x >= 0 { rot_x / 10000 } else { -((-rot_x) / 10000) };
        let by: i128 = if rot_y >= 0 { rot_y / 10000 } else { -((-rot_y) / 10000) };
        let cx = clamp_wide(bx + mx as i128);
        let cy = clamp_wide(by + my as i128);
        proof {
            assert(cx as int == clampw(tdivw(cos_fx_spec(phi) * cxp as int
                - sin_fx_spec(phi) * cyp as int, 10000) + tdiv2w(start.0 + end.0)));
            assert(cy as int == clampw(tdivw(sin_fx_spec(phi) * cxp as int
                + cos_fx_spec(phi) * cyp as int, 10000) + tdiv2w(start.1 + end.1)));
        }
        Ok((cx, cy, theta1, theta2))
    }
}

/// Clamp the rotated-chord value onto the arctangent grid; both chord
/// components are far inside it, so this is the identity here.
fn clamp_mul_trig(v: i128) -> (r: i64)
    requires
        -40000000000000 <= v <= 40000000000000,
    ensures
        r as int == v,
{
    v as i64
}

/// One corrected radius; exactly `corrected_radius`.
#[verifier::rlimit(100)]
fn corrected_radius_exec(r0: i64, rx: i64, ry: i64, x1p: i64, y1p: i64) -> (r: i64)
    requires
        1 <= r0 <= 1000000000,
        1 <= rx <= 1000000000,
        1 <= ry <= 1000000000,
        -2000000000 <= x1p <= 2000000000,
        -2000000000 <= y1p <= 2000000000,
    ensures
        r as int == corrected_radius(r0 as int, rx as int, ry as int, x1p as int, y1p as int),
        1 <= r <= 3000000000,
{
    proof {
        assert(-2000000000000000000 <= (x1p as int) * (ry as int) <= 2000000000000000000)
            by (nonlinear_arith)
            requires
                -2000000000 <= x1p as int <= 2000000000,
                1 <= ry as int <= 1000000000;
        assert(-2000000000000000000 <= (y1p as int) * (rx as int) <= 2000000000000000000)
            by (nonlinear_arith)
            requires
                -2000000000 <= y1p as int <= 2000000000,
                1 <= rx as int <= 1000000000;
        assert(1 <= (rx as int) * (ry as int) <= 1000000000000000000) by (nonlinear_arith)
            requires
                1 <= rx as int <= 1000000000,
                1 <= ry as int <= 1000000000;
    }
    let a0: i128 = (x1p as i128) * (ry as i128);
    let b0: i128 = (y1p as i128) * (rx as i128);
    let num: i128 = mul_sq(a0) + mul_sq(b0);
    let rr0: i128 = (rx as i128) * (ry as i128);
    let den: i128 = mul_sq(rr0);
    if num > den {
        proof {
            assert(num <= 8000000000000000000000000000000000000) by (nonlinear_arith)
                requires
                    num == a0 * a0 + b0 * b0,
                    -2000000000000000000 <= a0 <= 2000000000000000000,
                    -2000000000000000000 <= b0 <= 2000000000000000000;
        }
        let sn = isqrt(num as u128);
        let sd = isqrt(den as u128);
        proof {
            assert(num >= 1);
            assert((sn as int) * (sn as int) <= num as int);
            assert(((sn as int) + 1) * ((sn as int) + 1) > num as int);
            lemma_sqrt_floor_unique(num as int, sn as int);
            assert(sn <= 3000000000000000000) by (nonlinear_arith)
                requires
                    (sn as int) * (sn as int) <= num as int,
                    num as int <= 8000000000000000000000000000000000000,
                    sn as int >= 0;
            assert(den >= 1) by (nonlinear_arith)
                requires den == rr0 * rr0, 1 <= rr0;
            assert((sd as int) * (sd as int) <= den as int);
            assert(((sd as int) + 1) * ((sd as int) + 1) > den as int);
            lemma_sqrt_floor_unique(den as int, sd as int);
            assert(sd >= 1) by (nonlinear_arith)
                requires
                    (sd as int + 1) * (sd as int + 1) > den as int,
                    den as int >= 1,
                    sd as int >= 0;
            assert(den as int <= 1000000000000000000000000000000000000) by (nonlinear_arith)
                requires den == rr0 * rr0, 1 <= rr0 <= 1000000000000000000;
            assert(sd <= 1000000000000000000) by (nonlinear_arith)
                requires
                    (sd as int) * (sd as int) <= den as int,
                    den as int <= 1000000000000000000000000000000000000,
                    sd as int >= 0;
            assert(0 <= (r0 as int) * (sn as int) <= 3000000000000000000000000000)
                by (nonlinear_arith)
                requires
                    1 <= r0 as int <= 1000000000,
                    0 <= sn as int <= 3000000000000000000;
        }
        let rw: i128 = (r0 as i128) * (sn as i128) / (sd as i128) + 1;
        if rw > 3000000000 {
            3000000000
        } else {
            rw as i64
        }
    } else {
        r0
    }
}

/// The centre (in the rotated frame), the two normalized angles, and the
/// sweep extent of the arc; exactly `arc_frame`.
#[verifier::rlimit(100)]
fn arc_center_angles(rx: i64, ry: i64, x1p: i64, y1p: i64, large_arc: bool, sweep: bool)
    -> (r: (i64, i64, i64, i64, i64))
    requires
        1 <= rx <= 3000000000,
        1 <= ry <= 3000000000,
        -2000000000 <= x1p <= 2000000000,
        -2000000000 <= y1p <= 2000000000,
        !(x1p == 0 && y1p == 0),
    ensures
        (r.0 as int, r.1 as int, r.2 as int, r.3 as int, r.4 as int)
            == arc_frame(rx as int, ry as int, x1p as int, y1p as int, large_arc, sweep),
        -4000000000000000000 <= r.0 <= 4000000000000000000,
        -4000000000000000000 <= r.1 <= 4000000000000000000,
        0 <= r.2 < 3600000,
        0 <= r.3 < 3600000,
        r.3 as int == norm_angle_spec(r.2 as int + r.4 as int),
        sweep ==> 0 <= r.4 < 3600000,
        !sweep ==> -3600000 < r.4 <= 0,
{
        // centre in the rotated frame
        proof {
            assert(-6000000000000000000 <= (rx as int) * (y1p as int) <= 6000000000000000000)
                by (nonlinear_arith)
                requires
                    1 <= rx as int <= 3000000000,
                    -2000000000 <= y1p as int <= 2000000000;
            assert(-6000000000000000000 <= (ry as int) * (x1p as int) <= 6000000000000000000)
                by (nonlinear_arith)
                requires
                    1 <= ry as int <= 3000000000,
                    -2000000000 <= x1p as int <= 2000000000;
            assert(1 <= (rx as int) * (ry as int) <= 9000000000000000000) by (nonlinear_arith)
                requires
                    1 <= rx as int <= 3000000000,
                    1 <= ry as int <= 3000000000;
        }
        let a1: i128 = (rx as i128) * (y1p as i128);
        let b1: i128 = (ry as i128) * (x1p as i128);
        let rr: i128 = (rx as i128) * (ry as i128);
        let top: i128 = mul_sq(rr) - mul_sq(a1) - mul_sq(b1);
        let bot: i128 = mul_sq(a1) + mul_sq(b1);
        proof {
            assert(bot <= 72000000000000000000000000000000000000) by (nonlinear_arith)
                requires
                    bot == a1 * a1 + b1 * b1,
                    -6000000000000000000 <= a1 <= 6000000000000000000,
                    -6000000000000000000 <= b1 <= 6000000000000000000;
        }
        let sq_raw: u128 = if top <= 0 { 0 } else { isqrt(top as u128) };
        proof {
            if top > 0 {
                assert(sq_raw * sq_raw <= top as u128);
                assert((sq_raw as int + 1) * (sq_raw as int + 1) > top as int);
                lemma_sqrt_floor_unique(top as int, sq_raw as int);
                assert((sq_raw as int) * (sq_raw as int)
                    <= 81000000000000000000000000000000000000);
            } else {
                assert(sq_raw == 0);
                assert((sq_raw as int) * (sq_raw as int)
                    <= 81000000000000000000000000000000000000) by (nonlinear_arith)
                    requires sq_raw as int == 0;
            }
            assert(sq_raw <= 9000000000000000000) by (nonlinear_arith)
                requires
                    (sq_raw as int) * (sq_raw as int) <= 81000000000000000000000000000000000000,
                    sq_raw as int >= 0;
        }
        let sq: i128 = sq_raw as i128;
        let sqb_raw = isqrt(bot as u128);
        proof {
            assert((sqb_raw as int) * (sqb_raw as int) <= bot as int);
            assert((sqb_raw as int + 1) * (sqb_raw as int + 1) > bot as int);
            lemma_sqrt_floor_unique(bot as int, sqb_raw as int);
            assert(sqb_raw <= 9000000000000000000) by (nonlinear_arith)
                requires
                    (sqb_raw as int) * (sqb_raw as int) <= bot as int,
                    bot as int <= 72000000000000000000000000000000000000,
                    sqb_raw as int >= 0;
        }
        let sqb: i128 = sqb_raw as i128;
        proof {
            assert(bot >= 1) by (nonlinear_arith)
                requires
                    a1 == (rx as int) * (y1p as int),
                    b1 == (ry as int) * (x1p as int),
                    bot == a1 * a1 + b1 * b1,
                    rx as int >= 1,
                    ry as int >= 1,
                    !(x1p as int == 0 && y1p as int == 0);
            assert((sqb_raw as int + 1) * (sqb_raw as int + 1) > bot as int);
            assert(sqb >= 1) by (nonlinear_arith)
                requires
                    (sqb_raw as int + 1) * (sqb_raw as int + 1) > bot as int,
                    bot as int >= 1,
                    sqb_raw as int >= 0,
                    sqb == sqb_raw as int;
        }
        let sign: i128 = if large_arc == sweep { -1 } else { 1 };
        proof {
            assert(0 <= sq * sq <= 81000000000000000000000000000000000000) by (nonlinear_arith)
                requires 0 <= sq <= 9000000000000000000;
            assert(-60000000000000000000000000000000000000
                <= sign * sq * a1 <= 60000000000000000000000000000000000000)
                by (nonlinear_arith)
                requires
                    sign == 1 || sign == -1,
                    0 <= sq <= 9000000000000000000,
                    -6000000000000000000 <= a1 <= 6000000000000000000;
            assert(-60000000000000000000000000000000000000
                <= sign * sq * b1 <= 60000000000000000000000000000000000000)
                by (nonlinear_arith)
                requires
                    sign == 1 || sign == -1,
                    0 <= sq <= 9000000000000000000,
                    -6000000000000000000 <= b1 <= 6000000000000000000;
            assert(1 <= sqb * (ry as int) <= 27000000000000000000000000000)
                by (nonlinear_arith)
                requires
                    1 <= sqb <= 9000000000000000000,
                    1 <= ry as int <= 3000000000;
            assert(1 <= sqb * (rx as int) <= 27000000000000000000000000000)
                by (nonlinear_arith)
                requires
                    1 <= sqb <= 9000000000000000000,
                    1 <= rx as int <= 3000000000;
            assert(-9000000000000000000 <= sign * sq <= 9000000000000000000)
                by (nonlinear_arith)
                requires sign == 1 || sign == -1, 0 <= sq <= 9000000000000000000;
        }
        let numx: i128 = sign * sq * a1;
        let numy: i128 = sign * sq * b1;
        let dx2: i128 = sqb * (ry as i128);
        let dy2: i128 = sqb * (rx as i128);
        let qx: i128 = if numx >= 0 { numx / dx2 } else { -((-numx) / dx2) };
        let qy: i128 = if numy >= 0 { numy / dy2 } else { -((-numy) / dy2) };
        let cxp = clamp_wide(qx);
        let cyp = clamp_wide(-qy);
        proof {
            assert(cxp as int == clampw(tdivw(numx as int, dx2 as int)));
            assert(cyp as int == clampw(-tdivw(numy as int, dy2 as int)));
        }
        // angles of the start and the reflected end around that centre
        let ux = clamp_wide(x1p as i128 - cxp as i128);
        let uy = clamp_wide(y1p as i128 - cyp as i128);
        let vx = clamp_wide(-(x1p as i128) - cxp as i128);
        let vy = clamp_wide(-(y1p as i128) - cyp as i128);
        let theta1 = atan2_fx(uy, ux);
        let theta_v = atan2_fx(vy, vx);
        let mut dtheta: i64 = theta_v - theta1;
        if dtheta > 1800000 {
            dtheta = dtheta - 3600000;
        } else if dtheta <= -1800000 {
            dtheta = dtheta + 3600000;
        }
        if !sweep && dtheta > 0 {
            dtheta = dtheta - 3600000;
        } else if sweep && dtheta < 0 {
            dtheta = dtheta + 3600000;
        }
        let theta2 = norm_angle(theta1 + dtheta);
        (cxp, cyp, theta1, theta2, dtheta)
}

fn tdiv2_exec(a: i64) -> (r: i64)
    requires
        -4000000000 <= a <= 4000000000,
    ensures
        r as int == tdiv2w(a as int),
        -2000000000 <= r <= 2000000000,
{
    if a >= 0 { a / 2 } else { -((-a) / 2) }
}

/// A trigonometric factor times a chord value, in the wide integers.
fn mul_trig(c: i64, d: i64) -> (r: i128)
    requires
        -10000 <= c <= 10000,
        -2000000000 <= d <= 2000000000,
    ensures
        r == c as int * d as int,
        -20000000000000 <= r <= 20000000000000,
{
    proof {
        assert(-20000000000000 <= (c as int) * (d as int) <= 20000000000000)
            by (nonlinear_arith)
            requires -10000 <= c as int <= 10000, -2000000000 <= d as int <= 2000000000;
    }
    (c as i128) * (d as i128)
}

/// A trigonometric factor times a clamped centre coordinate.
fn mul_wide_trig(c: i64, d: i64) -> (r: i128)
    requires
        -10000 <= c <= 10000,
        -4000000000000000000 <= d <= 4000000000000000000,
    ensures
        r == c as int * d as int,
        -40000000000000000000000 <= r <= 40000000000000000000000,
{
    proof {
        assert(-40000000000000000000000 <= (c as int) * (d as int)
            <= 40000000000000000000000) by (nonlinear_arith)
            requires
                -10000 <= c as int <= 10000,
                -4000000000000000000 <= d as int <= 4000000000000000000;
    }
    (c as i128) * (d as i128)
}

/// The square of a bounded wide value; the bound keeps every later sum of
/// squares inside the wide integer.
fn mul_sq(a: i128) -> (r: i128)
    requires
        -9000000000000000000 <= a <= 9000000000000000000,
    ensures
        r == a * a,
        0 <= r <= 81000000000000000000000000000000000000,
{
    proof {
        assert(0 <= a * a <= 81000000000000000000000000000000000000) by (nonlinear_arith)
            requires -9000000000000000000 <= a <= 9000000000000000000;
    }
    a * a
}

fn arc_error() -> (r: ConversionError)
    ensures
        r is ArcConversion,
{
    let mut m = String::new();
    m.append("degenerate arc");
    ConversionError::ArcConversion(m)
}

} // verus!
