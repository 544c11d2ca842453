//! Fan curves and the interpolator that maps a temperature to a fan speed.

use vstd::prelude::*;

verus! {

/// One breakpoint of a fan curve: at `temperature` degrees Celsius the fan
/// runs at `speed` percent.
#[derive(Clone, Copy, PartialEq, Eq, Structural, Debug)]
pub struct FanPoint {
    pub temperature: i32,
    pub speed: i32,
}

/// The two curves of the chassis: the left fan follows the CPU sensor, the
/// right fan the GPU sensor.
#[derive(Debug)]
pub struct FanData {
    pub left_fan: Vec<FanPoint>,
    pub right_fan: Vec<FanPoint>,
}

/// The point that stands below the first point of every curve.
pub open spec fn origin() -> FanPoint {
    FanPoint { temperature: 0, speed: 0 }
}

pub open spec fn magnitude(x: int) -> int {
    if x < 0 {
        -x
    } else {
        x
    }
}

/// The quotient of `n` by `d`, rounded toward zero.
pub open spec fn trunc_div(n: int, d: int) -> int {
    let q = magnitude(n) / magnitude(d);
    if (n < 0) != (d < 0) {
        -q
    } else {
        q
    }
}

/// The width of a bracket in thousandths of a degree, widened by one
/// thousandth so that a bracket of zero width divides by no zero.
pub open spec fn bracket_width(lower: FanPoint, upper: FanPoint) -> int {
    1000 * (upper.temperature - lower.temperature) + 1
}

/// Linear interpolation between two points over the widened bracket:
/// `s_lo + (s_hi - s_lo) / (t_hi - t_lo + 0.001) * (t - t_lo)`, the whole
/// rounded toward zero. The value is taken exactly, as one fraction over
/// the bracket's width in thousandths.
pub open spec fn interpolate(lower: FanPoint, upper: FanPoint, t: int) -> int {
    trunc_div(
        lower.speed * bracket_width(lower, upper) + 1000 * (upper.speed - lower.speed) * (t
            - lower.temperature),
        bracket_width(lower, upper),
    )
}

/// Index of the first point at or after `from` whose temperature is at
/// least `t`; the curve's length if there is none.
pub open spec fn first_at_or_above(curve: Seq<FanPoint>, t: int, from: int) -> int
    decreases curve.len() - from,
{
    if from < 0 || from >= curve.len() {
        curve.len() as int
    } else if curve[from].temperature >= t {
        from
    } else {
        first_at_or_above(curve, t, from + 1)
    }
}

/// The lower end of the bracket whose upper end is point `index`: the point
/// before it, or the origin before the first point.
pub open spec fn lower_point(curve: Seq<FanPoint>, index: int) -> FanPoint {
    if index == 0 {
        origin()
    } else {
        curve[index - 1]
    }
}

/// The speed that a curve gives at temperature `t`: interpolated in the
/// bracket that ends at the first point not below `t`, and none where every
/// point is below `t`.
pub open spec fn speed_at_spec(curve: Seq<FanPoint>, t: int) -> Option<int> {
    let index = first_at_or_above(curve, t, 0);
    if index < curve.len() {
        Some(interpolate(lower_point(curve, index), curve[index], t))
    } else {
        None
    }
}

pub open spec fn between(x: int, a: int, b: int) -> bool {
    (a <= x <= b) || (b <= x <= a)
}

/// What the scan finds: every point before the result is below `t`, and the
/// result, where it is a point, is not.
pub proof fn lemma_first_at_or_above(curve: Seq<FanPoint>, t: int, from: int)
    requires
        0 <= from <= curve.len(),
    ensures
        from <= first_at_or_above(curve, t, from) <= curve.len(),
        forall|j: int|
            from <= j < first_at_or_above(curve, t, from) ==> (#[trigger] curve[j]).temperature
                < t,
        first_at_or_above(curve, t, from) < curve.len() ==> curve[first_at_or_above(
            curve,
            t,
            from,
        )].temperature >= t,
    decreases curve.len() - from,
{
    if from < curve.len() && curve[from].temperature < t {
        lemma_first_at_or_above(curve, t, from + 1);
    }
}

fn trunc_divide(n: i128, d: i128) -> (q: i128)
    requires
        d != 0,
        n > i128::MIN,
        d > i128::MIN,
    ensures
        q == trunc_div(n as int, d as int),
{
    let an: u128 = if n < 0 {
        (-n) as u128
    } else {
        n as u128
    };
    let ad: u128 = if d < 0 {
        (-d) as u128
    } else {
        d as u128
    };
    let aq: u128 = an / ad;
    assert(aq <= an) by (nonlinear_arith)
        requires
            aq == an / ad,
            ad >= 1,
    ;
    if (n < 0) != (d < 0) {
        -(aq as i128)
    } else {
        aq as i128
    }
}

/// Interpolates between two points at temperature `t`.
pub fn interpolate_speed(lower: FanPoint, upper: FanPoint, t: i64) -> (speed: i128)
    ensures
        speed == interpolate(lower, upper, t as int),
{
    let ds: i128 = upper.speed as i128 - lower.speed as i128;
    let dx: i128 = t as i128 - lower.temperature as i128;
    let dt: i128 = upper.temperature as i128 - lower.temperature as i128;
    let scaled: i128 = 1000 * ds;
    let d: i128 = 1000 * dt + 1;
    let s: i128 = lower.speed as i128;
    assert(-0x8000_0000_0000_0000_0000_0000_0000 <= scaled * dx
        <= 0x8000_0000_0000_0000_0000_0000_0000) by (nonlinear_arith)
        requires
            -0x4000_0000_0000 <= scaled <= 0x4000_0000_0000,
            -0x1_0000_0000_0000_0000 <= dx <= 0x1_0000_0000_0000_0000,
    ;
    assert(-0x8000_0000_0000_0000_0000 <= s * d <= 0x8000_0000_0000_0000_0000)
        by (nonlinear_arith)
        requires
            -0x8000_0000 <= s <= 0x8000_0000,
            -0x1_0000_0000_0000 <= d <= 0x1_0000_0000_0000,
    ;
    let n: i128 = s * d + scaled * dx;
    trunc_divide(n, d)
}

/// The speed that `curve` gives at `current_temp`, or none where the curve
/// has no point at or above that temperature.
pub fn speed_at(curve: &[FanPoint], current_temp: i64) -> (speed: Option<i128>)
    ensures
        match speed_at_spec(curve@, current_temp as int) {
            Some(s) => speed == Some(s as i128) && s == s as i128,
            None => speed is None,
        },
        speed is None <==> forall|i: int|
            0 <= i < curve@.len() ==> (#[trigger] curve@[i]).temperature < current_temp,
{
    let ghost t = current_temp as int;
    let mut i: usize = 0;
    proof {
        lemma_first_at_or_above(curve@, t, 0);
    }
    while i < curve.len()
        invariant
            0 <= i <= curve.len(),
            t == current_temp as int,
            first_at_or_above(curve@, t, 0) == first_at_or_above(curve@, t, i as int),
        decreases curve.len() - i,
    {
        if curve[i].temperature as i64 >= current_temp {
            let lower: FanPoint = if i == 0 {
                FanPoint { temperature: 0, speed: 0 }
            } else {
                curve[i - 1]
            };
            return Some(interpolate_speed(lower, curve[i], current_temp));
        }
        i += 1;
    }
    None
}

/// Whether every speed of the curve is a percentage.
pub open spec fn speeds_are_percent(curve: Seq<FanPoint>) -> bool {
    forall|i: int| 0 <= i < curve.len() ==> 0 <= (#[trigger] curve[i]).speed <= 100
}

/// Whether the temperatures never fall from one point to the next.
pub open spec fn ascending(curve: Seq<FanPoint>) -> bool {
    forall|i: int, j: int|
        0 <= i <= j < curve.len() ==> (#[trigger] curve[i]).temperature <= (
        #[trigger] curve[j]).temperature
}

/// Tells whether a curve is fit for use: its speeds are percentages and its
/// temperatures ascend.
pub fn is_valid_curve(curve: &[FanPoint]) -> (valid: bool)
    ensures
        valid == (speeds_are_percent(curve@) && ascending(curve@)),
{
    let mut i: usize = 0;
    while i < curve.len()
        invariant
            0 <= i <= curve.len(),
            speeds_are_percent(curve@.subrange(0, i as int)),
            ascending(curve@.subrange(0, i as int)),
        decreases curve.len() - i,
    {
        let ghost seen = curve@.subrange(0, i as int);
        let ghost next = curve@.subrange(0, i + 1);
        if curve[i].speed < 0 || curve[i].speed > 100 {
            assert(!(0 <= curve@[i as int].speed <= 100));
            return false;
        }
        if i > 0 && curve[i - 1].temperature > curve[i].temperature {
            assert(curve@[i - 1].temperature > curve@[i as int].temperature);
            return false;
        }
        assert(speeds_are_percent(next)) by {
            assert forall|k: int| 0 <= k < next.len() implies 0 <= (#[trigger] next[k]).speed
                <= 100 by {
                if k < i {
                    assert(seen[k] == next[k]);
                }
            }
        }
        assert(ascending(next)) by {
            assert forall|a: int, b: int| 0 <= a <= b < next.len() implies (
            #[trigger] next[a]).temperature <= (#[trigger] next[b]).temperature by {
                if b < i {
                    assert(seen[a] == next[a] && seen[b] == next[b]);
                } else if a < i {
                    assert(seen[a] == next[a] && seen[i - 1] == next[i - 1]);
                }
            }
        }
        i += 1;
    }
    assert(curve@.subrange(0, i as int) =~= curve@);
    true
}

/// A quotient rounded toward zero lies between two whole numbers where the
/// exact quotient does.
pub proof fn lemma_trunc_div_between(n: int, d: int, a: int, b: int)
    requires
        d > 0,
        a * d <= n <= b * d,
    ensures
        a <= trunc_div(n, d) <= b,
{
    let pa = a * d;
    let pb = b * d;
    if n >= 0 {
        assert(a <= n / d <= b) by (nonlinear_arith)
            requires
                d > 0,
                pa == a * d,
                pb == b * d,
                pa <= n <= pb,
        ;
    } else {
        let m = -n;
        assert(-b <= m / d <= -a) by (nonlinear_arith)
            requires
                d > 0,
                pa == a * d,
                pb == b * d,
                -pb <= m <= -pa,
        ;
    }
}

/// When a fraction that lies `e / d` below the whole number `s` rounds to
/// `s`: the distance is less than one, and `s` lies on the side of zero.
pub proof fn lemma_trunc_div_exact(s: int, e: int, d: int)
    requires
        d > 0,
    ensures
        trunc_div(s * d - e, d) == s <==> (magnitude(e) < d && (s > 0 ==> e <= 0) && (s < 0 ==> e
            >= 0)),
{
    let p = s * d;
    let n = p - e;
    assert((s >= 1 ==> p >= d) && (s <= -1 ==> p <= -d) && (s == 0 ==> p == 0))
        by (nonlinear_arith)
        requires
            p == s * d,
            d > 0,
    ;
    if n >= 0 {
        assert((n / d == s) <==> (p <= n < p + d)) by (nonlinear_arith)
            requires
                p == s * d,
                d > 0,
                n >= 0,
        ;
    } else {
        let m = -n;
        assert((m / d == -s) <==> (-p <= m < -p + d)) by (nonlinear_arith)
            requires
                p == s * d,
                d > 0,
                m > 0,
        ;
    }
}

/// At a temperature inside a bracket the interpolated speed lies between
/// the speeds of the bracket's two points.
pub proof fn lemma_interpolate_between(lower: FanPoint, upper: FanPoint, t: int)
    requires
        lower.temperature <= t <= upper.temperature,
    ensures
        between(interpolate(lower, upper, t), lower.speed as int, upper.speed as int),
{
    let d = bracket_width(lower, upper);
    let ds = upper.speed - lower.speed;
    let w = 1000 * (t - lower.temperature);
    let lo = lower.speed as int;
    let hi = upper.speed as int;
    let step = 1000 * ds * (t - lower.temperature);
    assert(step == ds * w) by (nonlinear_arith)
        requires
            step == 1000 * ds * (t - lower.temperature),
            w == 1000 * (t - lower.temperature),
    ;
    let n = lo * d + step;
    assert(hi * d == lo * d + ds * d) by (nonlinear_arith)
        requires
            hi == lo + ds,
    ;
    if ds >= 0 {
        assert(0 <= ds * w <= ds * d) by (nonlinear_arith)
            requires
                0 <= w < d,
                ds >= 0,
        ;
        lemma_trunc_div_between(n, d, lo, hi);
    } else {
        assert(ds * d <= ds * w <= 0) by (nonlinear_arith)
            requires
                0 <= w < d,
                ds < 0,
        ;
        lemma_trunc_div_between(n, d, hi, lo);
    }
}

/// A curve gives no speed exactly where all its points lie below the
/// temperature.
pub proof fn lemma_no_bracket(curve: Seq<FanPoint>, t: int)
    ensures
        speed_at_spec(curve, t) is None <==> forall|i: int|
            0 <= i < curve.len() ==> (#[trigger] curve[i]).temperature < t,
{
    lemma_first_at_or_above(curve, t, 0);
}

/// Where the bracket does not begin at the origin, the speed lies between
/// the speeds of the bracket's two points.
pub proof fn lemma_speed_between(curve: Seq<FanPoint>, t: int)
    requires
        1 <= first_at_or_above(curve, t, 0) < curve.len(),
    ensures
        speed_at_spec(curve, t) is Some,
        between(
            speed_at_spec(curve, t)->Some_0,
            curve[first_at_or_above(curve, t, 0) - 1].speed as int,
            curve[first_at_or_above(curve, t, 0)].speed as int,
        ),
{
    lemma_first_at_or_above(curve, t, 0);
    let index = first_at_or_above(curve, t, 0);
    let lower = curve[index - 1];
    let upper = curve[index];
    lemma_interpolate_between(lower, upper, t);
}

/// With percentages for speeds and a temperature that is not negative, the
/// speed that a curve gives is a percentage.
pub proof fn lemma_speed_is_percent(curve: Seq<FanPoint>, t: int)
    requires
        speeds_are_percent(curve),
        0 <= t,
    ensures
        speed_at_spec(curve, t) is Some ==> 0 <= speed_at_spec(curve, t)->Some_0 <= 100,
{
    lemma_first_at_or_above(curve, t, 0);
    let index = first_at_or_above(curve, t, 0);
    if index < curve.len() {
        let lower = lower_point(curve, index);
        let upper = curve[index];
        if index > 0 {
            assert(0 <= curve[index - 1].speed <= 100);
        }
        lemma_interpolate_between(lower, upper, t);
    }
}

/// On a curve of two points, a temperature above the first point and not
/// above the second gets a speed between the two speeds.
pub proof fn lemma_two_point_between(lo: FanPoint, hi: FanPoint, t: int)
    requires
        lo.temperature < t <= hi.temperature,
    ensures
        speed_at_spec(seq![lo, hi], t) == Some(interpolate(lo, hi, t)),
        between(interpolate(lo, hi, t), lo.speed as int, hi.speed as int),
{
    let curve = seq![lo, hi];
    reveal_with_fuel(first_at_or_above, 3);
    assert(first_at_or_above(curve, t, 0) == 1);
    lemma_speed_between(curve, t);
}

/// On a curve of two points, the temperature of the second point gets a
/// speed between the two speeds. It is the second speed exactly where the
/// difference of the speeds is smaller than the bracket's width in
/// thousandths and the exact value lies beyond the second speed as seen
/// from zero, so that rounding toward zero meets it: a second speed above
/// zero is not above the first, one below zero not below it.
pub proof fn lemma_two_point_at_upper(lo: FanPoint, hi: FanPoint)
    requires
        lo.temperature < hi.temperature,
    ensures
        speed_at_spec(seq![lo, hi], hi.temperature as int) == Some(
            interpolate(lo, hi, hi.temperature as int),
        ),
        between(interpolate(lo, hi, hi.temperature as int), lo.speed as int, hi.speed as int),
        interpolate(lo, hi, hi.temperature as int) == hi.speed <==> (magnitude(
            hi.speed - lo.speed,
        ) < bracket_width(lo, hi) && (hi.speed > 0 ==> hi.speed <= lo.speed) && (hi.speed < 0
            ==> hi.speed >= lo.speed)),
{
    let t = hi.temperature as int;
    lemma_two_point_between(lo, hi, t);
    let d = bracket_width(lo, hi);
    let ds = hi.speed - lo.speed;
    let s_lo = lo.speed as int;
    let s_hi = hi.speed as int;
    let step = 1000 * ds * (t - lo.temperature);
    assert(s_lo * d + step == s_hi * d - ds) by (nonlinear_arith)
        requires
            step == 1000 * ds * (t - lo.temperature),
            d == 1000 * (t - lo.temperature) + 1,
            s_hi == s_lo + ds,
    ;
    lemma_trunc_div_exact(s_hi, ds, d);
}

/// On a curve of two points, the temperature of the first point is
/// bracketed by the origin and the first point. It gets the first speed
/// exactly where that speed is zero, or where the temperature is negative
/// and the speed smaller in size than the widened bracket.
pub proof fn lemma_two_point_at_lower(lo: FanPoint, hi: FanPoint)
    ensures
        speed_at_spec(seq![lo, hi], lo.temperature as int) == Some(
            interpolate(origin(), lo, lo.temperature as int),
        ),
        interpolate(origin(), lo, lo.temperature as int) == lo.speed <==> (lo.speed == 0 || (
        lo.temperature < 0 && magnitude(lo.speed as int) < -1000 * lo.temperature - 1)),
{
    let curve = seq![lo, hi];
    let t = lo.temperature as int;
    let s = lo.speed as int;
    let d = bracket_width(origin(), lo);
    let n = 1000 * s * t;
    reveal_with_fuel(first_at_or_above, 3);
    assert(first_at_or_above(curve, t, 0) == 0);
    let zero = origin().speed as int;
    assert(zero * d == 0) by (nonlinear_arith)
        requires
            zero == 0,
    ;
    assert(1000 * (s - zero) * (t - 0) == n) by (nonlinear_arith)
        requires
            zero == 0,
            n == 1000 * s * t,
    ;
    assert(interpolate(origin(), lo, t) == trunc_div(n, d));
    if t >= 0 {
        assert(n == s * d - s) by (nonlinear_arith)
            requires
                n == 1000 * s * t,
                d == 1000 * t + 1,
        ;
        lemma_trunc_div_exact(s, s, d);
    } else if s == 0 {
        let m = magnitude(d);
        assert(n == 0) by (nonlinear_arith)
            requires
                n == 1000 * s * t,
                s == 0,
        ;
        assert(0int / m == 0) by (nonlinear_arith)
            requires
                m > 0,
        ;
    } else {
        let m = -1000 * t - 1;
        let a = magnitude(s);
        let an = magnitude(n);
        assert(an == a * m + a) by (nonlinear_arith)
            requires
                an == magnitude(n),
                n == 1000 * s * t,
                a == magnitude(s),
                m == -1000 * t - 1,
                t < 0,
        ;
        assert(an / m == a <==> a < m) by (nonlinear_arith)
            requires
                an == a * m + a,
                a > 0,
                m > 0,
        ;
        assert((n < 0) <==> s > 0) by (nonlinear_arith)
            requires
                n == 1000 * s * t,
                t < 0,
                s != 0,
        ;
    }
}

/// An interpolated speed fits in 128 bits where the temperature fits in 64.
pub proof fn lemma_interpolate_fits(lower: FanPoint, upper: FanPoint, t: int)
    requires
        i64::MIN <= t <= i64::MAX,
    ensures
        i128::MIN <= interpolate(lower, upper, t) <= i128::MAX,
{
    let scaled = 1000 * (upper.speed - lower.speed);
    let dx = t - lower.temperature;
    let d = bracket_width(lower, upper);
    let s = lower.speed as int;
    let step = scaled * dx;
    let base = s * d;
    assert(-0x8000_0000_0000_0000_0000_0000_0000 <= step <= 0x8000_0000_0000_0000_0000_0000_0000)
        by (nonlinear_arith)
        requires
            step == scaled * dx,
            -0x4000_0000_0000 <= scaled <= 0x4000_0000_0000,
            -0x1_0000_0000_0000_0000 <= dx <= 0x1_0000_0000_0000_0000,
    ;
    assert(-0x8000_0000_0000_0000_0000 <= base <= 0x8000_0000_0000_0000_0000)
        by (nonlinear_arith)
        requires
            base == s * d,
            -0x8000_0000 <= s <= 0x8000_0000,
            -0x1_0000_0000_0000 <= d <= 0x1_0000_0000_0000,
    ;
    let n = base + step;
    assert(magnitude(trunc_div(n, d)) <= magnitude(n)) by (nonlinear_arith)
        requires
            d != 0,
    ;
}

/// The speed that a curve gives fits in 128 bits where the temperature fits
/// in 64.
pub proof fn lemma_speed_fits(curve: Seq<FanPoint>, t: int)
    requires
        i64::MIN <= t <= i64::MAX,
    ensures
        speed_at_spec(curve, t) matches Some(s) ==> i128::MIN <= s <= i128::MAX,
{
    lemma_first_at_or_above(curve, t, 0);
    let index = first_at_or_above(curve, t, 0);
    if index < curve.len() {
        lemma_interpolate_fits(lower_point(curve, index), curve[index], t);
    }
}

} // verus!
