use vstd::prelude::*;
use crate::config::{AlertsConfig, TrendConfig};
use crate::history::{last_n, CircularBuffer, DataPoint, MetricsHistory};

verus! {

/// Where a metric is heading.
#[derive(Debug, Clone, Copy, PartialEq, Eq, Structural)]
pub enum TrendDirection {
    Increasing,
    Decreasing,
    Stable,
    Volatile,
}

/// Which metric a trend is about.
#[derive(Debug, Clone, Copy, PartialEq, Eq, Structural)]
pub enum TrendType {
    Cpu,
    Memory,
    Swap,
    GpuTemp(usize),
    GpuUtil(usize),
    GpuMemory(usize),
}

/// How urgent a trend is.
#[derive(Debug, Clone, Copy, PartialEq, Eq, Structural, PartialOrd)]
pub enum TrendSeverity {
    Info,
    Warning,
    Critical,
}

/// The forecast for one metric. Values are in thousandths of the metric's
/// unit; `confidence` is the fit's R² in millionths.
#[derive(Debug, Clone, Copy)]
pub struct MetricTrend {
    pub metric: TrendType,
    pub direction: TrendDirection,
    pub rate_per_minute: i64,
    pub confidence: u32,
    pub predicted_value_5min: i128,
    pub time_to_threshold: Option<u64>,
    pub severity: TrendSeverity,
}

/// Fewer samples than this give no trend.
pub const MIN_DATA_POINTS: usize = 3;

/// A trend is fitted over at most this many of the most recent samples.
pub const ANALYSIS_WINDOW: usize = 10;

/// A projected threshold crossing further away than this (seconds) is dropped.
pub const MAX_HORIZON_SECS: u64 = 7200;

// ---- the least-squares fit, over x = 0..n-1 and y = the sampled values ----

pub open spec fn sum_y(w: Seq<DataPoint<u32>>) -> int
    decreases w.len(),
{
    if w.len() == 0 {
        0
    } else {
        sum_y(w.drop_last()) + w.last().value
    }
}

pub open spec fn sum_xy(w: Seq<DataPoint<u32>>) -> int
    decreases w.len(),
{
    if w.len() == 0 {
        0
    } else {
        sum_xy(w.drop_last()) + (w.len() - 1) * w.last().value
    }
}

pub open spec fn sum_yy(w: Seq<DataPoint<u32>>) -> int
    decreases w.len(),
{
    if w.len() == 0 {
        0
    } else {
        sum_yy(w.drop_last()) + w.last().value * w.last().value
    }
}

/// Σx over x = 0..n-1.
pub open spec fn sum_x(n: int) -> int {
    n * (n - 1) / 2
}

/// Σx² over x = 0..n-1.
pub open spec fn sum_xx(n: int) -> int {
    (n - 1) * n * (2 * n - 1) / 6
}

/// The fitted slope is `slope_num(w) / slope_den(n)`, in thousandths of the
/// unit per sample.
pub open spec fn slope_num(w: Seq<DataPoint<u32>>) -> int {
    w.len() * sum_xy(w) - sum_x(w.len() as int) * sum_y(w)
}

pub open spec fn slope_den(n: int) -> int {
    n * sum_xx(n) - sum_x(n) * sum_x(n)
}

/// n² times the variance of the values.
pub open spec fn spread(w: Seq<DataPoint<u32>>) -> int {
    w.len() * sum_yy(w) - sum_y(w) * sum_y(w)
}

pub open spec fn abs(a: int) -> int {
    if a < 0 {
        -a
    } else {
        a
    }
}

/// Division rounding toward zero.
pub open spec fn trunc_div(a: int, b: int) -> int {
    if a >= 0 {
        a / b
    } else {
        -((-a) / b)
    }
}

/// |slope| below 0.01 units per sample is stable; otherwise an R² below
/// one half is volatile; otherwise the slope's sign decides. R² is
/// `num² / (den · spread)`, and zero when the values do not vary.
pub open spec fn spec_direction(w: Seq<DataPoint<u32>>) -> TrendDirection {
    let num = slope_num(w);
    let den = slope_den(w.len() as int);
    if abs(num) < 10 * den {
        TrendDirection::Stable
    } else if spread(w) <= 0 || 2 * (num * num) < den * spread(w) {
        TrendDirection::Volatile
    } else if num > 0 {
        TrendDirection::Increasing
    } else {
        TrendDirection::Decreasing
    }
}

/// R² in millionths, rounded down (an R² never exceeds one).
pub open spec fn spec_confidence(w: Seq<DataPoint<u32>>) -> int {
    let num = slope_num(w);
    let den = slope_den(w.len() as int);
    if spread(w) <= 0 {
        0
    } else {
        let q = num * num * 1_000_000 / (den * spread(w));
        if q > 1_000_000 {
            1_000_000
        } else {
            q
        }
    }
}

/// Slope × (60 / interval): thousandths of the unit per minute, rounded
/// toward zero.
pub open spec fn spec_rate(w: Seq<DataPoint<u32>>, interval: int) -> int {
    trunc_div(slope_num(w) * 60, slope_den(w.len() as int) * interval)
}

/// The fitted line at x = n + 300 / interval (five minutes past the window),
/// rounded toward zero. The intercept is (Σy − slope·Σx) / n.
pub open spec fn spec_forecast(w: Seq<DataPoint<u32>>, interval: int) -> int {
    let n = w.len() as int;
    let num = slope_num(w);
    let den = slope_den(n);
    trunc_div(
        num * (n * interval + 300) * n + (sum_y(w) * den - num * sum_x(n)) * interval,
        n * den * interval,
    )
}

/// Seconds until the fitted line reaches `threshold` from the latest value,
/// rounded down: only for a rising trend below the threshold, and only when
/// under the two-hour cap.
pub open spec fn spec_time_to_threshold(
    w: Seq<DataPoint<u32>>,
    threshold: int,
    interval: int,
) -> Option<u64> {
    let num = slope_num(w);
    let den = slope_den(w.len() as int);
    let current = w.last().value as int;
    if spec_direction(w) == TrendDirection::Increasing && current < threshold {
        let scaled = (threshold - current) * interval * den;
        if scaled < MAX_HORIZON_SECS * num {
            Some((scaled / num) as u64)
        } else {
            None
        }
    } else {
        None
    }
}

/// Whether the fitted rate exceeds 5 units per minute in magnitude.
pub open spec fn fast_rate(w: Seq<DataPoint<u32>>, interval: int) -> bool {
    abs(slope_num(w)) * 60 > 5000 * (slope_den(w.len() as int) * interval)
}

/// Under five minutes to the threshold is critical, under ten a warning;
/// otherwise (no crossing, or one ten minutes or more away) a rate above 5
/// units per minute is a warning, and anything else is info.
pub open spec fn spec_severity(w: Seq<DataPoint<u32>>, threshold: int, interval: int) -> TrendSeverity {
    match spec_time_to_threshold(w, threshold, interval) {
        Some(t) if t < 300 => TrendSeverity::Critical,
        Some(t) if t < 600 => TrendSeverity::Warning,
        _ => if fast_rate(w, interval) {
            TrendSeverity::Warning
        } else {
            TrendSeverity::Info
        },
    }
}

/// The samples a trend is fitted over.
pub open spec fn analysis_window(buf: Seq<DataPoint<u32>>) -> Seq<DataPoint<u32>> {
    last_n(buf, ANALYSIS_WINDOW as nat)
}

/// The trend of a buffer's samples, before the confidence filter.
pub open spec fn spec_trend(
    buf: Seq<DataPoint<u32>>,
    metric: TrendType,
    threshold: u32,
    config: TrendConfig,
) -> Option<MetricTrend> {
    let w = analysis_window(buf);
    let interval = config.sample_interval_secs as int;
    let direction = spec_direction(w);
    if buf.len() < MIN_DATA_POINTS {
        None
    } else if !config.show_stable_trends && (direction == TrendDirection::Stable
        || direction == TrendDirection::Volatile) {
        None
    } else {
        Some(
            MetricTrend {
                metric,
                direction,
                rate_per_minute: spec_rate(w, interval) as i64,
                confidence: spec_confidence(w) as u32,
                predicted_value_5min: spec_forecast(w, interval) as i128,
                time_to_threshold: spec_time_to_threshold(w, threshold as int, interval),
                severity: spec_severity(w, threshold as int, interval),
            },
        )
    }
}


// ---- computing the fit ----

/// The sums of a window, exactly as the spec functions give them.
struct Fit {
    n: i128,
    sum_x: i128,
    sum_y: i128,
    num: i128,
    den: i128,
    spread: i128,
}

impl Fit {
    spec fn of(self, w: Seq<DataPoint<u32>>) -> bool {
        &&& 3 <= w.len() <= 10
        &&& self.n == w.len()
        &&& self.sum_x == sum_x(w.len() as int)
        &&& self.sum_y == sum_y(w)
        &&& self.num == slope_num(w)
        &&& self.den == slope_den(w.len() as int)
        &&& self.spread == spread(w)
        &&& 0 <= self.sum_x <= 45
        &&& 0 < self.den <= 825
        &&& 0 <= self.sum_y <= 10 * 0xFFFF_FFFF
        &&& -450 * 0xFFFF_FFFF <= self.num <= 900 * 0xFFFF_FFFF
        &&& -100 * 0xFFFF_FFFE_0000_0001 <= self.spread <= 100 * 0xFFFF_FFFE_0000_0001
    }
}

proof fn lemma_small_n(n: int)
    requires
        3 <= n <= 10,
    ensures
        0 <= sum_x(n) <= 45,
        0 < slope_den(n) <= 825,
        sum_x(n) == n * (n - 1) / 2,
        sum_xx(n) == (n - 1) * n * (2 * n - 1) / 6,
        0 <= n * (n - 1) <= 90,
        0 <= (n - 1) * n <= 90,
        0 <= (n - 1) * n * (2 * n - 1) <= 1710,
        0 <= n * sum_xx(n) <= 2850,
        0 <= sum_x(n) * sum_x(n) <= 2025,
{
    if n == 3 {
        assert(n * (n - 1) == 6 && (n - 1) * n == 6);
        assert((n - 1) * n * (2 * n - 1) == 30);
        assert(sum_x(n) == 3 && sum_xx(n) == 5);
        assert(n * sum_xx(n) == 15);
        assert(sum_x(n) * sum_x(n) == 9);
        assert(slope_den(n) == 6);
    } else if n == 4 {
        assert(n * (n - 1) == 12 && (n - 1) * n == 12);
        assert((n - 1) * n * (2 * n - 1) == 84);
        assert(sum_x(n) == 6 && sum_xx(n) == 14);
        assert(n * sum_xx(n) == 56);
        assert(sum_x(n) * sum_x(n) == 36);
        assert(slope_den(n) == 20);
    } else if n == 5 {
        assert(n * (n - 1) == 20 && (n - 1) * n == 20);
        assert((n - 1) * n * (2 * n - 1) == 180);
        assert(sum_x(n) == 10 && sum_xx(n) == 30);
        assert(n * sum_xx(n) == 150);
        assert(sum_x(n) * sum_x(n) == 100);
        assert(slope_den(n) == 50);
    } else if n == 6 {
        assert(n * (n - 1) == 30 && (n - 1) * n == 30);
        assert((n - 1) * n * (2 * n - 1) == 330);
        assert(sum_x(n) == 15 && sum_xx(n) == 55);
        assert(n * sum_xx(n) == 330);
        assert(sum_x(n) * sum_x(n) == 225);
        assert(slope_den(n) == 105);
    } else if n == 7 {
        assert(n * (n - 1) == 42 && (n - 1) * n == 42);
        assert((n - 1) * n * (2 * n - 1) == 546);
        assert(sum_x(n) == 21 && sum_xx(n) == 91);
        assert(n * sum_xx(n) == 637);
        assert(sum_x(n) * sum_x(n) == 441);
        assert(slope_den(n) == 196);
    } else if n == 8 {
        assert(n * (n - 1) == 56 && (n - 1) * n == 56);
        assert((n - 1) * n * (2 * n - 1) == 840);
        assert(sum_x(n) == 28 && sum_xx(n) == 140);
        assert(n * sum_xx(n) == 1120);
        assert(sum_x(n) * sum_x(n) == 784);
        assert(slope_den(n) == 336);
    } else if n == 9 {
        assert(n * (n - 1) == 72 && (n - 1) * n == 72);
        assert((n - 1) * n * (2 * n - 1) == 1224);
        assert(sum_x(n) == 36 && sum_xx(n) == 204);
        assert(n * sum_xx(n) == 1836);
        assert(sum_x(n) * sum_x(n) == 1296);
        assert(slope_den(n) == 540);
    } else if n == 10 {
        assert(n * (n - 1) == 90 && (n - 1) * n == 90);
        assert((n - 1) * n * (2 * n - 1) == 1710);
        assert(sum_x(n) == 45 && sum_xx(n) == 285);
        assert(n * sum_xx(n) == 2850);
        assert(sum_x(n) * sum_x(n) == 2025);
        assert(slope_den(n) == 825);
    }
}

proof fn lemma_step_sums(w: Seq<DataPoint<u32>>, j: int)
    requires
        0 <= j < w.len(),
    ensures
        sum_y(w.subrange(0, j + 1)) == sum_y(w.subrange(0, j)) + w[j].value,
        sum_xy(w.subrange(0, j + 1)) == sum_xy(w.subrange(0, j)) + j * w[j].value,
        sum_yy(w.subrange(0, j + 1)) == sum_yy(w.subrange(0, j)) + w[j].value * w[j].value,
{
    assert(w.subrange(0, j + 1).drop_last() =~= w.subrange(0, j));
}

proof fn lemma_term_bounds(j: int, v: int)
    requires
        0 <= j <= 9,
        0 <= v <= 0xFFFF_FFFF,
    ensures
        0 <= j * v <= 9 * 0xFFFF_FFFF,
        0 <= v * v <= 0xFFFF_FFFE_0000_0001,
{
    assert(0 <= j * v <= 9 * 0xFFFF_FFFF) by (nonlinear_arith)
        requires
            0 <= j <= 9,
            0 <= v <= 0xFFFF_FFFF,
    ;
    assert(0 <= v * v <= 0xFFFF_FFFE_0000_0001) by (nonlinear_arith)
        requires
            0 <= v <= 0xFFFF_FFFF,
    ;
}

proof fn lemma_fit_bounds(n: int, sx: int, sy: int, sxy: int, syy: int)
    requires
        3 <= n <= 10,
        0 <= sx <= 45,
        0 <= sy <= n * 0xFFFF_FFFF,
        0 <= sxy <= n * 9 * 0xFFFF_FFFF,
        0 <= syy <= n * 0xFFFF_FFFE_0000_0001,
    ensures
        0 <= sy <= 10 * 0xFFFF_FFFF,
        0 <= n * sxy <= 900 * 0xFFFF_FFFF,
        0 <= sx * sy <= 450 * 0xFFFF_FFFF,
        0 <= n * syy <= 100 * 0xFFFF_FFFE_0000_0001,
        0 <= sy * sy <= 100 * 0xFFFF_FFFE_0000_0001,
        -450 * 0xFFFF_FFFF <= n * sxy - sx * sy <= 900 * 0xFFFF_FFFF,
        -100 * 0xFFFF_FFFE_0000_0001 <= n * syy - sy * sy <= 100 * 0xFFFF_FFFE_0000_0001,
{
    assert(0 <= n * sxy <= 900 * 0xFFFF_FFFF) by (nonlinear_arith)
        requires
            3 <= n <= 10,
            0 <= sxy <= n * 9 * 0xFFFF_FFFF,
    ;
    assert(0 <= sx * sy <= 450 * 0xFFFF_FFFF) by (nonlinear_arith)
        requires
            0 <= sx <= 45,
            0 <= sy <= n * 0xFFFF_FFFF,
            n <= 10,
    ;
    assert(0 <= n * syy <= 100 * 0xFFFF_FFFE_0000_0001) by (nonlinear_arith)
        requires
            3 <= n <= 10,
            0 <= syy <= n * 0xFFFF_FFFE_0000_0001,
    ;
    assert(0 <= sy * sy <= 100 * 0xFFFF_FFFE_0000_0001) by (nonlinear_arith)
        requires
            0 <= sy <= n * 0xFFFF_FFFF,
            n <= 10,
    ;
}

/// Least-squares sums over `data[start..]`.
fn fit_window(data: &std::collections::VecDeque<DataPoint<u32>>, start: usize) -> (r: Fit)
    requires
        start <= data@.len(),
        3 <= data@.len() - start <= 10,
    ensures
        r.of(data@.subrange(start as int, data@.len() as int)),
{
    let len = data.len();
    let n = len - start;
    let ghost w = data@.subrange(start as int, len as int);
    let mut sy: u128 = 0;
    let mut sxy: u128 = 0;
    let mut syy: u128 = 0;
    let mut j: usize = 0;
    while j < n
        invariant
            len == data@.len(),
            n == len - start,
            3 <= n <= 10,
            w == data@.subrange(start as int, len as int),
            j <= n,
            sy == sum_y(w.subrange(0, j as int)),
            sxy == sum_xy(w.subrange(0, j as int)),
            syy == sum_yy(w.subrange(0, j as int)),
            sy <= j * 0xFFFF_FFFF,
            sxy <= j * 9 * 0xFFFF_FFFF,
            syy <= j * 0xFFFF_FFFE_0000_0001,
        decreases n - j,
    {
        let v = data[start + j].value;
        proof {
            lemma_step_sums(w, j as int);
            lemma_term_bounds(j as int, v as int);
        }
        sy = sy + v as u128;
        sxy = sxy + (j as u128) * (v as u128);
        syy = syy + (v as u128) * (v as u128);
        j = j + 1;
    }
    assert(w.subrange(0, n as int) =~= w);
    let nn = n as i128;
    proof {
        lemma_small_n(n as int);
        assert(sy <= n * 0xFFFF_FFFF);
        assert(sxy <= n * 9 * 0xFFFF_FFFF);
        assert(syy <= n * 0xFFFF_FFFE_0000_0001);
    }
    let sx: i128 = nn * (nn - 1) / 2;
    let sxx: i128 = (nn - 1) * nn * (2 * nn - 1) / 6;
    proof {
        lemma_fit_bounds(n as int, sx as int, sy as int, sxy as int, syy as int);
    }
    let den: i128 = nn * sxx - sx * sx;
    let num: i128 = nn * (sxy as i128) - sx * (sy as i128);
    let spr: i128 = nn * (syy as i128) - (sy as i128) * (sy as i128);
    Fit { n: nn, sum_x: sx, sum_y: sy as i128, num, den, spread: spr }
}


proof fn lemma_mul_bound(a: int, b: int, x: int, y: int)
    requires
        -x <= a <= x,
        -y <= b <= y,
    ensures
        -(x * y) <= a * b <= x * y,
{
    assert(-(x * y) <= a * b <= x * y) by (nonlinear_arith)
        requires
            -x <= a <= x,
            -y <= b <= y,
    ;
}

proof fn lemma_quotient_below(x: int, d: int, k: int)
    requires
        0 <= x < k * d,
        d > 0,
    ensures
        0 <= x / d < k,
{
    vstd::arithmetic::div_mod::lemma_fundamental_div_mod(x, d);
    vstd::arithmetic::div_mod::lemma_div_pos_is_pos(x, d);
    let q = x / d;
    assert(q < k) by (nonlinear_arith)
        requires
            d * q + x % d == x,
            0 <= x % d,
            x < k * d,
            d > 0,
    ;
}

/// Division rounding toward zero, for a positive divisor.
fn div_toward_zero(a: i128, b: i128) -> (r: i128)
    requires
        b > 0,
        a > i128::MIN,
    ensures
        r == trunc_div(a as int, b as int),
        abs(r as int) <= abs(a as int),
{
    if a >= 0 {
        proof {
            vstd::arithmetic::div_mod::lemma_div_nonincreasing(a as int, b as int);
            vstd::arithmetic::div_mod::lemma_div_pos_is_pos(a as int, b as int);
        }
        ((a as u128) / (b as u128)) as i128
    } else {
        let m: i128 = -a;
        proof {
            vstd::arithmetic::div_mod::lemma_div_nonincreasing(m as int, b as int);
            vstd::arithmetic::div_mod::lemma_div_pos_is_pos(m as int, b as int);
        }
        let q = ((m as u128) / (b as u128)) as i128;
        -q
    }
}

fn abs_i128(a: i128) -> (r: i128)
    requires
        a > i128::MIN,
    ensures
        r == abs(a as int),
{
    if a < 0 {
        -a
    } else {
        a
    }
}

fn direction_of(f: &Fit, Ghost(w): Ghost<Seq<DataPoint<u32>>>) -> (r: TrendDirection)
    requires
        f.of(w),
    ensures
        r == spec_direction(w),
{
    proof {
        lemma_mul_bound(f.num as int, f.num as int, 4_000_000_000_000, 4_000_000_000_000);
        lemma_mul_bound(f.den as int, f.spread as int, 825, 2_000_000_000_000_000_000_000);
    }
    if abs_i128(f.num) < 10 * f.den {
        TrendDirection::Stable
    } else if f.spread <= 0 || 2 * (f.num * f.num) < f.den * f.spread {
        TrendDirection::Volatile
    } else if f.num > 0 {
        TrendDirection::Increasing
    } else {
        TrendDirection::Decreasing
    }
}

fn confidence_of(f: &Fit, Ghost(w): Ghost<Seq<DataPoint<u32>>>) -> (r: u32)
    requires
        f.of(w),
    ensures
        r == spec_confidence(w),
{
    proof {
        lemma_mul_bound(f.num as int, f.num as int, 4_000_000_000_000, 4_000_000_000_000);
        lemma_mul_bound(f.den as int, f.spread as int, 825, 2_000_000_000_000_000_000_000);
    }
    if f.spread <= 0 {
        0
    } else {
        proof {
            assert(f.den * f.spread > 0) by (nonlinear_arith)
                requires
                    f.den > 0,
                    f.spread > 0,
            ;
            assert(f.num * f.num >= 0) by (nonlinear_arith);
            vstd::arithmetic::div_mod::lemma_div_pos_is_pos(
                f.num * f.num * 1_000_000,
                f.den * f.spread,
            );
        }
        let q = f.num * f.num * 1_000_000 / (f.den * f.spread);
        if q > 1_000_000 {
            1_000_000
        } else {
            q as u32
        }
    }
}

fn rate_of(f: &Fit, interval: u64, Ghost(w): Ghost<Seq<DataPoint<u32>>>) -> (r: i64)
    requires
        f.of(w),
        interval > 0,
    ensures
        r == spec_rate(w, interval as int),
{
    proof {
        lemma_mul_bound(f.den as int, interval as int, 825, 20_000_000_000_000_000_000);
        assert(f.den * interval > 0) by (nonlinear_arith)
            requires
                f.den > 0,
                interval > 0,
        ;
    }
    let q = div_toward_zero(f.num * 60, f.den * (interval as i128));
    q as i64
}

fn forecast_of(f: &Fit, interval: u64, Ghost(w): Ghost<Seq<DataPoint<u32>>>) -> (r: i128)
    requires
        f.of(w),
        interval > 0,
    ensures
        r == spec_forecast(w, interval as int),
{
    let i = interval as i128;
    proof {
        lemma_mul_bound(f.n as int, i as int, 10, 20_000_000_000_000_000_000);
        lemma_mul_bound(
            f.num as int,
            (f.n * i + 300) as int,
            4_000_000_000_000,
            300_000_000_000_000_000_000,
        );
        lemma_mul_bound(
            f.num * (f.n * i + 300),
            f.n as int,
            1_200_000_000_000_000_000_000_000_000_000_000,
            10,
        );
        lemma_mul_bound(f.sum_y as int, f.den as int, 50_000_000_000, 825);
        lemma_mul_bound(f.num as int, f.sum_x as int, 4_000_000_000_000, 45);
        lemma_mul_bound(
            f.sum_y * f.den - f.num * f.sum_x,
            i as int,
            300_000_000_000_000,
            20_000_000_000_000_000_000,
        );
        lemma_mul_bound(f.n as int, f.den as int, 10, 825);
        lemma_mul_bound((f.n * f.den) as int, i as int, 8250, 20_000_000_000_000_000_000);
        assert(f.n * f.den > 0) by (nonlinear_arith)
            requires
                f.n > 0,
                f.den > 0,
        ;
        assert(f.n * f.den * i > 0) by (nonlinear_arith)
            requires
                f.n * f.den > 0,
                i > 0,
        ;
    }
    let top = f.num * (f.n * i + 300) * f.n + (f.sum_y * f.den - f.num * f.sum_x) * i;
    div_toward_zero(top, f.n * f.den * i)
}

fn time_to_threshold_of(
    f: &Fit,
    direction: TrendDirection,
    current: u32,
    threshold: u32,
    interval: u64,
    Ghost(w): Ghost<Seq<DataPoint<u32>>>,
) -> (r: Option<u64>)
    requires
        f.of(w),
        interval > 0,
        direction == spec_direction(w),
        current == w.last().value,
    ensures
        r == spec_time_to_threshold(w, threshold as int, interval as int),
{
    if direction == TrendDirection::Increasing && current < threshold {
        let gap = (threshold - current) as i128;
        proof {
            lemma_mul_bound(gap as int, interval as int, 0x1_0000_0000, 20_000_000_000_000_000_000);
            lemma_mul_bound(
                (gap * interval) as int,
                f.den as int,
                100_000_000_000_000_000_000_000_000_000,
                825,
            );
            assert(gap * interval * f.den >= 0) by (nonlinear_arith)
                requires
                    gap > 0,
                    interval > 0,
                    f.den > 0,
            ;
        }
        let scaled = gap * (interval as i128) * f.den;
        if scaled < 7200 * f.num {
            proof {
                lemma_quotient_below(scaled as int, f.num as int, 7200);
            }
            Some((scaled / f.num) as u64)
        } else {
            None
        }
    } else {
        None
    }
}

fn severity_of(
    f: &Fit,
    time_to_threshold: Option<u64>,
    threshold: u32,
    interval: u64,
    Ghost(w): Ghost<Seq<DataPoint<u32>>>,
) -> (r: TrendSeverity)
    requires
        f.of(w),
        interval > 0,
        time_to_threshold == spec_time_to_threshold(w, threshold as int, interval as int),
    ensures
        r == spec_severity(w, threshold as int, interval as int),
{
    match time_to_threshold {
        Some(t) if t < 300 => TrendSeverity::Critical,
        Some(t) if t < 600 => TrendSeverity::Warning,
        _ => {
            proof {
                lemma_mul_bound(f.den as int, interval as int, 825, 20_000_000_000_000_000_000);
            }
            if abs_i128(f.num) * 60 > 5000 * (f.den * (interval as i128)) {
                TrendSeverity::Warning
            } else {
                TrendSeverity::Info
            }
        },
    }
}


/// The trends that pass the confidence filter: a present trend whose R² is
/// at least `min_confidence`.
pub open spec fn kept(t: Option<MetricTrend>, min_confidence: u32) -> Seq<MetricTrend> {
    match t {
        Some(x) => if x.confidence >= min_confidence {
            seq![x]
        } else {
            Seq::empty()
        },
        None => Seq::empty(),
    }
}

/// Which per-GPU metric a run of buffers holds.
#[derive(Clone, Copy, PartialEq, Eq, Structural)]
enum GpuMetric {
    Temp,
    Util,
    Memory,
}

spec fn gpu_trend_type(m: GpuMetric, i: usize) -> TrendType {
    match m {
        GpuMetric::Temp => TrendType::GpuTemp(i),
        GpuMetric::Util => TrendType::GpuUtil(i),
        GpuMetric::Memory => TrendType::GpuMemory(i),
    }
}

fn gpu_metric_type(m: GpuMetric, i: usize) -> (r: TrendType)
    ensures
        r == gpu_trend_type(m, i),
{
    match m {
        GpuMetric::Temp => TrendType::GpuTemp(i),
        GpuMetric::Util => TrendType::GpuUtil(i),
        GpuMetric::Memory => TrendType::GpuMemory(i),
    }
}

/// The kept trends of GPU buffers `0..bufs.len()`, in GPU order.
pub open spec fn gpu_trends(
    bufs: Seq<CircularBuffer<u32>>,
    kind: spec_fn(usize) -> TrendType,
    threshold: u32,
    config: TrendConfig,
) -> Seq<MetricTrend>
    decreases bufs.len(),
{
    if bufs.len() == 0 {
        Seq::empty()
    } else {
        gpu_trends(bufs.drop_last(), kind, threshold, config) + kept(
            spec_trend(bufs.last().view(), kind((bufs.len() - 1) as usize), threshold, config),
            config.min_confidence,
        )
    }
}

/// Every kept trend of a history: CPU, memory, swap, then each GPU's
/// temperature, utilization and memory, in that order; nothing when trend
/// analysis is disabled.
pub open spec fn spec_all_trends(
    config: TrendConfig,
    history: MetricsHistory,
    thresholds: AlertsConfig,
) -> Seq<MetricTrend> {
    if !config.enabled {
        Seq::empty()
    } else {
        kept(
            spec_trend(history.cpu_usage.view(), TrendType::Cpu, thresholds.cpu_threshold, config),
            config.min_confidence,
        ) + kept(
            spec_trend(
                history.memory_usage.view(),
                TrendType::Memory,
                thresholds.memory_threshold,
                config,
            ),
            config.min_confidence,
        ) + kept(
            spec_trend(history.swap_usage.view(), TrendType::Swap, thresholds.swap_threshold, config),
            config.min_confidence,
        ) + gpu_trends(
            history.gpu_temp@,
            |i: usize| TrendType::GpuTemp(i),
            thresholds.gpu_temp_threshold,
            config,
        ) + gpu_trends(
            history.gpu_util@,
            |i: usize| TrendType::GpuUtil(i),
            thresholds.gpu_util_threshold,
            config,
        ) + gpu_trends(
            history.gpu_mem@,
            |i: usize| TrendType::GpuMemory(i),
            thresholds.gpu_mem_threshold,
            config,
        )
    }
}

/// Fits trends over metric histories.
pub struct TrendAnalyzer {
    config: TrendConfig,
}

impl TrendAnalyzer {
    pub closed spec fn spec_config(&self) -> TrendConfig {
        self.config
    }

    /// The sample interval is positive.
    pub open spec fn wf(&self) -> bool {
        self.spec_config().sample_interval_secs > 0
    }

    pub fn new(config: TrendConfig) -> (r: Self)
        requires
            config.sample_interval_secs > 0,
        ensures
            r.wf(),
            r.spec_config() == config,
    {
        TrendAnalyzer { config }
    }

    /// The trend of one buffer, or `None` when it has fewer than three
    /// samples, or when the trend is stable or volatile and those are not
    /// shown.
    pub fn analyze_metric(
        &self,
        buffer: &CircularBuffer<u32>,
        metric_type: TrendType,
        threshold: u32,
    ) -> (r: Option<MetricTrend>)
        requires
            self.wf(),
        ensures
            r == spec_trend(buffer.view(), metric_type, threshold, self.spec_config()),
    {
        let data = buffer.get_all();
        let len = data.len();
        if len < MIN_DATA_POINTS {
            return None;
        }
        let window = if len < ANALYSIS_WINDOW {
            len
        } else {
            ANALYSIS_WINDOW
        };
        let start = len - window;
        let ghost w = data@.subrange(start as int, len as int);
        assert(w =~= analysis_window(buffer.view()));
        let fit = fit_window(data, start);
        let direction = direction_of(&fit, Ghost(w));
        if !self.config.show_stable_trends {
            if direction == TrendDirection::Stable || direction == TrendDirection::Volatile {
                return None;
            }
        }
        let interval = self.config.sample_interval_secs;
        let current = data[len - 1].value;
        let rate_per_minute = rate_of(&fit, interval, Ghost(w));
        let confidence = confidence_of(&fit, Ghost(w));
        let predicted = forecast_of(&fit, interval, Ghost(w));
        let time_to_threshold = time_to_threshold_of(
            &fit,
            direction,
            current,
            threshold,
            interval,
            Ghost(w),
        );
        let severity = severity_of(&fit, time_to_threshold, threshold, interval, Ghost(w));
        Some(
            MetricTrend {
                metric: metric_type,
                direction,
                rate_per_minute,
                confidence,
                predicted_value_5min: predicted,
                time_to_threshold,
                severity,
            },
        )
    }

    fn push_kept(&self, out: &mut Vec<MetricTrend>, t: Option<MetricTrend>)
        ensures
            final(out)@ == old(out)@ + kept(t, self.spec_config().min_confidence),
    {
        match t {
            Some(x) => {
                if x.confidence >= self.config.min_confidence {
                    out.push(x);
                    assert(final(out)@ =~= old(out)@ + seq![x]);
                } else {
                    assert(out@ =~= old(out)@ + Seq::<MetricTrend>::empty());
                }
            },
            None => {
                assert(out@ =~= old(out)@ + Seq::<MetricTrend>::empty());
            },
        }
    }

    fn analyze_gpus(
        &self,
        out: &mut Vec<MetricTrend>,
        bufs: &Vec<CircularBuffer<u32>>,
        kind: GpuMetric,
        threshold: u32,
    )
        requires
            self.wf(),
        ensures
            final(out)@ == old(out)@ + gpu_trends(
                bufs@,
                |i: usize| gpu_trend_type(kind, i),
                threshold,
                self.spec_config(),
            ),
    {
        let ghost kf = |i: usize| gpu_trend_type(kind, i);
        let mut i: usize = 0;
        while i < bufs.len()
            invariant
                self.wf(),
                kf == (|j: usize| gpu_trend_type(kind, j)),
                i <= bufs@.len(),
                out@ == old(out)@ + gpu_trends(bufs@.subrange(0, i as int), kf, threshold, self.spec_config()),
            decreases bufs@.len() - i,
        {
            let metric = gpu_metric_type(kind, i);
            let t = self.analyze_metric(&bufs[i], metric, threshold);
            let ghost before = out@;
            self.push_kept(out, t);
            proof {
                let next = bufs@.subrange(0, i + 1);
                assert(next.drop_last() =~= bufs@.subrange(0, i as int));
                assert(next.last() == bufs@[i as int]);
                assert(metric == kf(i)) by {
                    assert(kf(i) == gpu_trend_type(kind, i));
                }
                assert(gpu_trends(next, kf, threshold, self.spec_config()) == gpu_trends(
                    bufs@.subrange(0, i as int), kf, threshold, self.spec_config()) + kept(
                    spec_trend(bufs@[i as int].view(), kf(i), threshold, self.spec_config()),
                    self.spec_config().min_confidence,
                ));
                assert(out@ =~= old(out)@ + gpu_trends(next, kf, threshold, self.spec_config()));
            }
            i += 1;
        }
        assert(bufs@.subrange(0, bufs@.len() as int) =~= bufs@);
    }

    /// Every trend of the history that passes the confidence filter (see
    /// `spec_all_trends`).
    pub fn analyze_all(&self, history: &MetricsHistory, thresholds: &AlertsConfig) -> (r: Vec<MetricTrend>)
        requires
            self.wf(),
        ensures
            r@ == spec_all_trends(self.spec_config(), *history, *thresholds),
    {
        let mut trends: Vec<MetricTrend> = Vec::new();
        if !self.config.enabled {
            return trends;
        }
        let t = self.analyze_metric(&history.cpu_usage, TrendType::Cpu, thresholds.cpu_threshold);
        self.push_kept(&mut trends, t);
        let t = self.analyze_metric(
            &history.memory_usage,
            TrendType::Memory,
            thresholds.memory_threshold,
        );
        self.push_kept(&mut trends, t);
        let t = self.analyze_metric(&history.swap_usage, TrendType::Swap, thresholds.swap_threshold);
        self.push_kept(&mut trends, t);
        self.analyze_gpus(&mut trends, &history.gpu_temp, GpuMetric::Temp, thresholds.gpu_temp_threshold);
        self.analyze_gpus(&mut trends, &history.gpu_util, GpuMetric::Util, thresholds.gpu_util_threshold);
        self.analyze_gpus(&mut trends, &history.gpu_mem, GpuMetric::Memory, thresholds.gpu_mem_threshold);
        proof {
            let c = self.spec_config();
            assert((|i: usize| gpu_trend_type(GpuMetric::Temp, i)) =~= (|i: usize| TrendType::GpuTemp(i)));
            assert((|i: usize| gpu_trend_type(GpuMetric::Util, i)) =~= (|i: usize| TrendType::GpuUtil(i)));
            assert((|i: usize| gpu_trend_type(GpuMetric::Memory, i)) =~= (|i: usize| TrendType::GpuMemory(i)));
            assert(trends@ =~= spec_all_trends(c, *history, *thresholds));
        }
        trends
    }
}


// ---- laws of the fit on straight lines ----

spec fn sx_rec(n: nat) -> int
    decreases n,
{
    if n == 0 {
        0
    } else {
        sx_rec((n - 1) as nat) + (n - 1)
    }
}

spec fn sxx_rec(n: nat) -> int
    decreases n,
{
    if n == 0 {
        0
    } else {
        sxx_rec((n - 1) as nat) + (n - 1) * (n - 1)
    }
}

proof fn lemma_closed_sums(n: nat)
    ensures
        2 * sx_rec(n) == (n as int) * (n - 1),
        6 * sxx_rec(n) == (n - 1) * (n as int) * (2 * n - 1),
    decreases n,
{
    if n > 0 {
        let k = (n - 1) as nat;
        lemma_closed_sums(k);
        let m = k as int;
        let x = n as int;
        let p = sx_rec(k);
        let q = sxx_rec(k);
        assert(sx_rec(n) == p + m);
        assert(sxx_rec(n) == q + m * m);
        assert(2 * (p + m) == x * (x - 1)) by (nonlinear_arith)
            requires
                2 * p == m * (m - 1),
                m == x - 1,
        ;
        assert(6 * (q + m * m) == (x - 1) * x * (2 * x - 1)) by (nonlinear_arith)
            requires
                6 * q == (m - 1) * m * (2 * m - 1),
                m == x - 1,
        ;
        assert(2 * sx_rec(n) == x * (x - 1));
        assert(6 * sxx_rec(n) == (x - 1) * x * (2 * x - 1));
    } else {
        assert(sx_rec(0) == 0);
        assert(sxx_rec(0) == 0);
    }
}

proof fn lemma_closed_forms(n: nat)
    ensures
        sum_x(n as int) == sx_rec(n),
        sum_xx(n as int) == sxx_rec(n),
{
    lemma_closed_sums(n);
    let k = sx_rec(n);
    let q = sxx_rec(n);
    vstd::arithmetic::div_mod::lemma_div_multiples_vanish(k, 2);
    vstd::arithmetic::div_mod::lemma_div_multiples_vanish(q, 6);
}

/// Sums of a window whose values lie on the line `a + b·x`.
proof fn lemma_line_sums(w: Seq<DataPoint<u32>>, a: int, b: int)
    requires
        forall|i: int| 0 <= i < w.len() ==> (#[trigger] w[i]).value == a + b * i,
    ensures
        sum_y(w) == w.len() * a + b * sx_rec(w.len()),
        sum_xy(w) == a * sx_rec(w.len()) + b * sxx_rec(w.len()),
        sum_yy(w) == w.len() * (a * a) + 2 * a * b * sx_rec(w.len()) + b * b * sxx_rec(w.len()),
    decreases w.len(),
{
    if w.len() > 0 {
        let d = w.drop_last();
        assert forall|i: int| 0 <= i < d.len() implies (#[trigger] d[i]).value == a + b * i by {
            assert(d[i] == w[i]);
        }
        lemma_line_sums(d, a, b);
        let n = w.len() as int;
        let m = n - 1;
        let v = w.last().value as int;
        assert(v == a + b * m);
        let sx0 = sx_rec(d.len());
        let sxx0 = sxx_rec(d.len());
        assert(sx_rec(w.len()) == sx0 + m);
        assert(sxx_rec(w.len()) == sxx0 + m * m);
        assert(sum_y(w) == n * a + b * sx_rec(w.len())) by (nonlinear_arith)
            requires
                sum_y(w) == sum_y(d) + v,
                sum_y(d) == m * a + b * sx0,
                v == a + b * m,
                sx_rec(w.len()) == sx0 + m,
                n == m + 1,
        ;
        assert(sum_xy(w) == a * sx_rec(w.len()) + b * sxx_rec(w.len())) by (nonlinear_arith)
            requires
                sum_xy(w) == sum_xy(d) + m * v,
                sum_xy(d) == a * sx0 + b * sxx0,
                v == a + b * m,
                sx_rec(w.len()) == sx0 + m,
                sxx_rec(w.len()) == sxx0 + m * m,
        ;
        let ab = a * b;
        let bb = b * b;
        assert(v * v == a * a + 2 * ab * m + bb * (m * m)) by (nonlinear_arith)
            requires
                v == a + b * m,
                ab == a * b,
                bb == b * b,
        ;
        assert(2 * a * b * sx_rec(w.len()) == 2 * ab * sx0 + 2 * ab * m) by (nonlinear_arith)
            requires
                ab == a * b,
                sx_rec(w.len()) == sx0 + m,
        ;
        assert(b * b * sxx_rec(w.len()) == bb * sxx0 + bb * (m * m)) by (nonlinear_arith)
            requires
                bb == b * b,
                sxx_rec(w.len()) == sxx0 + m * m,
        ;
        assert(2 * a * b * sx0 == 2 * ab * sx0 && b * b * sxx0 == bb * sxx0) by (nonlinear_arith)
            requires
                ab == a * b,
                bb == b * b,
        ;
        assert(n * (a * a) == m * (a * a) + a * a) by (nonlinear_arith)
            requires
                n == m + 1,
        ;
    }
}

/// On a straight line of slope `b` (thousandths per sample) the fit is
/// exact: its numerator is `b` times the denominator and the spread `b²`
/// times it.
proof fn lemma_line_fit(w: Seq<DataPoint<u32>>, a: int, b: int)
    requires
        forall|i: int| 0 <= i < w.len() ==> (#[trigger] w[i]).value == a + b * i,
    ensures
        slope_num(w) == b * slope_den(w.len() as int),
        spread(w) == b * b * slope_den(w.len() as int),
{
    lemma_line_sums(w, a, b);
    lemma_closed_forms(w.len());
    let n = w.len() as int;
    let sx = sum_x(n);
    let sxx = sum_xx(n);
    assert(slope_num(w) == b * slope_den(n)) by (nonlinear_arith)
        requires
            slope_num(w) == n * sum_xy(w) - sx * sum_y(w),
            sum_xy(w) == a * sx + b * sxx,
            sum_y(w) == n * a + b * sx,
            slope_den(n) == n * sxx - sx * sx,
    ;
    let pa = n * a;
    let qb = b * sx;
    let bb = b * b;
    assert(sum_y(w) * sum_y(w) == pa * pa + 2 * pa * qb + qb * qb) by (nonlinear_arith)
        requires
            sum_y(w) == pa + qb,
    ;
    let x1 = n * (a * a);
    let x2 = 2 * a * b * sx;
    let x3 = b * b * sxx;
    assert(n * (x1 + x2 + x3) == n * x1 + n * x2 + n * x3) by (nonlinear_arith);
    assert(n * x1 == pa * pa) by (nonlinear_arith)
        requires
            x1 == n * (a * a),
            pa == n * a,
    ;
    assert(n * x2 == 2 * pa * qb) by (nonlinear_arith)
        requires
            x2 == 2 * a * b * sx,
            pa == n * a,
            qb == b * sx,
    ;
    assert(n * x3 == bb * (n * sxx)) by (nonlinear_arith)
        requires
            x3 == b * b * sxx,
            bb == b * b,
    ;
    assert(n * sum_yy(w) == pa * pa + 2 * pa * qb + bb * (n * sxx));
    assert(qb * qb == bb * (sx * sx)) by (nonlinear_arith)
        requires
            qb == b * sx,
            bb == b * b,
    ;
    assert(bb * (n * sxx) - bb * (sx * sx) == b * b * slope_den(n)) by (nonlinear_arith)
        requires
            bb == b * b,
            slope_den(n) == n * sxx - sx * sx,
    ;
}

/// Samples whose values rise or fall by `b` thousandths per sample along a
/// straight line give an exact fit (R² of one): increasing when `b` is at
/// least 0.01 units per sample, decreasing when at most -0.01, at a rate of
/// `b · 60 / interval` per minute. Constant samples (`b` zero) give a
/// stable trend of rate zero.
pub proof fn lemma_linear_series_trend(
    buf: Seq<DataPoint<u32>>,
    a: int,
    b: int,
    metric: TrendType,
    threshold: u32,
    config: TrendConfig,
)
    requires
        buf.len() >= MIN_DATA_POINTS,
        config.sample_interval_secs > 0,
        forall|i: int| 0 <= i < buf.len() ==> (#[trigger] buf[i]).value == a + b * i,
    ensures
        ({
            let t = spec_trend(buf, metric, threshold, config);
            &&& b >= 10 ==> t is Some && t->0.direction == TrendDirection::Increasing
                && t->0.confidence == 1_000_000
            &&& b <= -10 ==> t is Some && t->0.direction == TrendDirection::Decreasing
                && t->0.confidence == 1_000_000
            &&& t is Some ==> t->0.rate_per_minute == trunc_div(
                b * 60,
                config.sample_interval_secs as int,
            )
            &&& b == 0 && config.show_stable_trends ==> t is Some && t->0.direction
                == TrendDirection::Stable && t->0.rate_per_minute == 0
        }),
{
    let w = analysis_window(buf);
    let start = buf.len() - w.len();
    assert forall|i: int| 0 <= i < w.len() implies (#[trigger] w[i]).value == (a + b * start) + b * i by {
        assert(w[i] == buf[i + start]);
        assert(a + b * (i + start) == (a + b * start) + b * i) by (nonlinear_arith);
    }
    lemma_line_fit(w, a + b * start, b);
    let n = w.len() as int;
    lemma_small_n(n);
    let den = slope_den(n);
    let num = slope_num(w);
    let interval = config.sample_interval_secs as int;
    assert(num * 60 == (b * 60) * den) by (nonlinear_arith)
        requires
            num == b * den,
    ;
    assert(den * interval > 0) by (nonlinear_arith)
        requires
            den > 0,
            interval > 0,
    ;
    assert(trunc_div(num * 60, den * interval) == trunc_div(b * 60, interval)) by {
        let c = b * 60;
        let e = if c >= 0 {
            c
        } else {
            -c
        };
        assert(e * den >= 0 && e * den == den * e) by (nonlinear_arith)
            requires
                e >= 0,
                den > 0,
        ;
        vstd::arithmetic::div_mod::lemma_div_denominator(e * den, den, interval);
        vstd::arithmetic::div_mod::lemma_div_multiples_vanish(e, den);
        if c < 0 {
            assert(-(c * den) == e * den) by (nonlinear_arith)
                requires
                    e == -c,
            ;
            assert(c * den < 0) by (nonlinear_arith)
                requires
                    c < 0,
                    den > 0,
            ;
        }
    }
    if b >= 10 || b <= -10 {
        assert(abs(num) >= 10 * den) by (nonlinear_arith)
            requires
                num == b * den,
                den > 0,
                b >= 10 || b <= -10,
        ;
        let spr = spread(w);
        assert(spr == b * b * den);
        assert(spr > 0) by (nonlinear_arith)
            requires
                spr == b * b * den,
                den > 0,
                b >= 10 || b <= -10,
        ;
        assert(2 * (num * num) >= den * spr) by (nonlinear_arith)
            requires
                num == b * den,
                spr == b * b * den,
                den > 0,
        ;
        assert(num * num * 1_000_000 == (den * spr) * 1_000_000) by (nonlinear_arith)
            requires
                num == b * den,
                spr == b * b * den,
        ;
        assert(den * spr > 0) by (nonlinear_arith)
            requires
                den > 0,
                spr > 0,
        ;
        vstd::arithmetic::div_mod::lemma_div_multiples_vanish(1_000_000, den * spr);
        assert((den * spr) * 1_000_000 == 1_000_000 * (den * spr)) by (nonlinear_arith);
        assert(b >= 10 ==> num > 0) by (nonlinear_arith)
            requires
                num == b * den,
                den > 0,
        ;
        assert(b <= -10 ==> num < 0) by (nonlinear_arith)
            requires
                num == b * den,
                den > 0,
        ;
    }
    if b == 0 {
        assert(num == 0);
        assert(spec_direction(w) == TrendDirection::Stable);
    }
    // the slope is the difference of two samples, so the rate fits
    assert(buf[0].value == a + b * 0 && buf[1].value == a + b * 1);
    assert(a + b * 0 == a && a + b * 1 == a + b) by (nonlinear_arith);
    let c = b * 60;
    let q = trunc_div(c, interval);
    let e = if c >= 0 {
        c
    } else {
        -c
    };
    vstd::arithmetic::div_mod::lemma_div_nonincreasing(e, interval);
    vstd::arithmetic::div_mod::lemma_div_pos_is_pos(e, interval);
    assert(-0x1_0000_0000 * 60 <= q <= 0x1_0000_0000 * 60);
    assert(spec_rate(w, interval) == q);
    if b >= 10 {
        assert(spec_direction(w) == TrendDirection::Increasing);
    }
    if b <= -10 {
        assert(spec_direction(w) == TrendDirection::Decreasing);
    }
}

} // verus!
