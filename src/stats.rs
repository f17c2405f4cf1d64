use vstd::prelude::*;

verus! {

/// Largest sample magnitude the statistics accept, in thousandths
/// (2^44, about 1.7e10 units).
pub const SAMPLE_BOUND: i64 = 17_592_186_044_416;

/// Largest time offset from the first sample of a window, in seconds
/// (2^40).
pub const OFFSET_BOUND: i64 = 1_099_511_627_776;

/// Largest number of samples the statistics accept (2^20).
pub const COUNT_BOUND: usize = 1_048_576;

/// The statistics are computed in 128-bit integers; an intermediate
/// product that does not fit makes the result out of range.
#[derive(Debug, Clone, Copy, PartialEq, Eq, Structural)]
pub struct OutOfRange;

pub open spec fn fits(x: int) -> bool {
    i128::MIN <= x <= i128::MAX
}

pub open spec fn ints(vs: Seq<i64>) -> Seq<int> {
    vs.map_values(|v: i64| v as int)
}

pub open spec fn sum(vs: Seq<int>) -> int
    decreases vs.len(),
{
    if vs.len() == 0 {
        0
    } else {
        sum(vs.drop_last()) + vs.last()
    }
}

/// Σ x·y over two sequences of the same length.
pub open spec fn sum_prod(xs: Seq<int>, ys: Seq<int>) -> int
    decreases xs.len(),
{
    if xs.len() == 0 || ys.len() == 0 {
        0
    } else {
        sum_prod(xs.drop_last(), ys.drop_last()) + xs.last() * ys.last()
    }
}

pub open spec fn bounded(vs: Seq<int>, b: int) -> bool {
    forall|i: int| 0 <= i < vs.len() ==> -b <= #[trigger] vs[i] <= b
}

// ---------------------------------------------------------------- z-score
//
// With n samples v, S = Σv and Q = Σv², n²·variance is B = nQ − S² and
// n·(latest − mean) is A = n·latest − S, so z = A / √B. For a threshold
// t = T / 1000 (T in thousandths), |z| > t exactly when 10⁶·A² > T²·B.
// The standard deviation, in units, is below 1e-10 exactly when
// 10¹⁴·B < n².

pub open spec fn spread(vs: Seq<int>) -> int {
    vs.len() * sum_prod(vs, vs) - sum(vs) * sum(vs)
}

pub open spec fn deviation(vs: Seq<int>) -> int {
    vs.len() * vs.last() - sum(vs)
}

/// Severity of a z-score anomaly in the window `vs` (oldest first, the
/// newest last) for threshold `t` thousandths, or `None`: under 30
/// samples, no variation, or `|z| ≤ t`. Critical when `|z| > 2t`.
pub open spec fn zscore_severity(vs: Seq<int>, t: int) -> Option<crate::types::Severity> {
    let n = vs.len() as int;
    let a2 = 1_000_000 * (deviation(vs) * deviation(vs));
    let tb = t * t * spread(vs);
    if n < 30 {
        None
    } else if 100_000_000_000_000 * spread(vs) < n * n {
        None
    } else if a2 > 4 * tb {
        Some(crate::types::Severity::Critical)
    } else if a2 > tb {
        Some(crate::types::Severity::Warn)
    } else {
        None
    }
}

/// The z-score statistics of `vs` for threshold `t` can be computed in
/// 128-bit integers.
pub open spec fn zscore_fits(vs: Seq<int>, t: int) -> bool {
    let n = vs.len() as int;
    let q = sum_prod(vs, vs);
    let s = sum(vs);
    &&& vs.len() <= COUNT_BOUND
    &&& bounded(vs, SAMPLE_BOUND as int)
    &&& fits(n * q)
    &&& fits(s * s)
    &&& fits(deviation(vs) * deviation(vs))
    &&& fits(1_000_000 * (deviation(vs) * deviation(vs)))
    &&& fits(t * t)
    &&& fits(t * t * spread(vs))
    &&& fits(4 * (t * t * spread(vs)))
}

fn checked_product(a: i128, b: i128) -> (r: Result<i128, OutOfRange>)
    ensures
        r == (if fits(a * b) {
            Ok::<i128, OutOfRange>((a * b) as i128)
        } else {
            Err(OutOfRange)
        }),
{
    match a.checked_mul(b) {
        Some(p) => Ok(p),
        None => Err(OutOfRange),
    }
}

proof fn lemma_sum_step(vs: Seq<int>, i: int)
    requires
        0 <= i < vs.len(),
    ensures
        sum(vs.subrange(0, i + 1)) == sum(vs.subrange(0, i)) + vs[i],
        sum_prod(vs.subrange(0, i + 1), vs.subrange(0, i + 1)) == sum_prod(
            vs.subrange(0, i),
            vs.subrange(0, i),
        ) + vs[i] * vs[i],
{
    assert(vs.subrange(0, i + 1).drop_last() =~= vs.subrange(0, i));
}

proof fn lemma_prod_step(xs: Seq<int>, ys: Seq<int>, i: int)
    requires
        0 <= i < xs.len(),
        xs.len() == ys.len(),
    ensures
        sum_prod(xs.subrange(0, i + 1), ys.subrange(0, i + 1)) == sum_prod(
            xs.subrange(0, i),
            ys.subrange(0, i),
        ) + xs[i] * ys[i],
{
    assert(xs.subrange(0, i + 1).drop_last() =~= xs.subrange(0, i));
    assert(ys.subrange(0, i + 1).drop_last() =~= ys.subrange(0, i));
}

/// Mean of `vs`, truncated toward zero.
pub open spec fn mean_of(vs: Seq<int>) -> int {
    let s = sum(vs);
    if s >= 0 {
        s / (vs.len() as int)
    } else {
        -((-s) / (vs.len() as int))
    }
}

/// The z-score severity together with the window's mean.
pub open spec fn zscore_verdict(vs: Seq<int>, t: int) -> Option<(crate::types::Severity, i64)> {
    match zscore_severity(vs, t) {
        Some(s) => Some((s, mean_of(vs) as i64)),
        None => None,
    }
}

/// The z-score verdict for the window `values` (oldest first) and a
/// threshold of `threshold` thousandths, with the window's mean.
pub fn zscore_check(values: &Vec<i64>, threshold: u64) -> (r: Result<
    Option<(crate::types::Severity, i64)>,
    OutOfRange,
>)
    ensures
        values@.len() < 30 ==> r == Ok::<Option<(crate::types::Severity, i64)>, OutOfRange>(None),
        values@.len() >= 30 ==> (r is Ok <==> zscore_fits(ints(values@), threshold as int)),
        r matches Ok(v) ==> v == zscore_verdict(ints(values@), threshold as int),
        r matches Ok(Some((s, m))) ==> m == mean_of(ints(values@)),
{
    let ghost vs = ints(values@);
    let n = values.len();
    if n < 30 {
        return Ok(None);
    }
    if n > COUNT_BOUND {
        return Err(OutOfRange);
    }
    let mut s: i128 = 0;
    let mut q: i128 = 0;
    let mut i: usize = 0;
    while i < n
        invariant
            n == values@.len(),
            vs == ints(values@),
            30 <= n <= COUNT_BOUND,
            i <= n,
            bounded(vs.subrange(0, i as int), SAMPLE_BOUND as int),
            s == sum(vs.subrange(0, i as int)),
            q == sum_prod(vs.subrange(0, i as int), vs.subrange(0, i as int)),
            -(i * SAMPLE_BOUND) <= s <= i * SAMPLE_BOUND,
            0 <= q <= i * (SAMPLE_BOUND * SAMPLE_BOUND),
        decreases n - i,
    {
        let v = values[i];
        if v > SAMPLE_BOUND || v < -SAMPLE_BOUND {
            proof {
                assert(vs[i as int] == v);
            }
            return Err(OutOfRange);
        }
        proof {
            lemma_sum_step(vs, i as int);
            assert(vs[i as int] == v as int);
            assert(0 <= (v as int) * (v as int) <= SAMPLE_BOUND * SAMPLE_BOUND) by (nonlinear_arith)
                requires
                    -SAMPLE_BOUND <= v <= SAMPLE_BOUND,
            ;
            assert(vs.subrange(0, i + 1) =~= vs.subrange(0, i as int).push(vs[i as int]));
            assert(i * (SAMPLE_BOUND * SAMPLE_BOUND) + SAMPLE_BOUND * SAMPLE_BOUND == (i + 1) * (
            SAMPLE_BOUND * SAMPLE_BOUND)) by (nonlinear_arith);
            assert((i + 1) * (SAMPLE_BOUND * SAMPLE_BOUND) <= COUNT_BOUND * (SAMPLE_BOUND
                * SAMPLE_BOUND)) by (nonlinear_arith)
                requires
                    i + 1 <= COUNT_BOUND,
            ;
        }
        s = s + v as i128;
        q = q + (v as i128) * (v as i128);
        i += 1;
    }
    assert(vs.subrange(0, n as int) =~= vs);
    let ni = n as i128;
    let nq = checked_product(ni, q)?;
    let ss = checked_product(s, s)?;
    assert(nq >= 0 && ss >= 0) by (nonlinear_arith)
        requires
            nq == ni * q,
            ss == s * s,
            ni >= 0,
            q >= 0,
    ;
    let b = nq - ss;
    let last = values[n - 1] as i128;
    assert(vs.last() == last);
    assert(-(n * SAMPLE_BOUND) <= ni * last <= n * SAMPLE_BOUND) by (nonlinear_arith)
        requires
            -SAMPLE_BOUND <= last <= SAMPLE_BOUND,
            ni == n,
            0 <= n,
    ;
    let a = ni * last - s;
    let aa = checked_product(a, a)?;
    let a2 = checked_product(1_000_000, aa)?;
    let t = threshold as i128;
    let tt = checked_product(t, t)?;
    let tb = checked_product(tt, b)?;
    let tb4 = checked_product(4, tb)?;
    assert(1 <= n * n <= COUNT_BOUND * COUNT_BOUND) by (nonlinear_arith)
        requires
            30 <= n <= COUNT_BOUND,
    ;
    // n² < 10¹⁴, so 10¹⁴·B < n² holds exactly when B ≤ 0
    assert((100_000_000_000_000 * spread(vs) < n * n) == (b <= 0)) by (nonlinear_arith)
        requires
            b == spread(vs),
            1 <= n * n <= COUNT_BOUND * COUNT_BOUND,
    ;
    let mean: i128 = if s >= 0 {
        assert(s / ni <= SAMPLE_BOUND) by (nonlinear_arith)
            requires
                0 <= s <= ni * SAMPLE_BOUND,
                ni > 0,
        ;
        assert(s / ni >= 0) by (nonlinear_arith)
            requires
                0 <= s,
                ni > 0,
        ;
        s / ni
    } else {
        let neg: i128 = -s;
        assert(neg / ni <= SAMPLE_BOUND) by (nonlinear_arith)
            requires
                0 <= neg <= ni * SAMPLE_BOUND,
                ni > 0,
        ;
        assert(neg / ni >= 0) by (nonlinear_arith)
            requires
                0 <= neg,
                ni > 0,
        ;
        -(neg / ni)
    };
    let m = mean as i64;
    if b <= 0 {
        Ok(None)
    } else if a2 > tb4 {
        Ok(Some((crate::types::Severity::Critical, m)))
    } else if a2 > tb {
        Ok(Some((crate::types::Severity::Warn, m)))
    } else {
        Ok(None)
    }
}

/// With no variation (standard deviation below 1e-10 of a unit) the
/// z-score check raises nothing.
pub proof fn lemma_zscore_flat_window_is_quiet(vs: Seq<int>, t: int)
    requires
        100_000_000_000_000 * spread(vs) < vs.len() * vs.len(),
    ensures
        zscore_severity(vs, t) is None,
{
}

// ------------------------------------------------------- linear regression
//
// Over points (x, y) with Sx = Σx, Sy = Σy, Sxy = Σxy, Sxx = Σx², Syy = Σy²,
// the least-squares slope is N / D with N = n·Sxy − Sx·Sy and
// D = n·Sxx − Sx², and R² = 1 − Σ(y − ŷ)² / Σ(y − ȳ)² = N² / (D·E) with
// E = n·Syy − Sy². Σ(y − ȳ)² is E / n, in thousandths squared: it exceeds
// 1e-10 units² exactly when 10⁴·E > n. Slope and R² do not depend on where
// time starts, so x is taken as seconds since the first sample.

/// Seconds since the first timestamp.
pub open spec fn offsets(ts: Seq<i64>) -> Seq<int> {
    ts.map_values(|t: i64| t as int - ts[0] as int)
}

pub open spec fn co_spread(xs: Seq<int>, ys: Seq<int>) -> int {
    xs.len() * sum_prod(xs, ys) - sum(xs) * sum(ys)
}

/// Verdict of the exhaustion check on points `(xs[i], ys[i])`, values in
/// thousandths, `limit` the capacity in thousandths: `None` under 60
/// samples, with all `x` equal, with a slope ≤ 0, with R² < 0.5, at or over
/// the limit, or more than `hours_warn` hours from it; Critical at most
/// `hours_crit` hours from it, else Warn. Hours to the limit are
/// `(limit − current) / (slope · 3600)`.
pub open spec fn trend_severity(
    xs: Seq<int>,
    ys: Seq<int>,
    limit: int,
    hours_warn: int,
    hours_crit: int,
) -> Option<crate::types::Severity> {
    let n = ys.len() as int;
    let num = co_spread(xs, ys);
    let den = spread(xs);
    let e = spread(ys);
    let remaining = limit - ys.last();
    if n < 60 {
        None
    } else if den == 0 {
        None
    } else if !(num > 0 && den > 0) {
        None
    } else if !(10_000 * e > n && 2 * (num * num) >= den * e) {
        None
    } else if remaining <= 0 {
        None
    } else if remaining * den > 3600 * hours_warn * num {
        None
    } else if remaining * den <= 3600 * hours_crit * num {
        Some(crate::types::Severity::Critical)
    } else {
        Some(crate::types::Severity::Warn)
    }
}

/// The regression of `ys` on `xs` can be computed in 128-bit integers.
pub open spec fn trend_fits(
    xs: Seq<int>,
    ys: Seq<int>,
    limit: int,
    hours_warn: int,
    hours_crit: int,
) -> bool {
    let n = ys.len() as int;
    let num = co_spread(xs, ys);
    let den = spread(xs);
    let e = spread(ys);
    let remaining = limit - ys.last();
    &&& ys.len() <= COUNT_BOUND
    &&& bounded(xs, OFFSET_BOUND as int)
    &&& bounded(ys, SAMPLE_BOUND as int)
    &&& fits(n * sum_prod(xs, ys))
    &&& fits(sum(xs) * sum(ys))
    &&& fits(num)
    &&& fits(n * sum_prod(xs, xs))
    &&& fits(sum(xs) * sum(xs))
    &&& fits(den)
    &&& fits(n * sum_prod(ys, ys))
    &&& fits(sum(ys) * sum(ys))
    &&& fits(e)
    &&& fits(num * num)
    &&& fits(2 * (num * num))
    &&& fits(den * e)
    &&& fits(remaining * den)
    &&& fits(3600 * hours_warn * num)
    &&& fits(3600 * hours_crit * num)
    &&& fits(360 * num)
}

/// Hours to the limit, in tenths, truncated:
/// `(limit − current) / (slope · 3600)` with slope `N / D`.
pub open spec fn hours_tenths(xs: Seq<int>, ys: Seq<int>, limit: int) -> int {
    (limit - ys.last()) * spread(xs) / (360 * co_spread(xs, ys))
}

/// The exhaustion severity with the hours to the limit, in tenths.
pub open spec fn trend_verdict(
    xs: Seq<int>,
    ys: Seq<int>,
    limit: int,
    hours_warn: int,
    hours_crit: int,
) -> Option<(crate::types::Severity, i64)> {
    match trend_severity(xs, ys, limit, hours_warn, hours_crit) {
        Some(s) => Some((s, hours_tenths(xs, ys, limit) as i64)),
        None => None,
    }
}

fn checked_difference(a: i128, b: i128) -> (r: Result<i128, OutOfRange>)
    ensures
        r == (if fits(a - b) {
            Ok::<i128, OutOfRange>((a - b) as i128)
        } else {
            Err(OutOfRange)
        }),
{
    match a.checked_sub(b) {
        Some(p) => Ok(p),
        None => Err(OutOfRange),
    }
}

/// The exhaustion verdict for samples taken at `times` (seconds) with
/// `values` (thousandths), oldest first.
pub fn trend_check(
    times: &Vec<i64>,
    values: &Vec<i64>,
    limit: i64,
    hours_warn: u32,
    hours_crit: u32,
) -> (r: Result<Option<(crate::types::Severity, i64)>, OutOfRange>)
    requires
        times@.len() == values@.len(),
    ensures
        values@.len() < 60 ==> r == Ok::<Option<(crate::types::Severity, i64)>, OutOfRange>(None),
        values@.len() >= 60 ==> (r is Ok <==> trend_fits(
            offsets(times@),
            ints(values@),
            limit as int,
            hours_warn as int,
            hours_crit as int,
        )),
        r matches Ok(v) ==> v == trend_verdict(
            offsets(times@),
            ints(values@),
            limit as int,
            hours_warn as int,
            hours_crit as int,
        ),
        r matches Ok(Some((s, h))) ==> 0 <= h <= 10 * hours_warn && h == hours_tenths(
            offsets(times@),
            ints(values@),
            limit as int,
        ),
{
    let ghost xs = offsets(times@);
    let ghost ys = ints(values@);
    let n = values.len();
    if n < 60 {
        return Ok(None);
    }
    if n > COUNT_BOUND {
        return Err(OutOfRange);
    }
    let t0 = times[0];
    let mut sx: i128 = 0;
    let mut sy: i128 = 0;
    let mut sxx: i128 = 0;
    let mut sxy: i128 = 0;
    let mut syy: i128 = 0;
    let mut i: usize = 0;
    while i < n
        invariant
            n == values@.len(),
            n == times@.len(),
            t0 == times@[0],
            xs == offsets(times@),
            ys == ints(values@),
            60 <= n <= COUNT_BOUND,
            i <= n,
            bounded(xs.subrange(0, i as int), OFFSET_BOUND as int),
            bounded(ys.subrange(0, i as int), SAMPLE_BOUND as int),
            sx == sum(xs.subrange(0, i as int)),
            sy == sum(ys.subrange(0, i as int)),
            sxx == sum_prod(xs.subrange(0, i as int), xs.subrange(0, i as int)),
            sxy == sum_prod(xs.subrange(0, i as int), ys.subrange(0, i as int)),
            syy == sum_prod(ys.subrange(0, i as int), ys.subrange(0, i as int)),
            -(i * OFFSET_BOUND) <= sx <= i * OFFSET_BOUND,
            -(i * SAMPLE_BOUND) <= sy <= i * SAMPLE_BOUND,
            0 <= sxx <= i * (OFFSET_BOUND * OFFSET_BOUND),
            -(i * (OFFSET_BOUND * SAMPLE_BOUND)) <= sxy <= i * (OFFSET_BOUND * SAMPLE_BOUND),
            0 <= syy <= i * (SAMPLE_BOUND * SAMPLE_BOUND),
        decreases n - i,
    {
        let x = times[i] as i128 - t0 as i128;
        let y = values[i] as i128;
        proof {
            assert(xs[i as int] == x);
            assert(ys[i as int] == y);
        }
        if x > OFFSET_BOUND as i128 || x < -(OFFSET_BOUND as i128) {
            return Err(OutOfRange);
        }
        if y > SAMPLE_BOUND as i128 || y < -(SAMPLE_BOUND as i128) {
            return Err(OutOfRange);
        }
        proof {
            lemma_sum_step(xs, i as int);
            lemma_sum_step(ys, i as int);
            lemma_prod_step(xs, ys, i as int);
            assert(xs.subrange(0, i + 1) =~= xs.subrange(0, i as int).push(xs[i as int]));
            assert(ys.subrange(0, i + 1) =~= ys.subrange(0, i as int).push(ys[i as int]));
            assert(0 <= x * x <= OFFSET_BOUND * OFFSET_BOUND) by (nonlinear_arith)
                requires
                    -OFFSET_BOUND <= x <= OFFSET_BOUND,
            ;
            assert(0 <= y * y <= SAMPLE_BOUND * SAMPLE_BOUND) by (nonlinear_arith)
                requires
                    -SAMPLE_BOUND <= y <= SAMPLE_BOUND,
            ;
            assert(-(OFFSET_BOUND * SAMPLE_BOUND) <= x * y <= OFFSET_BOUND * SAMPLE_BOUND)
                by (nonlinear_arith)
                requires
                    -OFFSET_BOUND <= x <= OFFSET_BOUND,
                    -SAMPLE_BOUND <= y <= SAMPLE_BOUND,
            ;
            assert(i * (OFFSET_BOUND * OFFSET_BOUND) + OFFSET_BOUND * OFFSET_BOUND == (i + 1) * (
            OFFSET_BOUND * OFFSET_BOUND)) by (nonlinear_arith);
            assert(i * (SAMPLE_BOUND * SAMPLE_BOUND) + SAMPLE_BOUND * SAMPLE_BOUND == (i + 1) * (
            SAMPLE_BOUND * SAMPLE_BOUND)) by (nonlinear_arith);
            assert(i * (OFFSET_BOUND * SAMPLE_BOUND) + OFFSET_BOUND * SAMPLE_BOUND == (i + 1) * (
            OFFSET_BOUND * SAMPLE_BOUND)) by (nonlinear_arith);
            assert((i + 1) * (SAMPLE_BOUND * SAMPLE_BOUND) <= COUNT_BOUND * (SAMPLE_BOUND
                * SAMPLE_BOUND)) by (nonlinear_arith)
                requires
                    i + 1 <= COUNT_BOUND,
            ;
            assert((i + 1) * (OFFSET_BOUND * SAMPLE_BOUND) <= COUNT_BOUND * (OFFSET_BOUND
                * SAMPLE_BOUND)) by (nonlinear_arith)
                requires
                    i + 1 <= COUNT_BOUND,
            ;
            assert((i + 1) * (OFFSET_BOUND * OFFSET_BOUND) <= COUNT_BOUND * (OFFSET_BOUND
                * OFFSET_BOUND)) by (nonlinear_arith)
                requires
                    i + 1 <= COUNT_BOUND,
            ;
        }
        sx = sx + x;
        sy = sy + y;
        sxx = sxx + x * x;
        sxy = sxy + x * y;
        syy = syy + y * y;
        i += 1;
    }
    assert(xs.subrange(0, n as int) =~= xs);
    assert(ys.subrange(0, n as int) =~= ys);
    let ni = n as i128;
    let num = checked_difference(checked_product(ni, sxy)?, checked_product(sx, sy)?)?;
    let den = checked_difference(checked_product(ni, sxx)?, checked_product(sx, sx)?)?;
    let e = checked_difference(checked_product(ni, syy)?, checked_product(sy, sy)?)?;
    let nn = checked_product(num, num)?;
    let nn2 = checked_product(2, nn)?;
    let de = checked_product(den, e)?;
    let current = values[n - 1] as i128;
    assert(ys.last() == current);
    let remaining = limit as i128 - current;
    let rd = checked_product(remaining, den)?;
    let warn_span = checked_product(3600 * hours_warn as i128, num)?;
    let crit_span = checked_product(3600 * hours_crit as i128, num)?;
    let per_tenth = checked_product(360, num)?;
    // 10⁴·E > n exactly when E > ⌊n / 10⁴⌋
    let k = ni / 10_000;
    assert((10_000 * e > n) == (e > k)) by (nonlinear_arith)
        requires
            k == n / 10_000,
            n >= 0,
    ;
    if den == 0 {
        Ok(None)
    } else if !(num > 0 && den > 0) {
        Ok(None)
    } else if !(e > k && nn2 >= de) {
        Ok(None)
    } else if remaining <= 0 {
        Ok(None)
    } else if rd > warn_span {
        Ok(None)
    } else {
        let hw = hours_warn as i128;
        assert(rd <= 10 * hw * per_tenth) by (nonlinear_arith)
            requires
                rd <= warn_span,
                warn_span == 3600 * hw * num,
                per_tenth == 360 * num,
        ;
        assert(0 < rd) by (nonlinear_arith)
            requires
                rd == remaining * den,
                remaining > 0,
                den > 0,
        ;
        assert(rd / per_tenth <= 10 * hw) by (nonlinear_arith)
            requires
                0 < rd <= 10 * hw * per_tenth,
                per_tenth > 0,
                hw >= 0,
        ;
        assert(rd / per_tenth >= 0) by (nonlinear_arith)
            requires
                0 < rd,
                per_tenth > 0,
        ;
        let h = (rd / per_tenth) as i64;
        if rd <= crit_span {
            Ok(Some((crate::types::Severity::Critical, h)))
        } else {
            Ok(Some((crate::types::Severity::Warn, h)))
        }
    }
}

/// Fewer than 60 samples never give an exhaustion alert.
pub proof fn lemma_trend_needs_sixty(
    xs: Seq<int>,
    ys: Seq<int>,
    limit: int,
    hours_warn: int,
    hours_crit: int,
)
    requires
        ys.len() < 60,
    ensures
        trend_severity(xs, ys, limit, hours_warn, hours_crit) is None,
{
}

proof fn lemma_zero_sums(xs: Seq<int>)
    requires
        forall|i: int| 0 <= i < xs.len() ==> xs[i] == 0,
    ensures
        sum(xs) == 0,
        sum_prod(xs, xs) == 0,
    decreases xs.len(),
{
    if xs.len() > 0 {
        lemma_zero_sums(xs.drop_last());
    }
}

/// When every sample has the same timestamp, the regression has a zero
/// denominator and no exhaustion alert is raised.
pub proof fn lemma_trend_same_time_is_quiet(
    times: Seq<i64>,
    ys: Seq<int>,
    limit: int,
    hours_warn: int,
    hours_crit: int,
)
    requires
        times.len() > 0,
        forall|i: int| 0 <= i < times.len() ==> #[trigger] times[i] == times[0],
    ensures
        spread(offsets(times)) == 0,
        trend_severity(offsets(times), ys, limit, hours_warn, hours_crit) is None,
{
    let xs = offsets(times);
    assert forall|i: int| 0 <= i < xs.len() implies xs[i] == 0 by {
        assert(times[i] == times[0]);
    }
    lemma_zero_sums(xs);
}

} // verus!
