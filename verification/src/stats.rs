use vstd::prelude::*;

verus! {

use vstd::string::StrSliceExecFns;
use crate::error::ProfileError;
use crate::ratio::Ratio;
use crate::hist::Hist;
use crate::iban::{is_upper_alpha, is_lower_alpha};

/// The sum of the values.
pub open spec fn seq_sum(s: Seq<i64>) -> int
    decreases s.len(),
{
    if s.len() == 0 {
        0
    } else {
        seq_sum(s.drop_last()) + s.last()
    }
}

/// The sum of the squares of the values.
pub open spec fn seq_sum_sq(s: Seq<i64>) -> int
    decreases s.len(),
{
    if s.len() == 0 {
        0
    } else {
        seq_sum_sq(s.drop_last()) + (s.last() as int) * (s.last() as int)
    }
}

/// The least value of a non-empty sequence.
pub open spec fn seq_min(s: Seq<i64>) -> int
    recommends
        s.len() > 0,
    decreases s.len(),
{
    if s.len() <= 1 {
        s[0] as int
    } else {
        let m = seq_min(s.drop_last());
        if (s.last() as int) < m {
            s.last() as int
        } else {
            m
        }
    }
}

/// The greatest value of a non-empty sequence.
pub open spec fn seq_max(s: Seq<i64>) -> int
    recommends
        s.len() > 0,
    decreases s.len(),
{
    if s.len() <= 1 {
        s[0] as int
    } else {
        let m = seq_max(s.drop_last());
        if (s.last() as int) > m {
            s.last() as int
        } else {
            m
        }
    }
}

/// Every value lies between the least and the greatest.
pub proof fn lemma_min_max_bound(s: Seq<i64>)
    requires
        s.len() > 0,
    ensures
        forall|i: int| 0 <= i < s.len() ==> seq_min(s) <= (#[trigger] s[i]) as int <= seq_max(s),
    decreases s.len(),
{
    if s.len() > 1 {
        lemma_min_max_bound(s.drop_last());
        assert(forall|i: int| 0 <= i < s.len() - 1 ==> s.drop_last()[i] == s[i]);
    }
}

/// The sum is bounded by the count times the extreme machine values.
pub proof fn lemma_sum_bounds(s: Seq<i64>)
    ensures
        s.len() * (i64::MIN as int) <= seq_sum(s) <= s.len() * (i64::MAX as int),
    decreases s.len(),
{
    if s.len() > 0 {
        lemma_sum_bounds(s.drop_last());
        assert((s.len() - 1) * (i64::MIN as int) + (i64::MIN as int) == s.len() * (
        i64::MIN as int)) by (nonlinear_arith);
        assert((s.len() - 1) * (i64::MAX as int) + (i64::MAX as int) == s.len() * (
        i64::MAX as int)) by (nonlinear_arith);
    }
}

/// The sum of squares is nonnegative.
pub proof fn lemma_sum_sq_nonneg(s: Seq<i64>)
    ensures
        seq_sum_sq(s) >= 0,
    decreases s.len(),
{
    if s.len() > 0 {
        lemma_sum_sq_nonneg(s.drop_last());
        assert((s.last() as int) * (s.last() as int) >= 0) by (nonlinear_arith);
    }
}

/// A prefix's sum of squares never exceeds the whole sequence's.
pub proof fn lemma_sum_sq_prefix_le(s: Seq<i64>, i: int)
    requires
        0 <= i <= s.len(),
    ensures
        seq_sum_sq(s.take(i)) <= seq_sum_sq(s),
    decreases s.len() - i,
{
    if i == s.len() {
        assert(s.take(i) =~= s);
    } else {
        lemma_sum_sq_prefix_le(s, i + 1);
        assert(s.take(i + 1).drop_last() =~= s.take(i));
        assert((s.take(i + 1).last() as int) * (s.take(i + 1).last() as int) >= 0)
            by (nonlinear_arith);
    }
}

/// The sum of the values lies between the count times the least value
/// and the count times the greatest: cross-multiplied, the mean of a
/// non-empty column lies between its minimum and its maximum.
pub proof fn lemma_sum_between_min_max(s: Seq<i64>)
    requires
        s.len() > 0,
    ensures
        s.len() * seq_min(s) <= seq_sum(s),
        seq_sum(s) <= s.len() * seq_max(s),
    decreases s.len(),
{
    if s.len() == 1 {
        assert(seq_sum(s) == seq_sum(s.drop_last()) + s.last());
        assert(seq_sum(s.drop_last()) == 0);
    } else {
        let d = s.drop_last();
        let v = s.last() as int;
        let n = s.len() as int;
        lemma_sum_between_min_max(d);
        lemma_min_max_bound(s);
        assert(d[0] == s[0]);
        assert(seq_min(s) <= seq_min(d) && seq_max(d) <= seq_max(s));
        assert((n - 1) * seq_min(d) >= (n - 1) * seq_min(s)) by (nonlinear_arith)
            requires
                n >= 2,
                seq_min(d) >= seq_min(s),
        ;
        assert((n - 1) * seq_max(d) <= (n - 1) * seq_max(s)) by (nonlinear_arith)
            requires
                n >= 2,
                seq_max(d) <= seq_max(s),
        ;
        assert(seq_min(s) <= v && v <= seq_max(s));
        assert((n - 1) * seq_min(s) + seq_min(s) == n * seq_min(s)) by (nonlinear_arith);
        assert((n - 1) * seq_max(s) + seq_max(s) == n * seq_max(s)) by (nonlinear_arith);
    }
}

/// Twice the sum times any value is at most the sum of squares plus the
/// count times the value's square: the sum of `(x - v)^2` over the
/// sequence is nonnegative.
proof fn lemma_sum_diff_sq_nonneg(s: Seq<i64>, v: int)
    ensures
        2 * seq_sum(s) * v <= seq_sum_sq(s) + s.len() * v * v,
    decreases s.len(),
{
    if s.len() == 0 {
        assert(2 * seq_sum(s) * v == 0) by (nonlinear_arith)
            requires
                seq_sum(s) == 0,
        ;
        assert(s.len() * v * v == 0) by (nonlinear_arith)
            requires
                s.len() == 0,
        ;
    } else {
        let d = s.drop_last();
        let u = s.last() as int;
        let m = d.len() as int;
        lemma_sum_diff_sq_nonneg(d, v);
        assert(2 * u * v <= u * u + v * v) by (nonlinear_arith);
        assert(2 * (seq_sum(d) + u) * v == 2 * seq_sum(d) * v + 2 * u * v) by (nonlinear_arith);
        assert((m + 1) * v * v == m * v * v + v * v) by (nonlinear_arith);
    }
}

/// The square of the sum is at most the count times the sum of squares,
/// so the exact population variance numerator `n * sum_sq - sum^2` is
/// nonnegative: a variance is never negative.
pub proof fn lemma_sum_sq_cauchy(s: Seq<i64>)
    ensures
        seq_sum(s) * seq_sum(s) <= s.len() * seq_sum_sq(s),
    decreases s.len(),
{
    if s.len() == 0 {
        assert(seq_sum(s) * seq_sum(s) == 0) by (nonlinear_arith)
            requires
                seq_sum(s) == 0,
        ;
        assert(s.len() * seq_sum_sq(s) == 0) by (nonlinear_arith)
            requires
                s.len() == 0,
        ;
    } else {
        let d = s.drop_last();
        let u = s.last() as int;
        let m = d.len() as int;
        lemma_sum_sq_cauchy(d);
        lemma_sum_diff_sq_nonneg(d, u);
        // (sum_d + u)^2 = sum_d^2 + 2 sum_d u + u^2
        //              <= m*ssq_d + (ssq_d + m*u^2) + u^2 = (m+1)*(ssq_d + u^2)
        assert((seq_sum(d) + u) * (seq_sum(d) + u) <= (m + 1) * (seq_sum_sq(d) + u * u))
            by (nonlinear_arith)
            requires
                seq_sum(d) * seq_sum(d) <= m * seq_sum_sq(d),
                2 * seq_sum(d) * u <= seq_sum_sq(d) + m * u * u,
        ;
    }
}

/// The numerator of the exact population variance at denominator `n^2`:
/// `n * sum_sq - sum^2`.
pub open spec fn variance_numer(values: Seq<i64>) -> int {
    values.len() * seq_sum_sq(values) - seq_sum(values) * seq_sum(values)
}

/// The exact variance computation stays within the 128-bit integers the
/// aggregator computes with.
pub open spec fn stats_fit(values: Seq<i64>) -> bool {
    &&& values.len() * seq_sum_sq(values) <= u128::MAX as int
    &&& variance_numer(values) <= i128::MAX as int
}

/// The least value of a non-empty numeric column.
pub fn min_value(values: &Vec<i64>) -> (r: i64)
    requires
        values@.len() > 0,
    ensures
        r as int == seq_min(values@),
{
    let mut m: i64 = values[0];
    let mut i: usize = 1;
    proof {
        assert(values@.take(1)[0] == values@[0]);
    }
    while i < values.len()
        invariant
            1 <= i <= values@.len(),
            m as int == seq_min(values@.take(i as int)),
        decreases values@.len() - i,
    {
        proof {
            assert(values@.take(i as int + 1).drop_last() =~= values@.take(i as int));
            assert(values@.take(i as int + 1).last() == values@[i as int]);
        }
        let v: i64 = values[i];
        if v < m {
            m = v;
        }
        i = i + 1;
    }
    proof {
        assert(values@.take(values@.len() as int) =~= values@);
    }
    m
}

/// The greatest value of a non-empty numeric column.
pub fn max_value(values: &Vec<i64>) -> (r: i64)
    requires
        values@.len() > 0,
    ensures
        r as int == seq_max(values@),
{
    let mut m: i64 = values[0];
    let mut i: usize = 1;
    proof {
        assert(values@.take(1)[0] == values@[0]);
    }
    while i < values.len()
        invariant
            1 <= i <= values@.len(),
            m as int == seq_max(values@.take(i as int)),
        decreases values@.len() - i,
    {
        proof {
            assert(values@.take(i as int + 1).drop_last() =~= values@.take(i as int));
            assert(values@.take(i as int + 1).last() == values@[i as int]);
        }
        let v: i64 = values[i];
        if v > m {
            m = v;
        }
        i = i + 1;
    }
    proof {
        assert(values@.take(values@.len() as int) =~= values@);
    }
    m
}

/// The exact sum of a numeric column; it always fits the accumulator.
pub fn sum_values(values: &Vec<i64>) -> (r: i128)
    ensures
        r as int == seq_sum(values@),
{
    let mut acc: i128 = 0;
    let mut i: usize = 0;
    proof {
        assert(values@.take(0) =~= Seq::<i64>::empty());
    }
    while i < values.len()
        invariant
            i <= values@.len(),
            acc as int == seq_sum(values@.take(i as int)),
            (i as int) * (i64::MIN as int) <= acc as int <= (i as int) * (i64::MAX as int),
        decreases values@.len() - i,
    {
        proof {
            assert(values@.take(i as int + 1).drop_last() =~= values@.take(i as int));
            assert(values@.take(i as int + 1).last() == values@[i as int]);
        }
        let v: i64 = values[i];
        proof {
            assert((i as int + 1) * (i64::MIN as int) <= acc as int + v as int <= (i as int + 1) * (
            i64::MAX as int)) by (nonlinear_arith)
                requires
                    (i as int) * (i64::MIN as int) <= acc as int <= (i as int) * (i64::MAX as int),
                    (i64::MIN as int) <= v as int <= (i64::MAX as int),
                    i >= 0,
            ;
            assert(i as int + 1 <= 0x1_0000_0000_0000_0000);
            assert((i as int + 1) * (i64::MAX as int) < i128::MAX as int) by (nonlinear_arith)
                requires
                    0 < i as int + 1 <= 0x1_0000_0000_0000_0000,
            ;
            assert((i as int + 1) * (i64::MIN as int) >= i128::MIN as int) by (nonlinear_arith)
                requires
                    0 < i as int + 1 <= 0x1_0000_0000_0000_0000,
            ;
        }
        acc = acc + (v as i128);
        i = i + 1;
    }
    proof {
        assert(values@.take(values@.len() as int) =~= values@);
    }
    acc
}

/// The exact sum of squares of a numeric column, or `None` when it
/// exceeds the unsigned 128-bit range.
pub fn sum_squares(values: &Vec<i64>) -> (r: Option<u128>)
    ensures
        match r {
            Some(x) => x as int == seq_sum_sq(values@),
            None => seq_sum_sq(values@) > u128::MAX as int,
        },
{
    let mut acc: u128 = 0;
    let mut i: usize = 0;
    proof {
        assert(values@.take(0) =~= Seq::<i64>::empty());
    }
    while i < values.len()
        invariant
            i <= values@.len(),
            acc as int == seq_sum_sq(values@.take(i as int)),
        decreases values@.len() - i,
    {
        proof {
            assert(values@.take(i as int + 1).drop_last() =~= values@.take(i as int));
            assert(values@.take(i as int + 1).last() == values@[i as int]);
        }
        let v: i64 = values[i];
        proof {
            assert(0 <= (v as int) * (v as int) <= i128::MAX as int) by (nonlinear_arith)
                requires
                    (i64::MIN as int) <= v as int <= (i64::MAX as int),
            ;
        }
        let w: i128 = (v as i128) * (v as i128);
        let wu: u128 = w as u128;
        match acc.checked_add(wu) {
            Some(a) => {
                acc = a;
            },
            None => {
                proof {
                    lemma_sum_sq_prefix_le(values@, i as int + 1);
                }
                return None;
            },
        }
        i = i + 1;
    }
    proof {
        assert(values@.take(values@.len() as int) =~= values@);
    }
    Some(acc)
}

/// The integer square root: the greatest `r` with `r^2 <= x`.
pub fn isqrt_u128(x: u128) -> (r: u128)
    ensures
        (r as int) * (r as int) <= x as int,
        (x as int) < (r as int + 1) * (r as int + 1),
{
    let mut lo: u128 = 0;
    let mut hi: u128 = 0x1_0000_0000_0000_0000u128;
    proof {
        assert((hi as int) * (hi as int) > x as int) by (nonlinear_arith)
            requires
                hi == 0x1_0000_0000_0000_0000u128,
                x <= u128::MAX,
        ;
    }
    while lo + 1 < hi
        invariant
            lo < hi,
            hi <= 0x1_0000_0000_0000_0000u128,
            (lo as int) * (lo as int) <= x as int,
            (x as int) < (hi as int) * (hi as int),
        decreases hi - lo,
    {
        let mid: u128 = lo + (hi - lo) / 2;
        proof {
            assert(lo < mid && mid < hi);
            assert((mid as int) * (mid as int) <= u128::MAX as int) by (nonlinear_arith)
                requires
                    0 <= mid as int,
                    mid as int <= 0xffff_ffff_ffff_ffffi128 as int,
            ;
        }
        let sq: u128 = mid * mid;
        if sq <= x {
            lo = mid;
        } else {
            hi = mid;
        }
    }
    lo
}

/// The numeric summary of a column: extremes, exact rational mean,
/// exact population variance, the integer-square-root standard
/// deviation, and the histogram once it is filled in.
#[derive(Debug, Clone, PartialEq)]
pub struct NumericFeatures {
    pub min: i64,
    pub max: i64,
    pub mean: Ratio,
    pub variance: Ratio,
    pub std: Ratio,
    pub hist: Option<Hist>,
}

/// The summary's fields are the exact statistics of the values: the mean
/// is `sum / n`, the variance is `(n*sum_sq - sum^2) / n^2`, and the
/// standard deviation at denominator `n` brackets the square root of the
/// variance: `std^2 <= variance < (std + 1/n)^2`.
pub open spec fn numeric_features_match(values: Seq<i64>, f: NumericFeatures) -> bool {
    &&& f.min as int == seq_min(values)
    &&& f.max as int == seq_max(values)
    &&& f.mean.is_fraction(seq_sum(values), values.len() as int)
    &&& f.variance.is_fraction(variance_numer(values), values.len() as int * values.len() as int)
    &&& f.std.den as int == values.len()
    &&& 0 <= f.std.num
    &&& (f.std.num as int) * (f.std.num as int) <= variance_numer(values)
    &&& variance_numer(values) < (f.std.num as int + 1) * (f.std.num as int + 1)
}

/// For any summary of a non-empty column: the mean lies between the
/// least and the greatest value, the variance is nonnegative, and the
/// standard deviation squared brackets the variance numerator; together,
/// `min <= mean <= max` and `std = sqrt(variance)` up to the exact
/// integer-square-root bracket.
pub proof fn lemma_numeric_features_sound(values: Seq<i64>, f: NumericFeatures)
    requires
        values.len() > 0,
        numeric_features_match(values, f),
    ensures
        (f.min as int) * (f.mean.den as int) <= f.mean.num as int,
        f.mean.num as int <= (f.max as int) * (f.mean.den as int),
        f.variance.num >= 0,
        (f.std.num as int) * (f.std.num as int) <= f.variance.num as int,
        (f.variance.num as int) < (f.std.num as int + 1) * (f.std.num as int + 1),
{
    lemma_sum_between_min_max(values);
    lemma_sum_sq_cauchy(values);
}

/// Compute the numeric summary of a column's non-null values: min, max,
/// exact mean, exact population variance, and the integer square root of
/// the variance numerator as the standard deviation. Fails with
/// `EmptyColumn` if and only if there are no values, and with
/// `StatsOverflow` if and only if the exact variance does not fit the
/// 128-bit computation. The histogram slot is left empty for the
/// profiler to fill.
pub fn get_numeric_features(values: &Vec<i64>) -> (r: Result<NumericFeatures, ProfileError>)
    ensures
        match r {
            Ok(f) => values@.len() > 0 && stats_fit(values@) && numeric_features_match(values@, f)
                && f.hist is None,
            Err(e) => (e == ProfileError::EmptyColumn && values@.len() == 0) || (e
                == ProfileError::StatsOverflow && values@.len() > 0 && !stats_fit(values@)),
        },
{
    let n: usize = values.len();
    if n == 0 {
        return Err(ProfileError::EmptyColumn);
    }
    let mn: i64 = min_value(values);
    let mx: i64 = max_value(values);
    let sum: i128 = sum_values(values);
    let sumsq: u128 = match sum_squares(values) {
        Some(x) => x,
        None => {
            proof {
                lemma_sum_sq_nonneg(values@);
                assert(values@.len() * seq_sum_sq(values@) >= seq_sum_sq(values@))
                    by (nonlinear_arith)
                    requires
                        values@.len() >= 1,
                        seq_sum_sq(values@) >= 0,
                ;
            }
            return Err(ProfileError::StatsOverflow);
        },
    };
    let nss: u128 = match (n as u128).checked_mul(sumsq) {
        Some(x) => x,
        None => {
            return Err(ProfileError::StatsOverflow);
        },
    };
    proof {
        lemma_sum_sq_cauchy(values@);
        lemma_sum_bounds(values@);
        assert(values@.len() <= 0xffff_ffff_ffff_ffffu64 as int);
        assert(seq_sum(values@) > i128::MIN as int) by (nonlinear_arith)
            requires
                seq_sum(values@) >= values@.len() * (i64::MIN as int),
                0 <= values@.len() <= 0xffff_ffff_ffff_ffffu64 as int,
        ;
    }
    let sabs: i128 = if sum >= 0 {
        sum
    } else {
        -sum
    };
    proof {
        assert((sabs as int) * (sabs as int) == seq_sum(values@) * seq_sum(values@))
            by (nonlinear_arith)
            requires
                sabs as int == seq_sum(values@) || sabs as int == -seq_sum(values@),
        ;
    }
    let sq: u128 = (sabs as u128) * (sabs as u128);
    let numer_u: u128 = nss - sq;
    if numer_u > 0x7fff_ffff_ffff_ffff_ffff_ffff_ffff_ffffu128 {
        return Err(ProfileError::StatsOverflow);
    }
    let numer: i128 = numer_u as i128;
    proof {
        assert((n as int) * (n as int) <= u128::MAX as int) by (nonlinear_arith)
            requires
                0 <= n as int <= 0xffff_ffff_ffff_ffffu64 as int,
        ;
    }
    let nsq: u128 = (n as u128) * (n as u128);
    let s: u128 = isqrt_u128(numer_u);
    proof {
        assert(s as int <= i128::MAX as int) by (nonlinear_arith)
            requires
                (s as int) * (s as int) <= u128::MAX as int,
                s >= 0,
        ;
    }
    Ok(
        NumericFeatures {
            min: mn,
            max: mx,
            mean: Ratio::new(sum, n as u128),
            variance: Ratio::new(numer, nsq),
            std: Ratio::new(s as i128, n as u128),
            hist: None,
        },
    )
}

/// The total character length of the string values.
pub open spec fn seq_len_sum(vs: Seq<Seq<char>>) -> int
    decreases vs.len(),
{
    if vs.len() == 0 {
        0
    } else {
        seq_len_sum(vs.drop_last()) + vs.last().len()
    }
}

/// The least character length among the string values.
pub open spec fn seq_len_min(vs: Seq<Seq<char>>) -> int
    recommends
        vs.len() > 0,
    decreases vs.len(),
{
    if vs.len() <= 1 {
        vs[0].len() as int
    } else {
        let m = seq_len_min(vs.drop_last());
        if (vs.last().len() as int) < m {
            vs.last().len() as int
        } else {
            m
        }
    }
}

/// The greatest character length among the string values.
pub open spec fn seq_len_max(vs: Seq<Seq<char>>) -> int
    recommends
        vs.len() > 0,
    decreases vs.len(),
{
    if vs.len() <= 1 {
        vs[0].len() as int
    } else {
        let m = seq_len_max(vs.drop_last());
        if (vs.last().len() as int) > m {
            vs.last().len() as int
        } else {
            m
        }
    }
}

/// A fully lower-case string: non-empty and every character an ASCII
/// lower-case letter.
pub open spec fn is_all_lower(s: Seq<char>) -> bool {
    s.len() > 0 && forall|i: int| 0 <= i < s.len() ==> is_lower_alpha(#[trigger] s[i])
}

/// A fully upper-case string: non-empty and every character an ASCII
/// upper-case letter.
pub open spec fn is_all_upper(s: Seq<char>) -> bool {
    s.len() > 0 && forall|i: int| 0 <= i < s.len() ==> is_upper_alpha(#[trigger] s[i])
}

/// A capitalized string: an upper-case first letter, every later
/// character a lower-case letter.
pub open spec fn is_capitalized(s: Seq<char>) -> bool {
    s.len() > 0 && is_upper_alpha(s[0]) && forall|i: int|
        1 <= i < s.len() ==> is_lower_alpha(#[trigger] s[i])
}

/// How many of the string values are capitalized.
pub open spec fn count_capitalized(vs: Seq<Seq<char>>) -> nat
    decreases vs.len(),
{
    if vs.len() == 0 {
        0
    } else {
        count_capitalized(vs.drop_last()) + if is_capitalized(vs.last()) {
            1nat
        } else {
            0nat
        }
    }
}

/// How many of the string values are fully lower-case.
pub open spec fn count_all_lower(vs: Seq<Seq<char>>) -> nat
    decreases vs.len(),
{
    if vs.len() == 0 {
        0
    } else {
        count_all_lower(vs.drop_last()) + if is_all_lower(vs.last()) {
            1nat
        } else {
            0nat
        }
    }
}

/// How many of the string values are fully upper-case.
pub open spec fn count_all_upper(vs: Seq<Seq<char>>) -> nat
    decreases vs.len(),
{
    if vs.len() == 0 {
        0
    } else {
        count_all_upper(vs.drop_last()) + if is_all_upper(vs.last()) {
            1nat
        } else {
            0nat
        }
    }
}

/// The textual summary of a string column: character-length extremes,
/// the exact rational average length, and the counts of capitalized,
/// fully lower-case and fully upper-case values.
#[derive(Debug, Clone, PartialEq)]
pub struct StringFeatures {
    pub min_len: usize,
    pub max_len: usize,
    pub avg_len: Ratio,
    pub n_capitalized: usize,
    pub n_lowercase: usize,
    pub n_uppercase: usize,
}

/// The summary's fields are the exact length statistics and case counts
/// of the values.
pub open spec fn string_features_match(vs: Seq<Seq<char>>, f: StringFeatures) -> bool {
    &&& f.min_len as int == seq_len_min(vs)
    &&& f.max_len as int == seq_len_max(vs)
    &&& f.avg_len.is_fraction(seq_len_sum(vs), vs.len() as int)
    &&& f.n_capitalized as int == count_capitalized(vs)
    &&& f.n_lowercase as int == count_all_lower(vs)
    &&& f.n_uppercase as int == count_all_upper(vs)
}

/// Classify one string's letter case in a single pass.
fn check_case(s: &str) -> (r: (bool, bool, bool))
    ensures
        r.0 == is_capitalized(s@),
        r.1 == is_all_lower(s@),
        r.2 == is_all_upper(s@),
{
    let n: usize = s.unicode_len();
    if n == 0 {
        return (false, false, false);
    }
    let mut all_lower: bool = true;
    let mut all_upper: bool = true;
    let mut rest_lower: bool = true;
    let first: char = s.get_char(0);
    let first_upper: bool = first as u32 >= 65 && first as u32 <= 90;
    let mut i: usize = 0;
    while i < n
        invariant
            i <= n,
            n == s@.len(),
            all_lower == forall|j: int| 0 <= j < i ==> is_lower_alpha(#[trigger] s@[j]),
            all_upper == forall|j: int| 0 <= j < i ==> is_upper_alpha(#[trigger] s@[j]),
            rest_lower == forall|j: int| 1 <= j < i ==> is_lower_alpha(#[trigger] s@[j]),
        decreases n - i,
    {
        let c: char = s.get_char(i);
        let u: u32 = c as u32;
        let lower: bool = u >= 97 && u <= 122;
        let upper: bool = u >= 65 && u <= 90;
        let prev_all_lower: bool = all_lower;
        let prev_all_upper: bool = all_upper;
        let prev_rest_lower: bool = rest_lower;
        all_lower = prev_all_lower && lower;
        all_upper = prev_all_upper && upper;
        if i >= 1 {
            rest_lower = prev_rest_lower && lower;
        }
        i = i + 1;
    }
    (first_upper && rest_lower, all_lower, all_upper)
}

/// Compute the textual summary of a string column's non-null values:
/// character-length minimum, maximum and exact average, and how many
/// values are capitalized, fully lower-case, or fully upper-case. Fails
/// with `EmptyColumn` if and only if there are no values, and with
/// `StatsOverflow` if and only if the total length does not fit the
/// 128-bit computation.
pub fn get_string_features(values: &Vec<String>) -> (r: Result<StringFeatures, ProfileError>)
    ensures
        match r {
            Ok(f) => values@.len() > 0 && string_features_match(values.deep_view(), f)
                && seq_len_sum(values.deep_view()) <= i128::MAX as int,
            Err(e) => (e == ProfileError::EmptyColumn && values@.len() == 0) || (e
                == ProfileError::StatsOverflow && values@.len() > 0 && seq_len_sum(
                values.deep_view(),
            ) > i128::MAX as int),
        },
{
    let ghost vs: Seq<Seq<char>> = values.deep_view();
    let n: usize = values.len();
    if n == 0 {
        return Err(ProfileError::EmptyColumn);
    }
    proof {
        assert(values@[0]@ == vs[0]);
        assert(vs.take(1)[0] == vs[0]);
    }
    let l0: usize = values[0].as_str().unicode_len();
    let mut min_len: usize = l0;
    let mut max_len: usize = l0;
    let mut total: u128 = l0 as u128;
    let mut n_cap: usize = 0;
    let mut n_low: usize = 0;
    let mut n_up: usize = 0;
    let (c0, lo0, up0): (bool, bool, bool) = check_case(values[0].as_str());
    if c0 {
        n_cap = 1;
    }
    if lo0 {
        n_low = 1;
    }
    if up0 {
        n_up = 1;
    }
    let mut i: usize = 1;
    proof {
        assert(vs.take(1).drop_last() =~= Seq::<Seq<char>>::empty());
        assert(vs.take(1).last() == vs[0]);
        assert(seq_len_sum(Seq::<Seq<char>>::empty()) == 0);
        assert(count_capitalized(Seq::<Seq<char>>::empty()) == 0);
        assert(count_all_lower(Seq::<Seq<char>>::empty()) == 0);
        assert(count_all_upper(Seq::<Seq<char>>::empty()) == 0);
    }
    while i < n
        invariant
            1 <= i <= n,
            n == values@.len(),
            vs == values.deep_view(),
            vs.len() == n,
            min_len as int == seq_len_min(vs.take(i as int)),
            max_len as int == seq_len_max(vs.take(i as int)),
            total as int == seq_len_sum(vs.take(i as int)),
            total as int <= (i as int) * 0xffff_ffff_ffff_ffffu64 as int,
            n_cap as int == count_capitalized(vs.take(i as int)),
            n_low as int == count_all_lower(vs.take(i as int)),
            n_up as int == count_all_upper(vs.take(i as int)),
            n_cap <= i && n_low <= i && n_up <= i,
        decreases n - i,
    {
        proof {
            assert(vs.take(i as int + 1).drop_last() =~= vs.take(i as int));
            assert(vs.take(i as int + 1).last() == vs[i as int]);
            assert(values@[i as int]@ == vs[i as int]);
        }
        let l: usize = values[i].as_str().unicode_len();
        if l < min_len {
            min_len = l;
        }
        if l > max_len {
            max_len = l;
        }
        proof {
            assert((total as int) + (l as int) <= (i as int + 1) * 0xffff_ffff_ffff_ffffu64 as int)
                by (nonlinear_arith)
                requires
                    total as int <= (i as int) * 0xffff_ffff_ffff_ffffu64 as int,
                    0 <= l as int <= 0xffff_ffff_ffff_ffffu64 as int,
                    i >= 0,
            ;
            assert(i as int + 1 <= 0x1_0000_0000_0000_0000);
            assert((i as int + 1) * 0xffff_ffff_ffff_ffffu64 as int <= u128::MAX as int)
                by (nonlinear_arith)
                requires
                    0 < i as int + 1 <= 0x1_0000_0000_0000_0000,
            ;
        }
        total = total + (l as u128);
        let (cap, low, up): (bool, bool, bool) = check_case(values[i].as_str());
        if cap {
            n_cap = n_cap + 1;
        }
        if low {
            n_low = n_low + 1;
        }
        if up {
            n_up = n_up + 1;
        }
        i = i + 1;
    }
    proof {
        assert(vs.take(n as int) =~= vs);
    }
    if total > 0x7fff_ffff_ffff_ffff_ffff_ffff_ffff_ffffu128 {
        return Err(ProfileError::StatsOverflow);
    }
    Ok(
        StringFeatures {
            min_len,
            max_len,
            avg_len: Ratio::new(total as i128, n as u128),
            n_capitalized: n_cap,
            n_lowercase: n_low,
            n_uppercase: n_up,
        },
    )
}

} // verus!
