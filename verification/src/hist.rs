use vstd::prelude::*;

verus! {

use crate::ratio::Ratio;
use crate::stats::{seq_min, seq_max, min_value, max_value, lemma_min_max_bound};

/// A fixed-bucket histogram over the observed range of a numeric column:
/// each bucket has a start boundary and a count. Built once per column
/// and never merged afterwards.
#[derive(Debug, Clone, PartialEq)]
pub struct Hist {
    pub bins: Vec<Ratio>,
    pub counts: Vec<usize>,
}

impl Hist {
    /// An empty histogram, before any buckets are computed.
    pub fn new() -> (r: Hist)
        ensures
            r.bins@.len() == 0,
            r.counts@.len() == 0,
    {
        Hist { bins: Vec::new(), counts: Vec::new() }
    }

    /// Replace the histogram's buckets wholesale.
    pub fn update(&mut self, bins: Vec<Ratio>, counts: Vec<usize>)
        ensures
            final(self).bins == bins,
            final(self).counts == counts,
    {
        self.bins = bins;
        self.counts = counts;
    }
}

/// The bucket a value falls into, for buckets of equal width
/// `(max - min) / nbins` starting at `min`: the bucket whose half-open
/// span holds the value, with values on a boundary resolved to the lower
/// bucket, and the least value in bucket zero.
pub open spec fn bucket_index(v: int, mn: int, mx: int, nbins: int) -> int
    recommends
        mn <= v <= mx,
        nbins >= 1,
{
    let d = v - mn;
    let r = mx - mn;
    if d <= 0 {
        0
    } else {
        let q = (nbins * d + r - 1) / r - 1;
        if q >= nbins {
            nbins - 1
        } else {
            q
        }
    }
}

/// How many of the values fall into bucket `k`.
pub open spec fn count_in_bucket(values: Seq<i64>, mn: int, mx: int, nbins: int, k: int) -> nat
    decreases values.len(),
{
    if values.len() == 0 {
        0
    } else {
        count_in_bucket(values.drop_last(), mn, mx, nbins, k) + if bucket_index(
            values.last() as int,
            mn,
            mx,
            nbins,
        ) == k {
            1nat
        } else {
            0nat
        }
    }
}

/// The total of all bucket counts.
pub open spec fn sum_counts(counts: Seq<usize>) -> int
    decreases counts.len(),
{
    if counts.len() == 0 {
        0
    } else {
        sum_counts(counts.drop_last()) + counts.last()
    }
}

/// Replacing one entry changes the total by the difference.
proof fn lemma_sum_counts_update(s: Seq<usize>, k: int, v: usize)
    requires
        0 <= k < s.len(),
    ensures
        sum_counts(s.update(k, v)) == sum_counts(s) - s[k] + v,
    decreases s.len(),
{
    if k == s.len() - 1 {
        assert(s.update(k, v).drop_last() =~= s.drop_last());
        assert(s.update(k, v).last() == v);
    } else {
        assert(s.update(k, v).drop_last() =~= s.drop_last().update(k, v));
        assert(s.update(k, v).last() == s.last());
        lemma_sum_counts_update(s.drop_last(), k, v);
    }
}

/// Build the fixed-bucket histogram of a non-empty numeric column:
/// `nbins` buckets of equal width spanning the observed range, every
/// value counted into exactly one bucket (boundary ties to the lower
/// bucket), so the counts add up to the number of values. Bucket `k`
/// starts at `min + k * (max - min) / nbins`.
pub fn build_histogram(values: &Vec<i64>, nbins: usize) -> (h: Hist)
    requires
        values@.len() > 0,
        1 <= nbins <= 0x1_0000,
    ensures
        h.bins@.len() == nbins,
        h.counts@.len() == nbins,
        forall|k: int|
            0 <= k < nbins ==> (#[trigger] h.counts@[k]) as int == count_in_bucket(
                values@,
                seq_min(values@),
                seq_max(values@),
                nbins as int,
                k,
            ),
        sum_counts(h.counts@) == values@.len(),
        forall|k: int|
            0 <= k < nbins ==> (#[trigger] h.bins@[k]).is_fraction(
                (nbins as int) * seq_min(values@) + k * (seq_max(values@) - seq_min(values@)),
                nbins as int,
            ),
{
    let mn: i64 = min_value(values);
    let mx: i64 = max_value(values);
    proof {
        lemma_min_max_bound(values@);
    }
    let range: u128 = ((mx as i128) - (mn as i128)) as u128;
    let ghost gmn: int = mn as int;
    let ghost gmx: int = mx as int;
    let ghost gn: int = nbins as int;

    // bucket start boundaries
    let mut bins: Vec<Ratio> = Vec::new();
    let mut k: usize = 0;
    while k < nbins
        invariant
            k <= nbins,
            nbins <= 0x1_0000,
            gmn == mn as int,
            gmx == mx as int,
            gn == nbins as int,
            mn as int <= mx as int,
            bins@.len() == k,
            forall|j: int|
                0 <= j < k ==> (#[trigger] bins@[j]).is_fraction(
                    gn * gmn + j * (gmx - gmn),
                    gn,
                ),
        decreases nbins - k,
    {
        proof {
            assert(gn * gmn <= 0x1_0000i128 * 0x7fff_ffff_ffff_ffffi128 && gn * gmn
                >= 0x1_0000i128 * (-0x8000_0000_0000_0000i128)) by (nonlinear_arith)
                requires
                    1 <= gn <= 0x1_0000,
                    -0x8000_0000_0000_0000 <= gmn <= 0x7fff_ffff_ffff_ffff,
            ;
            assert(0 <= (k as int) * (gmx - gmn) <= 0x1_0000i128 * 0xffff_ffff_ffff_ffffi128)
                by (nonlinear_arith)
                requires
                    0 <= k as int <= 0x1_0000,
                    0 <= gmx - gmn <= 0xffff_ffff_ffff_ffff,
            ;
        }
        let num: i128 = (nbins as i128) * (mn as i128) + (k as i128) * ((mx as i128) - (
        mn as i128));
        bins.push(Ratio::new(num, nbins as u128));
        k = k + 1;
    }

    // bucket counts
    let mut counts: Vec<usize> = Vec::new();
    let mut k2: usize = 0;
    while k2 < nbins
        invariant
            k2 <= nbins,
            counts@.len() == k2,
            forall|j: int| 0 <= j < k2 ==> (#[trigger] counts@[j]) == 0,
            sum_counts(counts@) == 0,
        decreases nbins - k2,
    {
        proof {
            assert(counts@.push(0).drop_last() =~= counts@);
        }
        counts.push(0);
        k2 = k2 + 1;
    }

    let mut i: usize = 0;
    proof {
        assert(values@.take(0) =~= Seq::<i64>::empty());
    }
    while i < values.len()
        invariant
            i <= values@.len(),
            nbins >= 1,
            nbins <= 0x1_0000,
            gmn == mn as int,
            gmx == mx as int,
            gn == nbins as int,
            gmn == seq_min(values@),
            gmx == seq_max(values@),
            range as int == gmx - gmn,
            forall|j: int| 0 <= j < values@.len() ==> gmn <= (#[trigger] values@[j]) as int <= gmx,
            counts@.len() == nbins,
            forall|j: int| 0 <= j < nbins ==> (#[trigger] counts@[j]) <= i,
            forall|j: int|
                0 <= j < nbins ==> (#[trigger] counts@[j]) as int == count_in_bucket(
                    values@.take(i as int),
                    gmn,
                    gmx,
                    gn,
                    j,
                ),
            sum_counts(counts@) == i,
        decreases values@.len() - i,
    {
        proof {
            assert(values@.take(i as int + 1).drop_last() =~= values@.take(i as int));
            assert(values@.take(i as int + 1).last() == values@[i as int]);
        }
        let v: i64 = values[i];
        let d: u128 = ((v as i128) - (mn as i128)) as u128;
        let idx: usize = if d == 0 {
            0
        } else {
            proof {
                assert(gn * (d as int) + (range as int) - 1 <= 0x1_0000i128
                    * 0xffff_ffff_ffff_ffffi128 + 0xffff_ffff_ffff_ffffi128) by (nonlinear_arith)
                    requires
                        1 <= gn <= 0x1_0000,
                        0 < d as int <= 0xffff_ffff_ffff_ffff,
                        0 <= range as int <= 0xffff_ffff_ffff_ffff,
                ;
                assert(gn * (d as int) >= 1) by (nonlinear_arith)
                    requires
                        gn >= 1,
                        d as int >= 1,
                ;
            }
            let prod: u128 = (nbins as u128) * d;
            let numtot: u128 = prod + range - 1;
            let quot: u128 = numtot / range;
            proof {
                vstd::arithmetic::div_mod::lemma_div_non_zero(numtot as int, range as int);
            }
            let q: u128 = quot - 1;
            if q >= nbins as u128 {
                nbins - 1
            } else {
                q as usize
            }
        };
        proof {
            assert(idx as int == bucket_index(v as int, gmn, gmx, gn));
            assert(idx < nbins);
            lemma_sum_counts_update(counts@, idx as int, (counts@[idx as int] + 1) as usize);
        }
        let c: usize = counts[idx];
        counts.set(idx, c + 1);
        i = i + 1;
    }
    proof {
        assert(values@.take(values@.len() as int) =~= values@);
    }
    Hist { bins, counts }
}

} // verus!
