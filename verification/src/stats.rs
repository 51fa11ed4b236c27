//! Sums, means and variances over fixed-point samples.

use vstd::prelude::*;
use crate::fixed::{Fixed, opt_q, q_add, q_div_int, q_mul, q_sub, fx_add, fx_div_int, fx_mul,
    fx_sub};

verus! {

/// Raw sum of a sample, `None` as soon as a partial sum leaves the range.
pub open spec fn q_sum(s: Seq<Fixed>) -> Option<int>
    decreases s.len(),
{
    if s.len() == 0 {
        Some(0)
    } else {
        match q_sum(s.drop_last()) {
            Some(a) => q_add(a, s.last().q as int),
            None => None,
        }
    }
}

/// Raw sum of squared deviations from `m`, each square truncated at the
/// billionth; `None` as soon as a step leaves the range.
pub open spec fn sqdev_sum(s: Seq<Fixed>, m: int) -> Option<int>
    decreases s.len(),
{
    if s.len() == 0 {
        Some(0)
    } else {
        match sqdev_sum(s.drop_last(), m) {
            Some(a) => match q_sub(s.last().q as int, m) {
                Some(d) => match q_mul(d, d) {
                    Some(t) => q_add(a, t),
                    None => None,
                },
                None => None,
            },
            None => None,
        }
    }
}

/// Raw unbiased sample variance: squared deviations from the arithmetic
/// mean, divided by one less than the sample size.
pub open spec fn variance_q(s: Seq<Fixed>) -> Option<int> {
    match q_sum(s) {
        Some(sum) => {
            let m = q_div_int(sum, s.len() as int);
            match sqdev_sum(s, m) {
                Some(d) => Some(q_div_int(d, s.len() as int - 1)),
                None => None,
            }
        },
        None => None,
    }
}

/// Sums a sample exactly.
pub fn fx_sum(s: &Vec<Fixed>) -> (r: Option<Fixed>)
    ensures
        opt_q(r) == q_sum(s@),
{
    let mut acc: Option<Fixed> = Some(Fixed { q: 0 });
    let mut i: usize = 0;
    while i < s.len()
        invariant
            i <= s@.len(),
            opt_q(acc) == q_sum(s@.take(i as int)),
        decreases s@.len() - i,
    {
        acc = match acc {
            Some(a) => fx_add(a, s[i]),
            None => None,
        };
        proof {
            assert(s@.take(i as int + 1).drop_last() =~= s@.take(i as int));
            assert(s@.take(i as int + 1).last() == s@[i as int]);
        }
        i = i + 1;
    }
    proof {
        assert(s@.take(s@.len() as int) =~= s@);
    }
    acc
}

/// The unbiased sample variance of a sample of at least two values.
pub fn unbiased_sample_variance(s: &Vec<Fixed>) -> (r: Option<Fixed>)
    requires
        2 <= s@.len() < 0x8000_0000_0000_0000,
    ensures
        opt_q(r) == variance_q(s@),
{
    let sum: Fixed = match fx_sum(s) {
        Some(f) => f,
        None => {
            return None;
        },
    };
    let n: usize = s.len();
    let m: Fixed = fx_div_int(sum, n as i64);
    let mut acc: Option<Fixed> = Some(Fixed { q: 0 });
    let mut i: usize = 0;
    while i < s.len()
        invariant
            i <= s@.len(),
            opt_q(acc) == sqdev_sum(s@.take(i as int), m.q as int),
        decreases s@.len() - i,
    {
        acc = match acc {
            Some(a) => match fx_sub(s[i], m) {
                Some(d) => match fx_mul(d, d) {
                    Some(t) => fx_add(a, t),
                    None => None,
                },
                None => None,
            },
            None => None,
        };
        proof {
            assert(s@.take(i as int + 1).drop_last() =~= s@.take(i as int));
            assert(s@.take(i as int + 1).last() == s@[i as int]);
        }
        i = i + 1;
    }
    proof {
        assert(s@.take(s@.len() as int) =~= s@);
    }
    match acc {
        Some(d) => Some(fx_div_int(d, (n - 1) as i64)),
        None => None,
    }
}

} // verus!
