use vstd::prelude::*;
use vstd::arithmetic::div_mod::lemma_div_is_ordered;
use vstd::arithmetic::div_mod::lemma_div_multiples_vanish;
use vstd::arithmetic::div_mod::lemma_fundamental_div_mod;
use vstd::arithmetic::div_mod::lemma_mod_division_less_than_divisor;
use vstd::arithmetic::mul::lemma_mul_inequality;

verus! {

/// An unbounded byte count clamped into the range of a `u64` counter.
pub open spec fn sat64(x: int) -> u64 {
    if x > u64::MAX {
        u64::MAX
    } else if x < 0 {
        0
    } else {
        x as u64
    }
}

/// Clamping commutes with adding on top of an already-clamped count.
pub proof fn lemma_sat64_add(a: int, b: u64)
    requires
        a >= 0,
    ensures
        sat64(sat64(a) + b) == sat64(a + b),
{
}

/// The sum of a sequence of byte counts, as a mathematical integer.
pub open spec fn sum_seq(s: Seq<u64>) -> int
    decreases s.len(),
{
    if s.len() == 0 {
        0
    } else {
        s[0] + sum_seq(s.skip(1))
    }
}

pub proof fn lemma_sum_seq_nonneg(s: Seq<u64>)
    ensures
        sum_seq(s) >= 0,
    decreases s.len(),
{
    if s.len() > 0 {
        lemma_sum_seq_nonneg(s.skip(1));
    }
}

pub proof fn lemma_sum_seq_push(s: Seq<u64>, x: u64)
    ensures
        sum_seq(s.push(x)) == sum_seq(s) + x,
    decreases s.len(),
{
    if s.len() == 0 {
        assert(s.push(x).skip(1) =~= Seq::<u64>::empty());
        assert(s.push(x)[0] == x);
        assert(sum_seq(s.push(x)) == x + sum_seq(Seq::<u64>::empty()));
    } else {
        assert(s.push(x).skip(1) =~= s.skip(1).push(x));
        assert(s.push(x)[0] == s[0]);
        lemma_sum_seq_push(s.skip(1), x);
        assert(sum_seq(s.push(x)) == s[0] + sum_seq(s.skip(1).push(x)));
    }
}

/// A sum of counts, each at most `b`, is at most the count of terms times `b`.
pub proof fn lemma_sum_seq_bound(s: Seq<u64>, b: u64)
    requires
        forall|i: int| 0 <= i < s.len() ==> s[i] <= b,
    ensures
        sum_seq(s) <= s.len() * b,
    decreases s.len(),
{
    if s.len() == 0 {
    } else {
        assert forall|i: int| 0 <= i < s.skip(1).len() implies s.skip(1)[i] <= b by {
            assert(s.skip(1)[i] == s[i + 1]);
        }
        lemma_sum_seq_bound(s.skip(1), b);
        assert((s.len() - 1) * b + b == s.len() * b) by (nonlinear_arith);
    }
}

/// The mean of a non-empty sequence of `u64` values fits in a `u64`.
pub proof fn lemma_mean_fits(s: Seq<u64>)
    requires
        s.len() > 0,
    ensures
        0 <= sum_seq(s) / s.len() as int <= u64::MAX,
{
    lemma_sum_seq_nonneg(s);
    lemma_sum_seq_bound(s, u64::MAX);
    lemma_div_is_ordered(0, sum_seq(s), s.len() as int);
    lemma_div_is_ordered(sum_seq(s), s.len() as int * u64::MAX as int, s.len() as int);
    lemma_div_multiples_vanish(u64::MAX as int, s.len() as int);
}

/// Dividing each of `n` byte counts by `n` keeps their sum within a `u64`.
pub proof fn lemma_shares_sum_fits(s: Seq<u64>, count: int)
    requires
        count > 0,
        s.len() <= count,
        forall|i: int| 0 <= i < s.len() ==> s[i] <= u64::MAX as int / count,
    ensures
        0 <= sum_seq(s) <= u64::MAX,
{
    let c = u64::MAX as int / count;
    lemma_sum_seq_nonneg(s);
    lemma_mod_division_less_than_divisor(u64::MAX as int, count);
    lemma_fundamental_div_mod(u64::MAX as int, count);
    assert(count * c <= u64::MAX);
    lemma_sum_seq_bound(s, c as u64);
    lemma_mul_inequality(s.len() as int, count, c);
    assert(count * c == c * count) by (nonlinear_arith);
}

} // verus!
