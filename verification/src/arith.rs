//! Exact unsigned integer arithmetic with a wide intermediate product.
//!
//! The engine's fixed-point values are `u128` integers scaled by `10^18`,
//! so its formulas all reduce to `a * b / c` where the product `a * b`
//! can exceed `u128::MAX` even though the quotient fits.  [`mul_div`]
//! computes that quotient exactly, rejecting only results that are
//! themselves too large.

use vstd::prelude::*;
use vstd::arithmetic::div_mod::{
    lemma_div_by_multiple, lemma_div_is_ordered, lemma_div_pos_is_pos, lemma_fundamental_div_mod,
    lemma_fundamental_div_mod_converse, lemma_mod_bound,
};
use vstd::arithmetic::mul::{
    lemma_mul_inequality, lemma_mul_is_associative, lemma_mul_is_commutative,
    lemma_mul_is_distributive_sub_other_way, lemma_mul_nonnegative,
};

verus! {

/// Floor of `a * b / c` over the unbounded integers.
pub open spec fn mul_div_floor(a: int, b: int, c: int) -> int {
    (a * b) / c
}

/// Cancellation: a decomposition `q * c + rem == d * r` with `0 <= rem`
/// and `0 <= r < c` forces `q <= d`, strictly when `d >= 1`.
proof fn lemma_decomp_bound(q: int, rem: int, d: int, r: int, c: int)
    by (nonlinear_arith)
    requires
        c > 0,
        0 <= q,
        0 <= rem,
        0 <= r < c,
        0 <= d,
        q * c + rem == d * r,
    ensures
        q <= d,
        d >= 1 ==> q < d,
{
}

/// Ring identity for merging two quotient-remainder decompositions by
/// the same divisor, with an arbitrary carry `del` between them.
proof fn lemma_merge_decomp(
    aq: int,
    ar: int,
    cq: int,
    cr: int,
    da: int,
    dc: int,
    r: int,
    c: int,
    del: int,
)
    by (nonlinear_arith)
    requires
        aq * c + ar == da * r,
        cq * c + cr == dc * r,
    ensures
        (aq + cq + del) * c + (ar + cr - del * c) == (da + dc) * r,
{
}

/// Ring identity splitting `a * b` along the division of `b` by `c`.
proof fn lemma_split_product(a: int, b: int, c: int, qq: int, rr: int)
    by (nonlinear_arith)
    requires
        b == c * qq + rr,
    ensures
        a * b == (a * qq) * c + a * rr,
{
}

/// Ring identity reassembling a full quotient from its two parts.
proof fn lemma_assemble(aq: int, p2: int, rr: int, c: int, ar: int)
    by (nonlinear_arith)
    requires
        ar == c * p2 + rr,
    ensures
        (aq + p2) * c + rr == aq * c + ar,
{
}

/// A floor quotient is bounded by any multiple of the divisor that
/// bounds the dividend: `p <= d * c` gives `p / c <= d`.
pub proof fn lemma_mul_div_bound(p: int, c: int, d: int)
    requires
        0 < c,
        0 <= d,
        p <= d * c,
    ensures
        p / c <= d,
{
    lemma_div_is_ordered(p, d * c, c);
    lemma_div_by_multiple(d, c);
}

/// Scaling down by a fraction at most one: `(a * b) / c <= a` when
/// `b <= c`.
pub proof fn lemma_mul_div_le_self(a: int, b: int, c: int)
    requires
        0 < c,
        0 <= a,
        0 <= b <= c,
    ensures
        0 <= (a * b) / c <= a,
{
    lemma_mul_inequality(b, c, a);
    lemma_mul_is_commutative(b, a);
    lemma_mul_is_commutative(c, a);
    lemma_mul_div_bound(a * b, c, a);
    lemma_mul_nonnegative(a, b);
    lemma_div_pos_is_pos(a * b, c);
}

/// Comparing against a floor quotient decides the cross product:
/// `a <= b / c` exactly when `a * c <= b`.
pub proof fn lemma_le_div_iff(a: int, b: int, c: int)
    requires
        0 < c,
        0 <= a,
        0 <= b,
    ensures
        (a <= b / c) <==> (a * c <= b),
{
    if a * c <= b {
        lemma_div_by_multiple(a, c);
        lemma_div_is_ordered(a * c, b, c);
    }
    if a <= b / c {
        lemma_fundamental_div_mod(b, c);
        lemma_mod_bound(b, c);
        lemma_mul_inequality(a, b / c, c);
        lemma_mul_is_commutative(b / c, c);
    }
}

/// Floor of `a * r / c` when `r < c`; the quotient is then at most `a`,
/// so it always fits in `u128`.  Runs a binary decomposition of `a`,
/// tracking quotient and remainder by `c` of the partial products, so
/// the wide product `a * r` is never materialized.
fn mul_div_rem(a: u128, r: u128, c: u128) -> (q: u128)
    requires
        0 < c,
        r < c,
    ensures
        q == mul_div_floor(a as int, r as int, c as int),
{
    let mut acc_q: u128 = 0;
    let mut acc_r: u128 = 0;
    let mut cur_q: u128 = 0;
    let mut cur_r: u128 = r;
    let mut x: u128 = a;
    let ghost mut m: int = 1;
    proof {
        assert((a as int - a as int * 1) * r as int == 0) by (nonlinear_arith);
        assert(0 * c as int + r as int == 1 * r as int) by (nonlinear_arith);
        assert(a as int * 1 <= a as int) by (nonlinear_arith);
    }
    while x > 0
        invariant
            0 < c,
            r < c,
            acc_r < c,
            m >= 1,
            x as int * m <= a as int,
            x > 0 ==> cur_r < c && cur_q as int * c as int + cur_r as int == m * r as int,
            acc_q as int * c as int + acc_r as int == (a as int - x as int * m) * r as int,
        decreases x,
    {
        let ghost a_i = a as int;
        let ghost x_i = x as int;
        let ghost c_i = c as int;
        let ghost r_i = r as int;
        if x % 2 == 1 {
            let ghost del: int = if acc_r >= c - cur_r { 1int } else { 0int };
            proof {
                let d_old: int = a_i - x_i * m;
                lemma_merge_decomp(
                    acc_q as int,
                    acc_r as int,
                    cur_q as int,
                    cur_r as int,
                    d_old,
                    m,
                    r_i,
                    c_i,
                    del,
                );
                // the merged decomposition corresponds to one more copy of m
                lemma_mul_is_distributive_sub_other_way(m, x_i, 1);
                assert(d_old + m == a_i - (x_i - 1) * m);
                lemma_mul_nonnegative(x_i - 1, m);
                lemma_decomp_bound(
                    acc_q as int + cur_q as int + del,
                    acc_r as int + cur_r as int - del * c_i,
                    d_old + m,
                    r_i,
                    c_i,
                );
            }
            if acc_r >= c - cur_r {
                acc_r = acc_r - (c - cur_r);
                acc_q = acc_q + cur_q + 1;
            } else {
                acc_r = acc_r + cur_r;
                acc_q = acc_q + cur_q;
            }
        }
        x = x / 2;
        if x > 0 {
            let ghost del: int = if cur_r >= c - cur_r { 1int } else { 0int };
            proof {
                lemma_merge_decomp(
                    cur_q as int,
                    cur_r as int,
                    cur_q as int,
                    cur_r as int,
                    m,
                    m,
                    r_i,
                    c_i,
                    del,
                );
                lemma_decomp_bound(cur_q as int, cur_r as int, m, r_i, c_i);
                // x * (2 * m) <= a carries over from the pre-halving invariant
                lemma_mul_is_associative(x as int, 2, m);
                lemma_mul_inequality(x as int * 2, x_i, m);
                lemma_mul_inequality(1, x as int, 2 * m);
                assert(2 * cur_q as int + del <= 2 * m);
                assert(x as int * (2 * m) <= a_i);
            }
            if cur_r >= c - cur_r {
                cur_r = cur_r - (c - cur_r);
                cur_q = 2 * cur_q + 1;
            } else {
                cur_r = cur_r + cur_r;
                cur_q = 2 * cur_q;
            }
            proof {
                m = 2 * m;
            }
        } else {
            proof {
                // the loop ends here: the remaining multiplier is used up
                lemma_mul_is_distributive_sub_other_way(m, x_i, 1);
                assert(x as int * m == 0) by (nonlinear_arith)
                    requires
                        x as int == 0,
                ;
            }
        }
    }
    proof {
        assert(acc_q as int * c as int + acc_r as int == a as int * r as int) by {
            assert(x as int * m == 0) by (nonlinear_arith)
                requires
                    x as int == 0,
            ;
            assert((a as int - 0) * r as int == a as int * r as int);
        }
        lemma_fundamental_div_mod_converse(
            a as int * r as int,
            c as int,
            acc_q as int,
            acc_r as int,
        );
    }
    acc_q
}

/// Exact floor of `a * b / c`, or `None` when that quotient exceeds
/// `u128::MAX`.  The intermediate product is handled at full width, so
/// no input combination wraps or saturates silently.
pub fn mul_div(a: u128, b: u128, c: u128) -> (res: Option<u128>)
    requires
        c > 0,
    ensures
        match res {
            Some(q) => q == mul_div_floor(a as int, b as int, c as int),
            None => mul_div_floor(a as int, b as int, c as int) > u128::MAX,
        },
{
    let q1 = b / c;
    let r1 = b % c;
    let part2 = mul_div_rem(a, r1, c);
    let ghost a_i = a as int;
    let ghost b_i = b as int;
    let ghost c_i = c as int;
    proof {
        lemma_fundamental_div_mod(b_i, c_i);
        lemma_split_product(a_i, b_i, c_i, b_i / c_i, b_i % c_i);
        lemma_fundamental_div_mod(a_i * (b_i % c_i), c_i);
        lemma_mod_bound(a_i * (b_i % c_i), c_i);
        lemma_mul_nonnegative(a_i, b_i % c_i);
        lemma_div_pos_is_pos(a_i * (b_i % c_i), c_i);
        lemma_assemble(
            a_i * (b_i / c_i),
            (a_i * (b_i % c_i)) / c_i,
            (a_i * (b_i % c_i)) % c_i,
            c_i,
            a_i * (b_i % c_i),
        );
        lemma_fundamental_div_mod_converse(
            a_i * b_i,
            c_i,
            a_i * (b_i / c_i) + (a_i * (b_i % c_i)) / c_i,
            (a_i * (b_i % c_i)) % c_i,
        );
    }
    match a.checked_mul(q1) {
        Some(p1) => p1.checked_add(part2),
        None => None,
    }
}

} // verus!
