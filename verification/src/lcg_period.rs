//! The generator's period: from every state, the step returns to that state
//! after exactly 2^64 steps and not before, so a run of 2^64 steps passes through
//! every state once.
//!
//! The proof works with `M^n` and `S(n) = 1 + M + ... + M^(n−1)`, where `n` steps
//! from `s` give `M^n·s + I·S(n)` modulo 2^64. With `n = 2^a·b`, `b` odd, and
//! `M ≡ 1 (mod 4)`, `S(n)` is `2^a` times an odd number while `M^n − 1` is a
//! multiple of `2^(a+2)`; the increment `I` is odd, so the distance from `s` after
//! `n` steps is `2^a` times an odd number, a multiple of 2^64 exactly when
//! `a ≥ 64`.
use vstd::prelude::*;
use vstd::arithmetic::power2::{pow2, lemma_pow2_adds, lemma_pow2_pos, lemma_pow2_unfold, lemma2_to64};
use vstd::set_lib::{set_int_range, lemma_int_range, lemma_map_size, lemma_subset_equality, FiniteRange};
use crate::lcg::{lcg_step, output_of, lemma_output_preimage, state_modulus, FRACTION_SCALE, LCG_INCREMENT, LCG_MULTIPLIER};

verus! {

/// The state after `n` steps from `s`.
pub open spec fn lcg_iterate(s: u64, n: nat) -> u64
    decreases n,
{
    if n == 0 {
        s
    } else {
        lcg_step(lcg_iterate(s, (n - 1) as nat))
    }
}

/// `M^n`.
spec fn mpow(n: nat) -> int
    decreases n,
{
    if n == 0 {
        1
    } else {
        LCG_MULTIPLIER as int * mpow((n - 1) as nat)
    }
}

/// `1 + M + ... + M^(n−1)`.
spec fn msum(n: nat) -> int
    decreases n,
{
    if n == 0 {
        0
    } else {
        LCG_MULTIPLIER as int * msum((n - 1) as nat) + 1
    }
}

proof fn lemma_closed_form(s: u64, n: nat)
    ensures
        lcg_iterate(s, n) as int == (mpow(n) * s + LCG_INCREMENT as int * msum(n)) % state_modulus() as int,
    decreases n,
{
    let r = state_modulus() as int;
    let m = LCG_MULTIPLIER as int;
    let inc = LCG_INCREMENT as int;
    if n == 0 {
        vstd::arithmetic::div_mod::lemma_small_mod(s as nat, r as nat);
    } else {
        let k = (n - 1) as nat;
        lemma_closed_form(s, k);
        let c = mpow(k) * s + inc * msum(k);
        let x = lcg_iterate(s, k) as int;
        reveal(lcg_step);
        assert(lcg_iterate(s, n) as int == (x * m + inc) % r);
        vstd::arithmetic::div_mod::lemma_mul_mod_noop_left(c, m, r);
        vstd::arithmetic::div_mod::lemma_add_mod_noop(x * m, inc, r);
        vstd::arithmetic::div_mod::lemma_add_mod_noop(c * m, inc, r);
        vstd::arithmetic::div_mod::lemma_mod_twice(c * m, r);
        assert((x * m) % r == (c * m) % r);
        assert(c * m + inc == mpow(n) * s + inc * msum(n)) by (nonlinear_arith)
            requires
                c == mpow(k) * s + inc * msum(k),
                mpow(n) == m * mpow(k),
                msum(n) == m * msum(k) + 1,
        ;
    }
}

proof fn lemma_sum_step(k: nat)
    ensures
        msum(k + 1) == msum(k) + mpow(k),
    decreases k,
{
    let m = LCG_MULTIPLIER as int;
    if k > 0 {
        let j = (k - 1) as nat;
        lemma_sum_step(j);
        assert(msum(k + 1) == m * msum(k) + 1);
        assert(m * msum(k) + 1 == m * (msum(j) + mpow(j)) + 1);
        assert(m * (msum(j) + mpow(j)) == m * msum(j) + m * mpow(j)) by (nonlinear_arith);
    }
}

proof fn lemma_adds(a: nat, n: nat)
    ensures
        mpow(a + n) == mpow(a) * mpow(n),
        msum(a + n) == msum(a) + mpow(a) * msum(n),
    decreases n,
{
    let m = LCG_MULTIPLIER as int;
    if n > 0 {
        let j = (n - 1) as nat;
        lemma_adds(a, j);
        lemma_sum_step(a + j);
        lemma_sum_step(j);
        assert(mpow(a + n) == m * mpow(a + j));
        assert(mpow(a + n) == mpow(a) * mpow(n)) by (nonlinear_arith)
            requires
                mpow(a + n) == m * mpow(a + j),
                mpow(a + j) == mpow(a) * mpow(j),
                mpow(n) == m * mpow(j),
        ;
        assert(msum(a + n) == msum(a) + mpow(a) * msum(n)) by (nonlinear_arith)
            requires
                msum(a + n) == msum(a + j) + mpow(a + j),
                msum(a + j) == msum(a) + mpow(a) * msum(j),
                mpow(a + j) == mpow(a) * mpow(j),
                msum(n) == msum(j) + mpow(j),
        ;
    }
}

proof fn lemma_residues(n: nat)
    ensures
        msum(n) % 2 == n % 2,
        mpow(n) % 4 == 1,
    decreases n,
{
    let m = LCG_MULTIPLIER as int;
    if n > 0 {
        let j = (n - 1) as nat;
        lemma_residues(j);
        let q4: int = 1591034055961698251;
        assert(m == 4 * q4 + 1);
        assert(mpow(n) == 4 * (q4 * mpow(j)) + mpow(j)) by (nonlinear_arith)
            requires
                mpow(n) == m * mpow(j),
                m == 4 * q4 + 1,
        ;
        vstd::arithmetic::div_mod::lemma_mod_multiples_vanish(q4 * mpow(j), mpow(j), 4);
        assert(msum(n) == 2 * (2 * q4 * msum(j)) + (msum(j) + 1)) by (nonlinear_arith)
            requires
                msum(n) == m * msum(j) + 1,
                m == 4 * q4 + 1,
        ;
        vstd::arithmetic::div_mod::lemma_mod_multiples_vanish(2 * q4 * msum(j), msum(j) + 1, 2);
    }
}

proof fn lemma_two_adic(a: nat, b: nat) -> (uc: (int, int))
    requires
        b % 2 == 1,
    ensures
        msum(pow2(a) * b) == pow2(a) * uc.0,
        uc.0 % 2 == 1,
        mpow(pow2(a) * b) - 1 == pow2(a + 2) * uc.1,
    decreases a,
{
    lemma2_to64();
    if a == 0 {
        lemma_residues(b);
        let c = (mpow(b) - 1) / 4;
        vstd::arithmetic::div_mod::lemma_fundamental_div_mod(mpow(b), 4);
        assert(mpow(b) - 1 == 4 * c);
        (msum(b), c)
    } else {
        let a0 = (a - 1) as nat;
        let (u, c) = lemma_two_adic(a0, b);
        let p = pow2(a0);
        let n = p * b;
        lemma_pow2_unfold(a);
        lemma_pow2_unfold(a + 1);
        lemma_pow2_unfold(a + 2);
        lemma_pow2_pos(a0);
        assert(pow2(a) * b == n + n) by (nonlinear_arith)
            requires
                pow2(a) == 2 * p,
                n == p * b,
        ;
        lemma_adds(n, n);
        // 1 + M^n = 2·(1 + 2^(a+1)·c), and 2^(a+1) = 2·p.
        assert(pow2(a0 + 1) == 2 * p);
        assert(pow2(a0 + 2) == 4 * p);
        let e = 1 + 2 * p * c;
        assert(mpow(n) + 1 == 2 * e) by (nonlinear_arith)
            requires
                mpow(n) - 1 == pow2(a0 + 2) * c,
                pow2(a0 + 2) == 4 * p,
                e == 1 + 2 * p * c,
        ;
        let u2 = u * e;
        assert(u2 == 2 * (p * c * u) + u) by (nonlinear_arith)
            requires
                u2 == u * e,
                e == 1 + 2 * p * c,
        ;
        vstd::arithmetic::div_mod::lemma_mod_multiples_vanish(p * c * u, u, 2);
        assert(msum(n + n) == pow2(a) * u2) by (nonlinear_arith)
            requires
                msum(n + n) == msum(n) + mpow(n) * msum(n),
                msum(n) == p * u,
                mpow(n) + 1 == 2 * e,
                pow2(a) == 2 * p,
                u2 == u * e,
        ;
        let c2 = c * e;
        assert(mpow(n + n) - 1 == pow2(a + 2) * c2) by (nonlinear_arith)
            requires
                mpow(n + n) == mpow(n) * mpow(n),
                mpow(n) - 1 == pow2(a0 + 2) * c,
                mpow(n) + 1 == 2 * e,
                pow2(a + 2) == 2 * pow2(a0 + 2),
                c2 == c * e,
        ;
        (u2, c2)
    }
}

proof fn lemma_decompose(n: nat) -> (ab: (nat, nat))
    requires
        n >= 1,
    ensures
        n == pow2(ab.0) * ab.1,
        ab.1 % 2 == 1,
    decreases n,
{
    lemma2_to64();
    if n % 2 == 1 {
        assert(pow2(0) == 1);
        assert(n == pow2(0) * n);
        (0, n)
    } else {
        let h = n / 2;
        assert(n == 2 * h);
        let (a, b) = lemma_decompose(h);
        lemma_pow2_unfold(a + 1);
        assert(n == pow2(a + 1) * b) by (nonlinear_arith)
            requires
                n == 2 * h,
                h == pow2(a) * b,
                pow2(a + 1) == 2 * pow2(a),
        ;
        (a + 1, b)
    }
}

/// Full period: `n > 0` steps from any state lead back to it exactly when `n` is
/// a multiple of 2^64.
pub proof fn lemma_full_period(s: u64, n: nat)
    requires
        n > 0,
    ensures
        (lcg_iterate(s, n) == s) <==> (n % state_modulus() == 0),
{
    let r = state_modulus() as int;
    let m = LCG_MULTIPLIER as int;
    let inc = LCG_INCREMENT as int;
    lemma2_to64();
    assert(pow2(64) == r);
    let (a, b) = lemma_decompose(n);
    let (u, c) = lemma_two_adic(a, b);
    lemma_closed_form(s, n);
    lemma_pow2_pos(a);
    lemma_pow2_adds(a, 2);
    assert(pow2(a + 2) == 4 * pow2(a));
    let p = pow2(a) as int;
    let w = 4 * c * s + inc * u;
    let d = (mpow(n) * s + inc * msum(n)) - s;
    assert(d == p * w) by (nonlinear_arith)
        requires
            mpow(n) - 1 == 4 * p * c,
            msum(n) == p * u,
            d == (mpow(n) * s + inc * msum(n)) - s,
            w == 4 * c * s + inc * u,
    ;
    let i2: int = 721347520444481703;
    assert(inc == 2 * i2 + 1);
    assert(w == 2 * (2 * c * s + i2 * u + (u - 1) / 2) + 1) by (nonlinear_arith)
        requires
            w == 4 * c * s + inc * u,
            inc == 2 * i2 + 1,
            u % 2 == 1,
            u == 2 * ((u - 1) / 2) + 1,
    {
        vstd::arithmetic::div_mod::lemma_fundamental_div_mod(u, 2);
    }
    // Back at `s` exactly when the distance `d` is a multiple of 2^64.
    vstd::arithmetic::div_mod::lemma_small_mod(s as nat, r as nat);
    let si = s as int;
    let ni = n as int;
    vstd::arithmetic::div_mod::lemma_sub_mod_noop(d + si, si, r);
    vstd::arithmetic::div_mod::lemma_add_mod_noop(d, si, r);
    vstd::arithmetic::div_mod::lemma_mod_twice(d, r);
    assert((lcg_iterate(s, n) == s) <==> (d % r == 0)) by {
        vstd::arithmetic::div_mod::lemma_mod_bound(d, r);
        if d % r == 0 {
            assert((d + si) % r == si);
        }
        if lcg_iterate(s, n) == s {
            assert(((d + si) % r - si % r) % r == 0);
        }
    }
    if a >= 64 {
        let rest = (a - 64) as nat;
        lemma_pow2_adds(64, rest);
        assert(pow2(a) == pow2(64) * pow2(rest));
        assert(d == r * (pow2(rest) * w)) by (nonlinear_arith)
            requires
                d == p * w,
                p == r * pow2(rest),
        ;
        vstd::arithmetic::div_mod::lemma_mod_multiples_vanish(pow2(rest) * w, 0, r);
        assert(n == r * (pow2(rest) * b)) by (nonlinear_arith)
            requires
                n == p * b,
                p == r * pow2(rest),
        ;
        vstd::arithmetic::div_mod::lemma_mod_multiples_vanish(pow2(rest) * b as int, 0, r);
    } else {
        let gap = (64 - a) as nat;
        lemma_pow2_adds(a, gap);
        assert(r == p * pow2(gap));
        lemma_pow2_unfold(gap);
        let h = pow2((gap - 1) as nat) as int;
        assert(r == p * (2 * h));
        if d % r == 0 {
            vstd::arithmetic::div_mod::lemma_fundamental_div_mod(d, r);
            let q = d / r;
            assert(p * w == p * (2 * h * q)) by (nonlinear_arith)
                requires
                    d == p * w,
                    d == r * q,
                    r == p * (2 * h),
            ;
            assert(w == 2 * (h * q)) by (nonlinear_arith)
                requires
                    p * w == p * (2 * h * q),
                    p > 0,
            ;
            vstd::arithmetic::div_mod::lemma_mod_multiples_vanish(h * q, 0, 2);
            vstd::arithmetic::div_mod::lemma_mod_multiples_vanish(
                2 * c * s + i2 * u + (u - 1) / 2,
                1,
                2,
            );
            assert(false);
        }
        if ni % r == 0 {
            vstd::arithmetic::div_mod::lemma_fundamental_div_mod(ni, r);
            let q = ni / r;
            assert(p * b == p * (2 * h * q)) by (nonlinear_arith)
                requires
                    n == p * b,
                    n == r * q,
                    r == p * (2 * h),
            ;
            assert(b == 2 * (h * q)) by (nonlinear_arith)
                requires
                    p * b == p * (2 * h * q),
                    p > 0,
            ;
            vstd::arithmetic::div_mod::lemma_mod_multiples_vanish(h * q, 0, 2);
            assert(false);
        }
    }
}

/// Stepping `i` times and then `k` times is stepping `i + k` times.
pub proof fn lemma_iterate_adds(s: u64, i: nat, k: nat)
    ensures
        lcg_iterate(s, i + k) == lcg_iterate(lcg_iterate(s, i), k),
    decreases k,
{
    if k > 0 {
        lemma_iterate_adds(s, i, (k - 1) as nat);
        assert(lcg_iterate(s, i + k) == lcg_step(lcg_iterate(s, (i + k - 1) as nat)));
    }
}

/// Within one period the generator never repeats a state: the states after `i`
/// and after `j` steps differ for `0 ≤ i < j < 2^64`, and after 2^64 steps it is
/// back where it started.
pub proof fn lemma_period_without_repeats(s: u64, i: nat, j: nat)
    requires
        i < j < state_modulus(),
    ensures
        lcg_iterate(s, i) != lcg_iterate(s, j),
        lcg_iterate(s, state_modulus()) == s,
{
    let k = (j - i) as nat;
    lemma_iterate_adds(s, i, k);
    lemma_full_period(lcg_iterate(s, i), k);
    vstd::arithmetic::div_mod::lemma_small_mod(k, state_modulus());
    lemma_full_period(s, state_modulus());
    vstd::arithmetic::div_mod::lemma_mod_self_0(state_modulus() as int);
}
/// The step counts of one period, `0 ≤ i < 2^64`.
pub open spec fn one_period() -> Set<int> {
    set_int_range(0, state_modulus() as int)
}

/// The state after `i` steps from `s`, for a step count given as an integer.
pub open spec fn state_after(s: u64) -> spec_fn(int) -> u64 {
    |i: int| lcg_iterate(s, i as nat)
}

proof fn lemma_u64_full_len()
    ensures
        Set::<u64>::full().finite(),
        Set::<u64>::full().len() == state_modulus(),
{
    <u64 as FiniteRange>::range_properties(0, u64::MAX);
    let below = <u64 as FiniteRange>::range_set(0, u64::MAX);
    assert(Set::<u64>::full() =~= below.insert(u64::MAX));
    assert(!below.contains(u64::MAX));
}

proof fn lemma_period_image(s: u64)
    ensures
        one_period().finite(),
        one_period().len() == state_modulus(),
        vstd::relations::injective_on(state_after(s), one_period()),
        one_period().map(state_after(s)) == Set::<u64>::full(),
{
    let r = state_modulus() as int;
    lemma_int_range(0, r);
    let f = state_after(s);
    assert forall|i: int, j: int| one_period().contains(i) && one_period().contains(j) && #[trigger] f(i)
        == #[trigger] f(j) implies i == j by {
        if i < j {
            lemma_period_without_repeats(s, i as nat, j as nat);
        } else if j < i {
            lemma_period_without_repeats(s, j as nat, i as nat);
        }
    }
    let y = one_period().map(f);
    lemma_map_size(one_period(), y, f);
    lemma_u64_full_len();
    lemma_subset_equality(y, Set::<u64>::full());
}

/// Every state is reached within one period: from any state `s`, each state `t`
/// is the state after some number of steps below 2^64.
pub proof fn lemma_every_state_reached(s: u64, t: u64)
    ensures
        exists|i: nat| i < state_modulus() && #[trigger] lcg_iterate(s, i) == t,
{
    lemma_period_image(s);
    assert(Set::<u64>::full().contains(t));
    assert(one_period().map(state_after(s)).contains(t));
    let i = choose|i: int| one_period().contains(i) && state_after(s)(i) == t;
    assert(lcg_iterate(s, i as nat) == t);
}

/// The step counts within one period after which a generator started at `s`
/// hands out `k` (the output of the step into that state).
pub open spec fn period_hits(s: u64, k: u64) -> Set<int> {
    one_period().filter(|i: int| output_of(lcg_iterate(s, i as nat)) == k)
}

/// The states whose output is `k`.
pub open spec fn states_with_output(k: u64) -> Set<u64> {
    Set::<u64>::full().filter(|t: u64| output_of(t) == k)
}

/// Uniform output: over one period, every value `k` below 2^53 is handed out by
/// exactly 2^11 of the 2^64 states passed through, so each fraction `k / 2^53`
/// comes up equally often.
pub proof fn lemma_uniform_output(s: u64, k: u64)
    requires
        k < FRACTION_SCALE,
    ensures
        period_hits(s, k).finite(),
        period_hits(s, k).len() == 2048,
{
    lemma_period_image(s);
    let f = state_after(s);
    let hits = period_hits(s, k);
    let targets = states_with_output(k);
    // The states with output `k` are exactly `k·2^11 + j` for `j < 2^11`.
    assert(k * 2048 + 2048 <= u64::MAX + 1);
    let g = |j: int| (k * 2048 + j) as u64;
    let offsets = set_int_range(0, 2048);
    lemma_int_range(0, 2048);
    let block = offsets.map(g);
    assert forall|i: int, j: int| offsets.contains(i) && offsets.contains(j) && #[trigger] g(i)
        == #[trigger] g(j) implies i == j by {}
    lemma_map_size(offsets, block, g);
    assert forall|t: u64| targets.contains(t) <==> block.contains(t) by {
        lemma_output_preimage(t, k, 0);
        if targets.contains(t) {
            let j = t - k * 2048;
            assert(offsets.contains(j) && g(j) == t);
        }
        if block.contains(t) {
            let j = choose|j: int| offsets.contains(j) && g(j) == t;
            lemma_output_preimage(t, k, j as u64);
        }
    }
    assert(targets =~= block);
    // `f` maps the hits one to one onto those states.
    assert forall|t: u64| hits.map(f).contains(t) <==> targets.contains(t) by {
        if targets.contains(t) {
            assert(one_period().map(f).contains(t));
            let i = choose|i: int| one_period().contains(i) && f(i) == t;
            assert(hits.contains(i));
        }
    }
    assert(hits.map(f) =~= targets);
    vstd::set_lib::lemma_set_subset_finite(one_period(), hits);
    lemma_map_size(hits, targets, f);
}
} // verus!
