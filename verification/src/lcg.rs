//! A minimal 64-bit linear congruential generator, seeded from the wall clock.
//!
//! Each step maps the state `s` to `s * LCG_MULTIPLIER + LCG_INCREMENT` modulo 2^64
//! and hands out the top 53 bits of the new state. Dividing those bits by 2^53 gives
//! a fraction in `[0, 1)` (that float division is done by the caller).
use vstd::prelude::*;
use std::time::{Duration, SystemTime};

verus! {

/// The constant mixed into the clock reading to form the first state.
pub const SEED_MIX: u64 = 0x517cc1b727220a95u64;

/// The multiplier of each step.
pub const LCG_MULTIPLIER: u64 = 6364136223846793005u64;

/// The increment of each step.
pub const LCG_INCREMENT: u64 = 1442695040888963407u64;

/// The multiplicative inverse of `LCG_MULTIPLIER` modulo 2^64.
pub const LCG_MULTIPLIER_INVERSE: u64 = 0xc097ef87329e28a5u64;

/// How many low bits of the state a step throws away.
pub const DROPPED_BITS: u64 = 11u64;

/// 2^53: every value `next_bits` hands out is below this bound.
pub const FRACTION_SCALE: u64 = 0x20_0000_0000_0000u64;

/// 2^64, the modulus of the state arithmetic.
pub open spec fn state_modulus() -> nat {
    0x1_0000_0000_0000_0000nat
}

/// The state that follows `s`.
#[verifier::opaque]
pub open spec fn lcg_step(s: u64) -> u64 {
    ((s as nat * LCG_MULTIPLIER as nat + LCG_INCREMENT as nat) % state_modulus()) as u64
}

/// The state that a step leads from to `t`: the inverse of `lcg_step`.
pub open spec fn lcg_unstep(t: u64) -> u64 {
    ((((t as int - LCG_INCREMENT as int) % state_modulus() as int) * LCG_MULTIPLIER_INVERSE as int)
        % state_modulus() as int) as u64
}

/// The value handed out by a step that leaves the generator in state `s`.
pub open spec fn output_of(s: u64) -> u64 {
    s >> DROPPED_BITS
}

/// The first state of a generator seeded with a clock reading of `nanos`
/// nanoseconds since the Unix epoch: the reading truncated to 64 bits, mixed.
pub open spec fn seed_state(nanos: u128) -> u64 {
    (nanos as u64) ^ SEED_MIX
}

/// The first state for a clock reading: `Some(n)` is `n` nanoseconds since the
/// Unix epoch; `None`, a clock before the epoch, counts as zero nanoseconds.
pub open spec fn reading_state(reading: Option<u128>) -> u64 {
    seed_state(
        match reading {
            Some(n) => n,
            None => 0,
        },
    )
}

/// The generator; its one field is the whole state.
pub struct Lcg(pub u64);

#[verifier::external_type_specification]
#[verifier::external_body]
pub struct ExSystemTime(SystemTime);

/// `std::time::SystemTime::now`: the current wall-clock time. Nothing is claimed
/// of the value, which depends on when the call is made.
#[verifier::external_body]
fn system_time_now() -> SystemTime {
    SystemTime::now()
}

/// `std::time::SystemTime::duration_since` with `UNIX_EPOCH` as the earlier time:
/// the time elapsed since the epoch, `None` where `t` lies before it. Nothing is
/// claimed of the returned duration: `SystemTime` has no view here.
#[verifier::external_body]
fn elapsed_since_unix_epoch(t: &SystemTime) -> Option<Duration> {
    match t.duration_since(std::time::UNIX_EPOCH) {
        Ok(d) => Some(d),
        Err(_) => None,
    }
}

/// `std::time::Duration::as_nanos`: the whole nanoseconds of `d`. Nothing is
/// claimed of the number, since `Duration` is opaque here.
#[verifier::external_body]
fn duration_as_nanos(d: &Duration) -> u128 {
    d.as_nanos()
}

proof fn lemma_wrapping_step(s: u64)
    ensures
        (s.wrapping_mul(LCG_MULTIPLIER)).wrapping_add(LCG_INCREMENT) == lcg_step(s),
{
    reveal(lcg_step);
    let p = (s as nat * LCG_MULTIPLIER as nat) % state_modulus();
    assert(s.wrapping_mul(LCG_MULTIPLIER) == p as u64);
    let r = s.wrapping_mul(LCG_MULTIPLIER);
    assert(r as nat == p);
    let total = s as nat * LCG_MULTIPLIER as nat + LCG_INCREMENT as nat;
    assert((p + LCG_INCREMENT as nat) % state_modulus() == total % state_modulus()) by {
        vstd::arithmetic::div_mod::lemma_add_mod_noop(
            (s as nat * LCG_MULTIPLIER as nat) as int,
            LCG_INCREMENT as int,
            state_modulus() as int,
        );
        vstd::arithmetic::div_mod::lemma_mod_twice(
            (s as nat * LCG_MULTIPLIER as nat) as int,
            state_modulus() as int,
        );
        vstd::arithmetic::div_mod::lemma_small_mod(LCG_INCREMENT as nat, state_modulus());
    }
    if p + LCG_INCREMENT as nat > u64::MAX {
        assert((p + LCG_INCREMENT as nat) % state_modulus() == p + LCG_INCREMENT as nat
            - state_modulus()) by {
            vstd::arithmetic::div_mod::lemma_fundamental_div_mod_converse(
                (p + LCG_INCREMENT as nat) as int,
                state_modulus() as int,
                1,
                (p + LCG_INCREMENT as nat - state_modulus()) as int,
            );
        }
    } else {
        vstd::arithmetic::div_mod::lemma_small_mod(p + LCG_INCREMENT as nat, state_modulus());
    }
}

impl Lcg {
    /// The generator that a clock reading of `nanos` nanoseconds since the Unix
    /// epoch seeds.
    pub fn from_clock_nanos(nanos: u128) -> (g: Lcg)
        ensures
            g.0 == seed_state(nanos),
    {
        #[verifier::truncate]
        let low: u64 = nanos as u64;
        Lcg(low ^ SEED_MIX)
    }

    /// The generator for a clock reading: `Some(n)` is `n` nanoseconds since the
    /// Unix epoch; `None` (a clock before the epoch) counts as zero nanoseconds.
    pub fn from_epoch_reading(reading: Option<u128>) -> (g: Lcg)
        ensures
            g.0 == reading_state(reading),
    {
        let nanos: u128 = match reading {
            Some(n) => n,
            None => 0,
        };
        Lcg::from_clock_nanos(nanos)
    }

    /// Seed from the current wall-clock nanoseconds (zero nanoseconds when the
    /// clock reads a time before the Unix epoch). The reading itself depends on
    /// when the call is made; `from_epoch_reading` says what each reading gives.
    pub fn seeded() -> (g: Lcg)
        ensures
            exists|reading: Option<u128>| g.0 == #[trigger] reading_state(reading),
    {
        let now = system_time_now();
        let reading: Option<u128> = match elapsed_since_unix_epoch(&now) {
            Some(d) => Some(duration_as_nanos(&d)),
            None => None,
        };
        let g = Lcg::from_epoch_reading(reading);
        assert(g.0 == reading_state(reading));
        g
    }

    /// Advance the state by one step and hand out its top 53 bits, which the
    /// caller scales by `1 / 2^53` to a fraction in `[0, 1)`.
    pub fn next_bits(&mut self) -> (bits: u64)
        ensures
            final(self).0 == lcg_step(old(self).0),
            bits == output_of(final(self).0),
            bits < FRACTION_SCALE,
    {
        proof {
            lemma_wrapping_step(self.0);
        }
        self.0 = self.0.wrapping_mul(LCG_MULTIPLIER).wrapping_add(LCG_INCREMENT);
        let bits = self.0 >> 11u64;
        proof {
            lemma_output_below_scale(self.0);
        }
        bits
    }
}

proof fn lemma_inverse_cancels(x: int)
    ensures
        ((x % state_modulus() as int) * LCG_MULTIPLIER_INVERSE as int * LCG_MULTIPLIER as int)
            % state_modulus() as int == x % state_modulus() as int,
        ((x % state_modulus() as int) * LCG_MULTIPLIER as int * LCG_MULTIPLIER_INVERSE as int)
            % state_modulus() as int == x % state_modulus() as int,
{
    let r = state_modulus() as int;
    let y = x % r;
    let q: int = 4787856489426250814;
    assert(LCG_MULTIPLIER_INVERSE as int * LCG_MULTIPLIER as int == q * r + 1);
    assert(y * LCG_MULTIPLIER_INVERSE as int * LCG_MULTIPLIER as int == r * (y * q) + y)
        by (nonlinear_arith)
        requires
            LCG_MULTIPLIER_INVERSE as int * LCG_MULTIPLIER as int == q * r + 1,
    ;
    assert(y * LCG_MULTIPLIER as int * LCG_MULTIPLIER_INVERSE as int == r * (y * q) + y)
        by (nonlinear_arith)
        requires
            LCG_MULTIPLIER_INVERSE as int * LCG_MULTIPLIER as int == q * r + 1,
    ;
    vstd::arithmetic::div_mod::lemma_mod_multiples_vanish(y * q, y, r);
    vstd::arithmetic::div_mod::lemma_mod_twice(x, r);
}

/// The step is a bijection on states: `lcg_unstep` undoes it, and it undoes
/// `lcg_unstep`, so every state has exactly one predecessor and no two states
/// step to the same one.
pub proof fn lemma_step_bijective(s: u64, t: u64, a: u64, b: u64)
    ensures
        lcg_unstep(lcg_step(s)) == s,
        lcg_step(lcg_unstep(t)) == t,
        lcg_step(a) == lcg_step(b) ==> a == b,
{
    reveal(lcg_step);
    let r = state_modulus() as int;
    let m = LCG_MULTIPLIER as int;
    let inc = LCG_INCREMENT as int;
    let inv = LCG_MULTIPLIER_INVERSE as int;
    assert forall|v: u64| lcg_unstep(#[trigger] lcg_step(v)) == v by {
        let x = (v * m + inc) % r;
        assert(lcg_step(v) as int == x);
        vstd::arithmetic::div_mod::lemma_sub_mod_noop(v * m + inc, inc, r);
        vstd::arithmetic::div_mod::lemma_small_mod(inc as nat, r as nat);
        assert((x - inc) % r == (v * m) % r);
        vstd::arithmetic::div_mod::lemma_mul_mod_noop_left(v * m, inv, r);
        lemma_inverse_cancels(v as int);
        vstd::arithmetic::div_mod::lemma_small_mod(v as nat, r as nat);
        assert(((v * m) % r) * inv % r == (v * m) * inv % r);
        assert((v * m) * inv == ((v as int) % r) * m * inv);
    }
    let u = lcg_unstep(t);
    let d = (t - inc) % r;
    assert(u as int == (d * inv) % r);
    vstd::arithmetic::div_mod::lemma_mul_mod_noop_left(d * inv, m, r);
    lemma_inverse_cancels(t - inc);
    vstd::arithmetic::div_mod::lemma_mod_twice(t - inc, r);
    assert((u * m) % r == d);
    vstd::arithmetic::div_mod::lemma_add_mod_noop(u * m, inc, r);
    vstd::arithmetic::div_mod::lemma_small_mod(inc as nat, r as nat);
    vstd::arithmetic::div_mod::lemma_add_mod_noop(t - inc, inc, r);
    vstd::arithmetic::div_mod::lemma_small_mod(t as nat, r as nat);
    assert(lcg_step(u) as int == (u * m + inc) % r);
    assert(lcg_unstep(lcg_step(s)) == s);
    assert(lcg_unstep(lcg_step(a)) == a);
    assert(lcg_unstep(lcg_step(b)) == b);
}

/// Each value below 2^53 is handed out by exactly 2^11 states, the ones from
/// `k · 2^11` to `k · 2^11 + 2^11 − 1`: the value handed out is the state divided
/// by 2^11, rounded down. Since a step is a bijection, a run through every state
/// hands out each value equally often.
pub proof fn lemma_output_preimage(s: u64, k: u64, j: u64)
    requires
        k < FRACTION_SCALE,
        j < 2048,
    ensures
        output_of(s) == s / 2048,
        output_of((k * 2048 + j) as u64) == k,
        output_of(s) == k ==> k * 2048 <= s < k * 2048 + 2048,
{
    assert(s >> 11u64 == s / 2048) by (bit_vector);
    let t = (k * 2048 + j) as u64;
    assert(t as int == k * 2048 + j);
    assert(t >> 11u64 == t / 2048) by (bit_vector);
    vstd::arithmetic::div_mod::lemma_fundamental_div_mod_converse(t as int, 2048, k as int, j as int);
    vstd::arithmetic::div_mod::lemma_fundamental_div_mod(s as int, 2048);
}

/// Every value a generator hands out, scaled by `1 / 2^53`, lies in `[0, 1)`.
pub proof fn lemma_output_below_scale(s: u64)
    ensures
        output_of(s) < FRACTION_SCALE,
{
    assert(s >> 11u64 < 0x20_0000_0000_0000u64) by (bit_vector);
}

} // verus!
