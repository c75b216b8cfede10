use mouse_cursor_mover::lcg::{
    Lcg, FRACTION_SCALE, LCG_INCREMENT, LCG_MULTIPLIER, LCG_MULTIPLIER_INVERSE, SEED_MIX,
};

fn reference_step(s: u64) -> u64 {
    ((s as u128 * LCG_MULTIPLIER as u128 + LCG_INCREMENT as u128) % (1u128 << 64)) as u64
}

#[test]
fn seed_from_zero_nanos_is_the_mix_constant() {
    assert_eq!(Lcg::from_clock_nanos(0).0, 0x517cc1b727220a95);
    assert_eq!(SEED_MIX, 0x517cc1b727220a95);
}

#[test]
fn seed_keeps_only_the_low_64_bits_of_the_reading() {
    let nanos: u128 = (7u128 << 64) | 0x1234;
    assert_eq!(Lcg::from_clock_nanos(nanos).0, 0x1234 ^ 0x517cc1b727220a95);
    assert_eq!(Lcg::from_clock_nanos(0x1234).0, Lcg::from_clock_nanos(nanos).0);
}

#[test]
fn step_follows_the_recurrence_and_hands_out_top_53_bits() {
    let mut g = Lcg(SEED_MIX);
    let mut s = SEED_MIX;
    for _ in 0..1000 {
        let bits = g.next_bits();
        s = reference_step(s);
        assert_eq!(g.0, s);
        assert_eq!(bits, s >> 11);
        assert!(bits < FRACTION_SCALE);
    }
}

#[test]
fn known_first_step_from_zero_state() {
    let mut g = Lcg(0);
    let bits = g.next_bits();
    assert_eq!(g.0, 1442695040888963407);
    assert_eq!(bits, 1442695040888963407 >> 11);
}

#[test]
fn top_state_gives_largest_fraction_below_one() {
    // A state whose successor is all ones hands out 2^53 - 1.
    // s * M + I == 2^64 - 1 (mod 2^64) for s = (2^64 - 1 - I) * M^-1.
    let mut inv: u64 = 1;
    for _ in 0..6 {
        inv = inv.wrapping_mul(2u64.wrapping_sub(LCG_MULTIPLIER.wrapping_mul(inv)));
    }
    assert_eq!(LCG_MULTIPLIER.wrapping_mul(inv), 1);
    let s = u64::MAX.wrapping_sub(LCG_INCREMENT).wrapping_mul(inv);
    let mut g = Lcg(s);
    let bits = g.next_bits();
    assert_eq!(g.0, u64::MAX);
    assert_eq!(bits, FRACTION_SCALE - 1);
    let fraction = bits as f64 / (1u64 << 53) as f64;
    assert!(fraction < 1.0);
}

#[test]
fn same_state_same_output() {
    let mut a = Lcg(42);
    let mut b = Lcg(42);
    for _ in 0..10 {
        assert_eq!(a.next_bits(), b.next_bits());
        assert_eq!(a.0, b.0);
    }
}

#[test]
fn seeded_generator_hands_out_fractions_below_one() {
    let mut g = Lcg::seeded();
    for _ in 0..100 {
        let bits = g.next_bits();
        assert!(bits < FRACTION_SCALE);
    }
}

#[test]
fn clock_before_epoch_seeds_with_zero_nanoseconds() {
    assert_eq!(Lcg::from_epoch_reading(None).0, 0x517cc1b727220a95);
    assert_eq!(Lcg::from_epoch_reading(Some(3)).0, 3 ^ 0x517cc1b727220a95);
}

#[test]
fn step_is_undone_by_the_inverse_multiplier() {
    assert_eq!(LCG_MULTIPLIER.wrapping_mul(LCG_MULTIPLIER_INVERSE), 1);
    for s in [0u64, 1, 42, u64::MAX, SEED_MIX] {
        let t = reference_step(s);
        let back = t.wrapping_sub(LCG_INCREMENT).wrapping_mul(LCG_MULTIPLIER_INVERSE);
        assert_eq!(back, s);
    }
}

#[test]
fn each_output_comes_from_a_block_of_2048_states() {
    // Step into each state of the block of output 12345 and check the output.
    for j in 0..2048u64 {
        let target = 12345 * 2048 + j;
        let s = target.wrapping_sub(LCG_INCREMENT).wrapping_mul(LCG_MULTIPLIER_INVERSE);
        let mut g = Lcg(s);
        assert_eq!(g.next_bits(), 12345);
    }
}

#[test]
fn low_bits_of_the_state_have_full_period() {
    // Reduced modulo 2^16 the generator runs through all 2^16 residues before
    // it repeats, as the full 64-bit state runs through all 2^64.
    let mut s: u64 = 0;
    let mut seen = vec![false; 1 << 16];
    for _ in 0..(1u32 << 16) {
        let low = (s & 0xffff) as usize;
        assert!(!seen[low]);
        seen[low] = true;
        s = reference_step(s);
    }
    assert_eq!(s & 0xffff, 0);
}
