use lib::ac606::clap::Random as ClapRandom;
use lib::ac606::Random;
use lib::ch606::{HitPair, HitSelector};
use lib::dsp::{pink_advance, pink_row, NoiseColor, WhiteNoise};
use lib::rng::xorshift32_step;

#[test]
fn xorshift_step_known_values() {
    assert_eq!(xorshift32_step(1), 0x0004_2021);
    assert_eq!(xorshift32_step(0x0004_2021), 0x0408_0601);
    assert_eq!(xorshift32_step(0x1234_5678), 0x8798_5aa5);
    assert_eq!(xorshift32_step(0), 0);
}

#[test]
fn ac_random_zero_seed_uses_fallback_stream() {
    let mut r = Random::new(0);
    assert_eq!(r.next(), 0x8798_5aa5);
    assert_eq!(r.next(), 0x155b_24a3);
}

#[test]
fn ac_random_reseed_restarts_the_stream() {
    let mut r = Random::new(7);
    let first = r.next();
    let _ = r.next();
    r.seed(7);
    assert_eq!(r.next(), first);
    let mut fresh = Random::new(0x1234_5678);
    let mut zero = Random::new(0);
    assert_eq!(fresh.next(), zero.next());
}

#[test]
fn ac_random_same_seed_same_stream() {
    let mut a = Random::new(0xDEAD_BEEF);
    let mut b = Random::new(0xDEAD_BEEF);
    for _ in 0..100 {
        let x = a.next();
        assert_eq!(x, b.next());
        assert_ne!(x, 0);
    }
}

#[test]
fn clap_random_top_24_bits() {
    let mut r = ClapRandom::new(0);
    assert_eq!(r.next_bits24(), 4_239_047);
    assert_eq!(r.next_bits24(), 9_560_076);
    for _ in 0..1000 {
        assert!(r.next_bits24() < (1 << 24));
    }
}

#[test]
fn white_noise_zero_seed_is_raised_to_one() {
    let mut n = WhiteNoise::new(0);
    assert_eq!(n.next_state(), 0x0004_2021);
    assert_eq!(n.next_state(), 0x0408_0601);
    n.reseed(1);
    assert_eq!(n.next_state(), 0x0004_2021);
}

#[test]
fn white_noise_state_never_zero() {
    let mut n = WhiteNoise::new(0x8000_0000);
    for _ in 0..10_000 {
        assert_ne!(n.next_state(), 0);
    }
}

#[test]
fn noise_color_codes() {
    assert_eq!(NoiseColor::from_type(0), NoiseColor::White);
    assert_eq!(NoiseColor::from_type(1), NoiseColor::Pink);
    assert_eq!(NoiseColor::from_type(2), NoiseColor::Brown);
    assert_eq!(NoiseColor::from_type(3), NoiseColor::Blue);
    assert_eq!(NoiseColor::from_type(4), NoiseColor::White);
    assert_eq!(NoiseColor::from_type(255), NoiseColor::White);
}

#[test]
fn pink_rows_follow_trailing_zeros() {
    assert_eq!(pink_row(0), 7);
    assert_eq!(pink_row(1), 0);
    assert_eq!(pink_row(2), 1);
    assert_eq!(pink_row(12), 2);
    assert_eq!(pink_row(64), 6);
    assert_eq!(pink_row(128), 7);
    assert_eq!(pink_row(255), 0);
    let mut counts = [0usize; 8];
    let mut idx: u8 = 0;
    for _ in 0..256 {
        counts[pink_row(idx)] += 1;
        idx = pink_advance(idx);
    }
    assert_eq!(idx, 0);
    assert_eq!(counts, [128, 64, 32, 16, 8, 4, 2, 2]);
}

#[test]
fn analog_mode_never_repeats_the_same_hit_twice() {
    let mut sel = HitSelector::new();
    let mut prev = usize::MAX;
    for _ in 0..64 {
        let p = sel.select(true, 1, false);
        assert_ne!(p.left, prev, "analog mode repeated a hit immediately");
        assert!(p.left < 8);
        prev = p.left;
    }
}

#[test]
fn analog_hit_stream_from_a_new_voice() {
    let mut sel = HitSelector::new();
    let picks: Vec<usize> = (0..10).map(|_| sel.select(true, 1, false).left).collect();
    assert_eq!(picks, vec![6, 5, 0, 4, 5, 0, 5, 3, 6, 0]);
}

#[test]
fn fixed_mode_picks_the_selected_hit() {
    let mut sel = HitSelector::new();
    for _ in 0..5 {
        assert_eq!(sel.select(false, 3, false).left, 2);
    }
    assert_eq!(sel.select(false, 0, false).left, 0);
    assert_eq!(sel.select(false, 8, false).left, 7);
    assert_eq!(sel.select(false, 99, false).left, 7);
}

#[test]
fn stereo_pair_plays_even_then_odd_hit() {
    let mut sel = HitSelector::new();
    assert_eq!(sel.select(false, 3, true), HitPair { left: 2, right: 3 });
    assert_eq!(sel.select(false, 4, true), HitPair { left: 2, right: 3 });
    assert_eq!(sel.select(false, 8, true), HitPair { left: 6, right: 7 });
    for _ in 0..64 {
        let p = sel.select(true, 1, true);
        assert_eq!(p.left % 2, 0);
        assert_eq!(p.right, p.left + 1);
    }
}

#[test]
fn mono_select_keeps_the_right_hit() {
    let mut sel = HitSelector::new();
    assert_eq!(sel.select(false, 5, false), HitPair { left: 4, right: 1 });
    assert_eq!(sel.select(false, 5, true), HitPair { left: 4, right: 5 });
    assert_eq!(sel.select(false, 1, false), HitPair { left: 0, right: 5 });
}

#[test]
fn next_random_hit_avoids_the_last_hit() {
    let mut sel = HitSelector::new();
    // The first draw from the fresh voice lands on 6; last hit is still 0.
    assert_eq!(sel.next_random_hit(), 6);
    // Playing hit 5 makes a draw that would land on 5 move to 6.
    sel.select(false, 6, false);
    for _ in 0..200 {
        assert_ne!(sel.next_random_hit(), 5);
    }
}
