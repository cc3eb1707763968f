use sknk::{init_rand, next_rand, txs16, update_rand, xorshift16};

#[test]
fn xorshift16_known_values() {
    assert_eq!(xorshift16(0), 0);
    assert_eq!(xorshift16(1), 33153);
    assert_eq!(xorshift16(44257), 54031);
}

#[test]
fn txs16_known_values() {
    assert_eq!(txs16(0), 0);
    assert_eq!(txs16(1), 59801);
    assert_eq!(txs16(12345), 16364);
    assert_eq!(txs16(7), 3133);
}

#[test]
fn next_rand_is_triple_mix() {
    assert_eq!(next_rand(7), 3133);
    assert_eq!(next_rand(1), txs16(1));
}

#[test]
fn xorshift16_is_a_bijection() {
    // Exhaustive injectivity check over all 16-bit values: no two distinct
    // inputs map to the same output, so the map is a bijection.
    let mut seen = vec![false; 65536];
    for x in 0..=65535u16 {
        let y = xorshift16(x) as usize;
        assert!(!seen[y], "two inputs map to {}", y);
        seen[y] = true;
    }
}

#[test]
fn seed_fold_vector() {
    // seed = seed * 97 + word over [1, 2, 3, 4], then XOR with the triple
    // mix of each of the three noise draws.
    assert_eq!(
        init_rand(&[1, 2, 3, 4], 100, 200, 300),
        14282 ^ txs16(100) ^ txs16(200) ^ txs16(300)
    );
}

#[test]
fn end_to_end_state_sequence() {
    // Fixed test vector: seeding from a recorded memory window and three
    // recorded analog samples, then two remix steps with recorded noise,
    // reproduces this exact 16-bit state sequence.
    let s0 = init_rand(&[1, 2, 3, 4], 100, 200, 300);
    assert_eq!(s0, 27660);
    let s1 = update_rand(s0, 500);
    assert_eq!(s1, 10742);
    let s2 = update_rand(s1, 600);
    assert_eq!(s2, 18388);
}

#[test]
fn init_rand_empty_window() {
    assert_eq!(init_rand(&[], 0, 0, 0), 0);
}

#[test]
fn update_rand_folds_low_noise_bits_only() {
    // Only the low four bits of the mixed noise enter the state, so two
    // noise samples whose triple mixes agree on those bits remix alike.
    let a = update_rand(100, 0);
    let b = update_rand(100, 0);
    assert_eq!(a, b);
    assert_eq!(update_rand(100, 0), txs16(100 ^ (txs16(0) & 0x0f)));
}
