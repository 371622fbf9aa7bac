use dice_settle::outcome::{derive_outcome, outcome_from_digest, wins};

#[test]
fn outcome_of_zero_digest_is_one() {
    assert_eq!(outcome_from_digest(&[0u8; 32]), 1);
}

#[test]
fn outcome_reads_halves_big_endian() {
    let mut d = [0u8; 32];
    d[31] = 99;
    assert_eq!(outcome_from_digest(&d), 100);
    let mut d = [0u8; 32];
    d[15] = 42;
    assert_eq!(outcome_from_digest(&d), 43);
    let mut d = [0u8; 32];
    d[0] = 1;
    // 2^120 mod 100 == 76
    assert_eq!(outcome_from_digest(&d), 77);
}

#[test]
fn outcome_sum_wraps_modulo_u128() {
    let mut d = [0xffu8; 32];
    for b in d[16..31].iter_mut() {
        *b = 0;
    }
    d[31] = 1;
    // (2^128 - 1) + 1 wraps to 0
    assert_eq!(outcome_from_digest(&d), 1);
}

#[test]
fn outcome_hashes_the_signature() {
    assert_eq!(derive_outcome(b""), 14);
    assert_eq!(derive_outcome(b"abc"), 5);
    assert_eq!(derive_outcome(&[0u8; 64]), 87);
    let digest = solana_program::hash::hash(b"abc").to_bytes();
    assert_eq!(derive_outcome(b"abc"), outcome_from_digest(&digest));
}

#[test]
fn outcome_is_deterministic_and_in_range() {
    for i in 0u32..2000 {
        let sig = i.to_le_bytes();
        let a = derive_outcome(&sig);
        let b = derive_outcome(&sig);
        assert_eq!(a, b);
        assert!((1..=100).contains(&a));
    }
}

#[test]
fn outcome_is_roughly_uniform() {
    let n: usize = 20000;
    let mut counts = [0usize; 100];
    for i in 0..n {
        let sig = (i as u64).to_le_bytes();
        let o = derive_outcome(&sig);
        counts[(o - 1) as usize] += 1;
    }
    let expected = n as f64 / 100.0;
    let chi2: f64 = counts
        .iter()
        .map(|&c| {
            let d = c as f64 - expected;
            d * d / expected
        })
        .sum();
    // 99 degrees of freedom: the 0.999 quantile is about 148.2
    assert!(chi2 < 148.2, "chi-square {}", chi2);
}

#[test]
fn threshold_equal_to_outcome_loses() {
    assert!(!wins(50, 50));
    assert!(wins(51, 50));
    assert!(!wins(2, 100));
    assert!(wins(100, 99));
    assert!(!wins(100, 100));
}
