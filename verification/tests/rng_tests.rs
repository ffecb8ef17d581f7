use kittygame::rng::{GameRng, Rng};

const FIRST_DRAWS: [u64; 3] = [1927044742856111753, 18350566728609081220, 17084582724934462269];

#[test]
fn new_rng_first_draws() {
    let mut rng = Rng::new();
    assert_eq!(rng.next(), FIRST_DRAWS[0]);
    assert_eq!(rng.next(), FIRST_DRAWS[1]);
    assert_eq!(rng.next(), FIRST_DRAWS[2]);
}

#[test]
fn seeded_rng_skips_draws() {
    let mut rng = Rng::new_from_seed(2);
    assert_eq!(rng.next(), FIRST_DRAWS[2]);
    let mut unseeded = Rng::new_from_seed(0);
    assert_eq!(unseeded.next(), FIRST_DRAWS[0]);
}

#[test]
fn same_seed_same_stream() {
    let mut a = Rng::new_from_seed(17);
    let mut b = Rng::new_from_seed(17);
    for _ in 0..50 {
        assert_eq!(a.next(), b.next());
    }
}

#[test]
fn fixed_seed_streams_are_independent() {
    let mut rng = GameRng::FixedSeed(Rng::new(), Rng::new_from_seed(1));
    assert_eq!(rng.next_for_worldgen(), FIRST_DRAWS[0]);
    assert_eq!(rng.next_for_worldgen(), FIRST_DRAWS[1]);
    // the input stream was not touched by the world-generation draws
    assert_eq!(rng.next_for_input(), FIRST_DRAWS[1]);
    assert_eq!(rng.next_for_worldgen(), FIRST_DRAWS[2]);
}

#[test]
fn random_rng_shares_one_stream() {
    let mut rng = GameRng::Random(Rng::new());
    assert_eq!(rng.next_for_worldgen(), FIRST_DRAWS[0]);
    assert_eq!(rng.next_for_input(), FIRST_DRAWS[1]);
    assert_eq!(rng.next_for_worldgen(), FIRST_DRAWS[2]);
}

#[test]
fn input_draws_leave_worldgen_draws_alone() {
    let mut plain = GameRng::FixedSeed(Rng::new_from_seed(3), Rng::new_from_seed(0));
    let mut mixed = GameRng::FixedSeed(Rng::new_from_seed(3), Rng::new_from_seed(77));
    for k in 0..20u32 {
        for _ in 0..(k % 4) {
            mixed.next_for_input();
        }
        assert_eq!(plain.next_for_worldgen(), mixed.next_for_worldgen());
    }
}
