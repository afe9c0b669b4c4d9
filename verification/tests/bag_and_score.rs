use rand_core::SeedableRng;
use tetris_core::piece_order::{fisher_yates_shuffle, PieceOrder};
use tetris_core::piece_types::PieceType;
use tetris_core::score::Score;

fn type_index(t: PieceType) -> usize {
    match t {
        PieceType::O => 0,
        PieceType::J => 1,
        PieceType::L => 2,
        PieceType::S => 3,
        PieceType::T => 4,
        PieceType::Z => 5,
        PieceType::I => 6,
    }
}

#[test]
fn bag_dispenses_each_type_exactly_once() {
    for seed in 0u64..20 {
        let mut rng = rand_chacha::ChaCha8Rng::seed_from_u64(seed);
        let mut bag = PieceOrder::new(&mut rng);
        let mut seen = [0usize; 7];
        for _ in 0..7 {
            assert!(!bag.is_finished());
            let t = bag.next_piece().expect("bag held seven pieces");
            seen[type_index(t)] += 1;
        }
        assert_eq!(seen, [1, 1, 1, 1, 1, 1, 1], "seed {}", seed);
        assert!(bag.is_finished());
    }
}

#[test]
fn exhausted_bag_yields_none_until_replaced() {
    let mut rng = rand_chacha::ChaCha8Rng::seed_from_u64(7);
    let mut bag = PieceOrder::new(&mut rng);
    for _ in 0..7 {
        bag.next_piece();
    }
    assert!(bag.is_finished());
    assert!(bag.next_piece().is_none());
    // an eighth piece comes only from a fresh bag
    let mut fresh = PieceOrder::new(&mut rng);
    assert!(!fresh.is_finished());
    assert!(fresh.next_piece().is_some());
}

#[test]
fn shuffle_keeps_the_entries() {
    let mut rng = rand_chacha::ChaCha8Rng::seed_from_u64(42);
    let mut items: Vec<u32> = vec![10, 20, 30, 40, 50];
    fisher_yates_shuffle(&mut items, &mut rng);
    assert_eq!(items.len(), 5);
    let mut sorted = items.clone();
    sorted.sort();
    assert_eq!(sorted, vec![10, 20, 30, 40, 50]);
}

#[test]
fn score_level_and_speed_curve() {
    let cases = [
        (0u32, 0u32, 1.0f64),
        (5, 1, 0.75),
        (12, 2, 0.5625),
    ];
    for (points, level, speed) in cases.iter() {
        let s = Score { score: *points };
        assert_eq!(s.level(), *level);
        let (num, den) = s.speed_fraction().expect("small level");
        assert_eq!(num as f64 / den as f64, *speed);
    }
}

#[test]
fn speed_fraction_is_exact_power() {
    let s = Score { score: 15 }; // level 3
    assert_eq!(s.speed_fraction(), Some((27, 64)));
    let s = Score { score: 5 * 31 }; // the largest level that fits
    let (num, den) = s.speed_fraction().expect("level 31 fits");
    assert_eq!(num, 617673396283947); // 3 ^ 31
    assert_eq!(den, 4611686018427387904); // 4 ^ 31
    let s = Score { score: 5 * 32 };
    assert!(s.speed_fraction().is_none());
}
