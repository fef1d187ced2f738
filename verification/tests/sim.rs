use farkle::sim::run_simulation;
use farkle::sim::sat_add_u64;
use farkle::sim::Farkle;
use farkle::sim::play_game;
use farkle::sim::play_turn;

#[test]
fn saturating_addition() {
    assert_eq!(sat_add_u64(2, 3), 5);
    assert_eq!(sat_add_u64(u64::MAX, 1), u64::MAX);
    assert_eq!(sat_add_u64(u64::MAX - 1, 1), u64::MAX);
    assert_eq!(sat_add_u64(0, 0), 0);
}

#[test]
fn a_roll_stays_in_bounds() {
    for dice in 1..7 {
        let farkle = Farkle { dice_to_roll: dice };
        for _ in 0..200 {
            let (score, _special, reroll) = farkle.roll();
            assert!(score <= 3000);
            assert!(reroll <= 6);
        }
    }
}

#[test]
fn a_turn_makes_at_least_one_roll() {
    for _ in 0..100 {
        let (gain, rolls) = play_turn(1_000_000);
        assert!(rolls >= 1);
        assert!(rolls <= 1_000_000);
        assert!(gain as u128 <= 3000 * rolls as u128);
    }
}

#[test]
fn a_game_reaches_the_threshold() {
    for _ in 0..20 {
        let (score, rolls) = play_game(u64::MAX);
        assert!(score >= 10000);
        assert!(rolls >= 1);
        assert!(score as u128 <= 3000 * rolls as u128);
    }
}

#[test]
fn no_games_no_rolls() {
    assert_eq!(run_simulation(0, 1), (0, 0));
}

#[test]
fn simulation_totals_are_consistent() {
    let (total_score, total_rolls) = run_simulation(50, u64::MAX);
    // every game reaches at least 10000 and makes at least one roll
    assert!(total_score >= 50 * 10000);
    assert!(total_rolls >= 50);
    assert!(total_score as u128 <= 3000 * total_rolls as u128);
}

#[test]
fn average_score_per_roll_is_stable() {
    // two independent runs agree within Monte Carlo noise
    let (score_a, rolls_a) = run_simulation(4000, u64::MAX);
    let (score_b, rolls_b) = run_simulation(4000, u64::MAX);
    let avg_a = score_a as f64 / rolls_a as f64;
    let avg_b = score_b as f64 / rolls_b as f64;
    assert!(avg_a > 0.0);
    assert!(avg_b > 0.0);
    let diff = (avg_a - avg_b).abs();
    assert!(diff < 0.05 * avg_a, "averages drifted: {avg_a} vs {avg_b}");
}
