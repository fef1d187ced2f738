use farkle::die::Die;
use farkle::scoring::ScoreHelper;
use farkle::scoring::Special;

fn score_hand(hand: Vec<Die>) -> (usize, Special, usize) {
    ScoreHelper::new(hand).score()
}

#[test]
fn straight_scores_1500() {
    let (score, special, reroll) =
        score_hand(vec![Die::One, Die::Two, Die::Three, Die::Four, Die::Five, Die::Six]);
    assert_eq!(score, 1500);
    assert_eq!(special, Special::Straight);
    assert_eq!(reroll, 0);
}

#[test]
fn straight_scores_1500_in_any_order() {
    let (score, special, reroll) =
        score_hand(vec![Die::Three, Die::One, Die::Six, Die::Two, Die::Five, Die::Four]);
    assert_eq!(score, 1500);
    assert_eq!(special, Special::Straight);
    assert_eq!(reroll, 0);
}

#[test]
fn two_triplets_score_2500() {
    let (score, special, reroll) =
        score_hand(vec![Die::Two, Die::Two, Die::Two, Die::Five, Die::Five, Die::Five]);
    assert_eq!(score, 2500);
    assert_eq!(special, Special::TwoTriplet);
    assert_eq!(reroll, 0);
}

#[test]
fn two_triplets_of_ones_and_sixes_score_2500() {
    let (score, special, reroll) =
        score_hand(vec![Die::One, Die::Six, Die::One, Die::Six, Die::One, Die::Six]);
    assert_eq!(score, 2500);
    assert_eq!(special, Special::TwoTriplet);
    assert_eq!(reroll, 0);
}

#[test]
fn three_pairs_score_1500() {
    let (score, special, reroll) =
        score_hand(vec![Die::One, Die::One, Die::Three, Die::Three, Die::Six, Die::Six]);
    assert_eq!(score, 1500);
    assert_eq!(special, Special::ThreePair);
    assert_eq!(reroll, 0);
}

#[test]
fn three_sixes_with_nonscoring_rest_score_600() {
    // faces 1 and 5 are empty, the three 6s are consumed: three slots cleared
    let (score, special, reroll) =
        score_hand(vec![Die::Two, Die::Three, Die::Four, Die::Six, Die::Six, Die::Six]);
    assert_eq!(score, 600);
    assert_eq!(special, Special::Nothing);
    assert_eq!(reroll, 3);
}

#[test]
fn four_ones_with_chaff_score_1000() {
    // the four 1s score as four of a kind; the 2 and 3 score nothing
    let (score, special, reroll) =
        score_hand(vec![Die::One, Die::One, Die::One, Die::One, Die::Two, Die::Three]);
    assert_eq!(score, 1000);
    assert_eq!(special, Special::Nothing);
    assert_eq!(reroll, 4);
}

#[test]
fn six_twos_score_3000() {
    // additive scoring consumes all six dice, so every face slot is cleared
    let (score, special, reroll) =
        score_hand(vec![Die::Two, Die::Two, Die::Two, Die::Two, Die::Two, Die::Two]);
    assert_eq!(score, 3000);
    assert_eq!(special, Special::Nothing);
    assert_eq!(reroll, 6);
}

#[test]
fn bust_hand_scores_0() {
    let (score, special, reroll) = score_hand(vec![Die::Two, Die::Three, Die::Four, Die::Six]);
    assert_eq!(score, 0);
    assert_eq!(special, Special::Nothing);
    assert_eq!(reroll, 2);
}

#[test]
fn single_five_scores_50() {
    let (score, special, reroll) = score_hand(vec![Die::Five]);
    assert_eq!(score, 50);
    assert_eq!(special, Special::Nothing);
    assert_eq!(reroll, 6);
}

#[test]
fn single_one_scores_100() {
    let (score, special, reroll) = score_hand(vec![Die::One]);
    assert_eq!(score, 100);
    assert_eq!(special, Special::Nothing);
    assert_eq!(reroll, 6);
}

#[test]
fn single_nonscoring_die_scores_0() {
    let (score, special, reroll) = score_hand(vec![Die::Two]);
    assert_eq!(score, 0);
    assert_eq!(special, Special::Nothing);
    assert_eq!(reroll, 5);
}

#[test]
fn triplet_of_fives_with_chaff() {
    let (score, special, reroll) = score_hand(vec![Die::Five, Die::Five, Die::Five, Die::Two]);
    assert_eq!(score, 500);
    assert_eq!(special, Special::Nothing);
    assert_eq!(reroll, 5);
}

#[test]
fn ones_and_fives_add_up() {
    let (score, special, reroll) =
        score_hand(vec![Die::One, Die::Five, Die::Five, Die::Two, Die::Three]);
    assert_eq!(score, 200);
    assert_eq!(special, Special::Nothing);
    assert_eq!(reroll, 4);
}

#[test]
fn three_ones_score_300() {
    let (score, special, reroll) = score_hand(vec![Die::One, Die::One, Die::One]);
    assert_eq!(score, 300);
    assert_eq!(special, Special::Nothing);
    assert_eq!(reroll, 6);
}

#[test]
fn five_of_a_kind_scores_2000() {
    let (score, special, reroll) =
        score_hand(vec![Die::Four, Die::Four, Die::Four, Die::Four, Die::Four, Die::Three]);
    assert_eq!(score, 2000);
    assert_eq!(special, Special::Nothing);
    assert_eq!(reroll, 5);
}

#[test]
fn x_of_a_kind_triplet_table() {
    assert_eq!(ScoreHelper::x_of_a_kind(3, Die::One), 300);
    assert_eq!(ScoreHelper::x_of_a_kind(3, Die::Two), 200);
    assert_eq!(ScoreHelper::x_of_a_kind(3, Die::Three), 300);
    assert_eq!(ScoreHelper::x_of_a_kind(3, Die::Four), 400);
    assert_eq!(ScoreHelper::x_of_a_kind(3, Die::Five), 500);
    assert_eq!(ScoreHelper::x_of_a_kind(3, Die::Six), 600);
}

#[test]
fn x_of_a_kind_higher_counts_ignore_the_face() {
    assert_eq!(ScoreHelper::x_of_a_kind(4, Die::Two), 1000);
    assert_eq!(ScoreHelper::x_of_a_kind(4, Die::Six), 1000);
    assert_eq!(ScoreHelper::x_of_a_kind(5, Die::One), 2000);
    assert_eq!(ScoreHelper::x_of_a_kind(5, Die::Three), 2000);
    assert_eq!(ScoreHelper::x_of_a_kind(6, Die::Five), 3000);
    assert_eq!(ScoreHelper::x_of_a_kind(6, Die::Four), 3000);
}

#[test]
fn two_pairs_are_not_three_pairs() {
    // two pairs plus chaff: only the priority patterns clear the whole hand
    let (score, special, reroll) =
        score_hand(vec![Die::Two, Die::Two, Die::Three, Die::Three, Die::Four, Die::Six]);
    assert_eq!(score, 0);
    assert_eq!(special, Special::Nothing);
    assert_eq!(reroll, 2);
}

#[test]
fn triplet_beats_pair_counting() {
    // a triplet and a pair of 5s: no whole-hand pattern, additive scoring
    let (score, special, reroll) =
        score_hand(vec![Die::Six, Die::Six, Die::Six, Die::Five, Die::Five, Die::Two]);
    assert_eq!(score, 700);
    assert_eq!(special, Special::Nothing);
    assert_eq!(reroll, 5);
}

#[test]
fn two_triplets_preempt_additive_scoring() {
    // three 1s and three 2s would score 500 additively; the pattern wins
    let (score, special, reroll) =
        score_hand(vec![Die::One, Die::One, Die::One, Die::Two, Die::Two, Die::Two]);
    assert_eq!(score, 2500);
    assert_eq!(special, Special::TwoTriplet);
    assert_eq!(reroll, 0);
}

#[test]
fn three_pairs_preempt_single_ones_and_fives() {
    // the pairs of 1s and 5s are not scored as singles
    let (score, special, reroll) =
        score_hand(vec![Die::One, Die::One, Die::Five, Die::Five, Die::Three, Die::Three]);
    assert_eq!(score, 1500);
    assert_eq!(special, Special::ThreePair);
    assert_eq!(reroll, 0);
}
