use vstd::prelude::*;

use crate::die::Die;
use crate::scoring::counts_of;
use crate::scoring::freq_total;
use crate::scoring::lemma_score_bounds;
use crate::scoring::spec_reroll;
use crate::scoring::spec_score;
use crate::scoring::spec_special;
use crate::scoring::ScoreHelper;
use crate::scoring::Special;

verus! {

/// `a + b`, saturating at `u64::MAX`.
pub open spec fn sat_add_spec(a: u64, b: u64) -> int {
    if a + b <= u64::MAX {
        a + b
    } else {
        u64::MAX as int
    }
}

/// Saturating addition on `u64`.
pub fn sat_add_u64(a: u64, b: u64) -> (r: u64)
    ensures
        r == sat_add_spec(a, b),
        r >= a,
        r >= b,
        r <= a + b,
{
    if a <= u64::MAX - b {
        a + b
    } else {
        u64::MAX
    }
}

/// One roll of a fixed number of dice, scored as a whole hand.
pub struct Farkle {
    pub dice_to_roll: usize,
}

impl Farkle {
    /// Roll `dice_to_roll` dice and score the hand. The result is the exact
    /// scoring of some hand of that size: the score, the special combination,
    /// and the cleared-slot count all come from one frequency table.
    pub fn roll(&self) -> (r: (usize, Special, usize))
        requires
            1 <= self.dice_to_roll <= 6,
        ensures
            r.0 <= 3000,
            r.2 <= 6,
            exists|hand: Seq<Die>|
                hand.len() == self.dice_to_roll && r.0 == spec_score(counts_of(hand)) && r.1
                    == spec_special(counts_of(hand)) && r.2 == spec_reroll(counts_of(hand)),
    {
        let mut hand: Vec<Die> = Vec::new();
        let n = self.dice_to_roll;
        let mut i: usize = 0;
        while i < n
            invariant
                i <= n,
                hand@.len() == i,
            decreases n - i,
        {
            hand.push(Die::roll());
            i = i + 1;
        }
        let ghost hand_seq = hand@;
        let helper = ScoreHelper::new(hand);
        proof {
            lemma_score_bounds(helper@);
        }
        let r = helper.score();
        proof {
            assert(hand_seq.len() == self.dice_to_roll && r.0 == spec_score(counts_of(hand_seq))
                && r.1 == spec_special(counts_of(hand_seq)) && r.2 == spec_reroll(
                counts_of(hand_seq),
            ));
        }
        r
    }
}

/// The gain of a turn whose successive rolls scored `scores`: their sum,
/// saturating at `u64::MAX`. A zero-scoring roll adds nothing, exactly as the
/// turn rule that skips it.
pub open spec fn turn_gain(scores: Seq<int>) -> int
    decreases scores.len(),
{
    if scores.len() == 0 {
        0
    } else {
        let rest = turn_gain(scores.drop_last());
        if rest + scores.last() <= u64::MAX {
            rest + scores.last()
        } else {
            u64::MAX as int
        }
    }
}

/// Play one turn: roll all six dice, and keep rolling six while every face
/// slot comes back cleared; a zero-scoring roll is skipped rather than ending
/// the turn. Returns the points gained and the rolls made: the gain is the
/// saturating sum of the scores of the rolled hands, each the exact scoring
/// of some six-die hand. The roll budget bounds the rolls so that the turn
/// provably ends; a turn that uses the whole budget may stop before a roll
/// locks a die.
pub fn play_turn(roll_budget: u64) -> (r: (u64, u64))
    requires
        roll_budget >= 1,
    ensures
        1 <= r.1 <= roll_budget,
        r.0 <= 3000 * r.1,
        exists|scores: Seq<int>|
            scores.len() == r.1 && r.0 == turn_gain(scores) && (forall|k: int|
                0 <= k < scores.len() ==> exists|hand: Seq<Die>|
                    hand.len() == 6 && #[trigger] scores[k] == spec_score(counts_of(hand))),
{
    let mut gain: u64 = 0;
    let mut rolls: u64 = 0;
    let mut non_counters: usize = 6;
    let ghost mut scores_g: Seq<int> = Seq::empty();
    while non_counters >= 6 && rolls < roll_budget
        invariant
            non_counters <= 6,
            rolls <= roll_budget,
            rolls >= 1 || non_counters == 6,
            gain <= 3000 * rolls,
            scores_g.len() == rolls,
            gain == turn_gain(scores_g),
            forall|k: int|
                0 <= k < scores_g.len() ==> exists|hand: Seq<Die>|
                    hand.len() == 6 && #[trigger] scores_g[k] == spec_score(counts_of(hand)),
        decreases roll_budget - rolls,
    {
        rolls = rolls + 1;
        let f = Farkle { dice_to_roll: non_counters };
        let (score, _special, nc) = f.roll();
        non_counters = nc;
        if score > 0 {
            gain = sat_add_u64(gain, score as u64);
        }
        proof {
            let hand_w = choose|hand: Seq<Die>|
                hand.len() == f.dice_to_roll && score == spec_score(counts_of(hand)) && _special
                    == spec_special(counts_of(hand)) && nc == spec_reroll(counts_of(hand));
            assert(hand_w.len() == 6 && score as int == spec_score(counts_of(hand_w)));
            let prev = scores_g;
            scores_g = scores_g.push(score as int);
            assert(scores_g.drop_last() =~= prev);
            assert(scores_g.last() == score as int);
            assert forall|k: int| 0 <= k < scores_g.len() implies exists|hand: Seq<Die>|
                hand.len() == 6 && #[trigger] scores_g[k] == spec_score(counts_of(hand)) by {
                if k < prev.len() {
                    assert(scores_g[k] == prev[k]);
                } else {
                    assert(scores_g[k] == score as int);
                }
            }
        }
    }
    proof {
        assert(scores_g.len() == rolls && gain == turn_gain(scores_g) && (forall|k: int|
            0 <= k < scores_g.len() ==> exists|hand: Seq<Die>|
                hand.len() == 6 && #[trigger] scores_g[k] == spec_score(counts_of(hand))));
    }
    (gain, rolls)
}

/// Play one game: turns accumulate until the score reaches 10000. Returns the
/// final game score and the rolls used. Unless the game spent its whole roll
/// budget, the score reached 10000; and no roll scores above 3000, so the
/// score never outruns the rolls.
pub fn play_game(roll_budget: u64) -> (r: (u64, u64))
    requires
        roll_budget >= 1,
    ensures
        r.0 >= 10000 || r.1 == roll_budget,
        1 <= r.1 <= roll_budget,
        r.0 <= 3000 * r.1,
{
    let mut curr: u64 = 0;
    let mut used: u64 = 0;
    while curr < 10000 && used < roll_budget
        invariant
            used <= roll_budget,
            used >= 1 || (curr == 0 && used == 0),
            curr <= 3000 * used,
        decreases roll_budget - used,
    {
        let (gain, rolls) = play_turn(roll_budget - used);
        curr = sat_add_u64(curr, gain);
        used = used + rolls;
    }
    (curr, used)
}

/// Play `games` games, each with its own roll budget, and return the total
/// score and the total number of scoring rolls, both saturating at
/// `u64::MAX`. Every game makes at least one roll, and every game either
/// reaches the 10000 threshold or spends the whole budget. The average score
/// per roll is the totals' quotient.
pub fn run_simulation(games: u64, roll_budget: u64) -> (r: (u64, u64))
    requires
        roll_budget >= 1,
    ensures
        games == 0 ==> r.0 == 0 && r.1 == 0,
        r.1 >= games,
        r.0 <= 3000 * r.1,
        games >= 1 ==> r.0 >= 10000 || r.1 >= roll_budget,
{
    let mut total_score: u64 = 0;
    let mut total_rolls: u64 = 0;
    let mut g: u64 = 0;
    while g < games
        invariant
            g <= games,
            g == 0 ==> total_score == 0 && total_rolls == 0,
            total_rolls >= g,
            total_score <= 3000 * total_rolls,
            g >= 1 ==> total_score >= 10000 || total_rolls >= roll_budget,
            roll_budget >= 1,
        decreases games - g,
    {
        let (s, t) = play_game(roll_budget);
        total_score = sat_add_u64(total_score, s);
        total_rolls = sat_add_u64(total_rolls, t);
        g = g + 1;
    }
    (total_score, total_rolls)
}

} // verus!
