use vstd::prelude::*;

use crate::die::Die;

verus! {

/// A whole-hand bonus pattern, or `Nothing` when no pattern applies.
#[derive(Clone, Copy, PartialEq, Eq, Structural, Debug)]
pub enum Special {
    ThreeKind,
    FourKind,
    FiveKind,
    SixKind,
    Straight,
    ThreePair,
    TwoTriplet,
    Nothing,
}

/// 1 when the condition holds, else 0.
pub open spec fn ind(b: bool) -> int {
    if b {
        1
    } else {
        0
    }
}

/// How many dice in `hand` show face value `face`.
pub open spec fn count_face(hand: Seq<Die>, face: int) -> int
    decreases hand.len(),
{
    if hand.len() == 0 {
        0
    } else {
        count_face(hand.drop_last(), face) + ind(hand.last().value_spec() == face)
    }
}

/// The frequency table of a hand: entry `i` counts the dice with face `i + 1`.
pub open spec fn counts_of(hand: Seq<Die>) -> Seq<int> {
    Seq::new(6, |i: int| count_face(hand, i + 1))
}

/// A well-formed frequency table: six entries, each a count of at most six dice.
pub open spec fn freq_wf(freq: Seq<int>) -> bool {
    &&& freq.len() == 6
    &&& forall|i: int| 0 <= i < 6 ==> 0 <= #[trigger] freq[i] <= 6
}

/// The total number of dice the table records.
pub open spec fn freq_total(freq: Seq<int>) -> int {
    freq[0] + freq[1] + freq[2] + freq[3] + freq[4] + freq[5]
}

/// How many faces occur exactly `v` times.
pub open spec fn faces_with(freq: Seq<int>, v: int) -> int {
    ind(freq[0] == v) + ind(freq[1] == v) + ind(freq[2] == v) + ind(freq[3] == v)
        + ind(freq[4] == v) + ind(freq[5] == v)
}

/// Exactly two faces appear three times each.
pub open spec fn is_two_triplet(freq: Seq<int>) -> bool {
    faces_with(freq, 3) == 2
}

/// Exactly three faces appear twice each.
pub open spec fn is_three_pair(freq: Seq<int>) -> bool {
    faces_with(freq, 2) == 3
}

/// Every face appears exactly once: the straight 1-2-3-4-5-6.
pub open spec fn is_straight(freq: Seq<int>) -> bool {
    forall|i: int| 0 <= i < 6 ==> #[trigger] freq[i] == 1
}

/// The X-of-a-kind point table, for `3 <= count <= 6`.
pub open spec fn kind_points(count: int, face: int) -> int {
    if count == 3 {
        if face == 1 {
            300
        } else if face == 2 {
            200
        } else if face == 3 {
            300
        } else if face == 4 {
            400
        } else if face == 5 {
            500
        } else {
            600
        }
    } else if count == 4 {
        1000
    } else if count == 5 {
        2000
    } else {
        3000
    }
}

/// The points one face contributes to additive scoring: an X-of-a-kind award
/// consumes the whole face; otherwise each single 1 scores 100 and each
/// single 5 scores 50.
pub open spec fn face_points(count: int, face: int) -> int {
    if count >= 3 {
        kind_points(count, face)
    } else if face == 1 {
        100 * count
    } else if face == 5 {
        50 * count
    } else {
        0
    }
}

/// The additive score of a hand with no whole-hand pattern.
pub open spec fn base_score(freq: Seq<int>) -> int {
    face_points(freq[0], 1) + face_points(freq[1], 2) + face_points(freq[2], 3)
        + face_points(freq[3], 4) + face_points(freq[4], 5) + face_points(freq[5], 6)
}

/// After additive scoring, a face slot is left at frequency zero when it held
/// no dice, was consumed by an X-of-a-kind award, or is face 1 or 5 (whose
/// remaining singles are always scored and consumed).
pub open spec fn face_cleared(freq: Seq<int>, face: int) -> bool {
    face == 1 || face == 5 || freq[face - 1] == 0 || freq[face - 1] >= 3
}

/// The reroll count: the number of face slots at frequency zero once additive
/// scoring has consumed its dice. It counts slots, not dice: a face absent
/// from the hand counts too.
pub open spec fn cleared_faces(freq: Seq<int>) -> int {
    ind(face_cleared(freq, 1)) + ind(face_cleared(freq, 2)) + ind(face_cleared(freq, 3))
        + ind(face_cleared(freq, 4)) + ind(face_cleared(freq, 5)) + ind(face_cleared(freq, 6))
}

/// The score of a hand with frequency table `freq`, applying the whole-hand
/// patterns in priority order before additive scoring.
pub open spec fn spec_score(freq: Seq<int>) -> int {
    if is_two_triplet(freq) {
        2500
    } else if is_three_pair(freq) {
        1500
    } else if is_straight(freq) {
        1500
    } else {
        base_score(freq)
    }
}

/// The special combination of a hand: the first whole-hand pattern in
/// priority order, or `Nothing` when additive scoring applies.
pub open spec fn spec_special(freq: Seq<int>) -> Special {
    if is_two_triplet(freq) {
        Special::TwoTriplet
    } else if is_three_pair(freq) {
        Special::ThreePair
    } else if is_straight(freq) {
        Special::Straight
    } else {
        Special::Nothing
    }
}

/// The reroll count of a hand: a whole-hand pattern consumes every die.
pub open spec fn spec_reroll(freq: Seq<int>) -> int {
    if is_two_triplet(freq) || is_three_pair(freq) || is_straight(freq) {
        0
    } else {
        cleared_faces(freq)
    }
}

/// Builds the frequency table of one hand and scores it.
pub struct ScoreHelper {
    frequencies: Vec<usize>,
}

impl View for ScoreHelper {
    type V = Seq<int>;

    closed spec fn view(&self) -> Seq<int> {
        self.frequencies@.map_values(|c: usize| c as int)
    }
}

impl ScoreHelper {
    /// The frequency table is well formed.
    pub open spec fn wf(&self) -> bool {
        freq_wf(self@)
    }

    /// Tally the hand into a frequency table over the six faces.
    pub fn new(hand: Vec<Die>) -> (r: ScoreHelper)
        requires
            1 <= hand@.len() <= 6,
        ensures
            r.wf(),
            r@ == counts_of(hand@),
            freq_total(r@) == hand@.len(),
    {
        let mut dies: Vec<usize> = vec![0, 0, 0, 0, 0, 0];
        let n = hand.len();
        let mut idx: usize = 0;
        while idx < n
            invariant
                dies@.len() == 6,
                n == hand@.len(),
                n <= 6,
                idx <= n,
                forall|f: int| 1 <= f <= 6 ==> dies@[f - 1] == count_face(hand@.take(idx as int), f),
                forall|j: int| 0 <= j < 6 ==> #[trigger] dies@[j] <= idx,
            decreases n - idx,
        {
            let d = hand[idx];
            let v = d.value();
            let cur = dies[v - 1];
            dies[v - 1] = cur + 1;
            idx = idx + 1;
            proof {
                let pre = hand@.take(idx - 1);
                let post = hand@.take(idx as int);
                assert(post.drop_last() =~= pre);
                assert(post.last() == hand@[idx - 1]);
                assert forall|f: int| 1 <= f <= 6 implies dies@[f - 1] == count_face(post, f) by {
                    assert(count_face(post, f) == count_face(pre, f) + ind(
                        hand@[idx - 1].value_spec() == f,
                    ));
                }
            }
        }
        proof {
            assert(hand@.take(n as int) =~= hand@);
        }
        let r = ScoreHelper { frequencies: dies };
        proof {
            assert(r@ =~= counts_of(hand@));
            lemma_counts_total(hand@);
        }
        r
    }

    /// How many faces occur exactly `v` times in the table.
    fn faces_with_count(&self, v: usize) -> (r: usize)
        requires
            self.wf(),
        ensures
            r == faces_with(self@, v as int),
    {
        let mut c: usize = 0;
        if self.frequencies[0] == v {
            c = c + 1;
        }
        if self.frequencies[1] == v {
            c = c + 1;
        }
        if self.frequencies[2] == v {
            c = c + 1;
        }
        if self.frequencies[3] == v {
            c = c + 1;
        }
        if self.frequencies[4] == v {
            c = c + 1;
        }
        if self.frequencies[5] == v {
            c = c + 1;
        }
        c
    }

    /// The points the face at slot `idx` contributes to additive scoring.
    fn face_points_at(&self, idx: usize) -> (r: usize)
        requires
            self.wf(),
            idx < 6,
        ensures
            r == face_points(self@[idx as int], idx as int + 1),
            r <= 3000,
    {
        let freq = self.frequencies[idx];
        proof {
            assert(self@[idx as int] == self.frequencies@[idx as int]);
        }
        if freq >= 3 {
            ScoreHelper::x_of_a_kind(freq, Die::from_value(idx + 1))
        } else if idx == 0 {
            100 * freq
        } else if idx == 4 {
            50 * freq
        } else {
            0
        }
    }

    /// The number of face slots left at frequency zero by additive scoring.
    fn cleared_count(&self) -> (r: usize)
        requires
            self.wf(),
        ensures
            r == cleared_faces(self@),
    {
        // faces 1 and 5 are always cleared
        let mut c: usize = 2;
        if self.frequencies[1] == 0 || self.frequencies[1] >= 3 {
            c = c + 1;
        }
        if self.frequencies[2] == 0 || self.frequencies[2] >= 3 {
            c = c + 1;
        }
        if self.frequencies[3] == 0 || self.frequencies[3] >= 3 {
            c = c + 1;
        }
        if self.frequencies[5] == 0 || self.frequencies[5] >= 3 {
            c = c + 1;
        }
        c
    }

    /// Score the hand: whole-hand patterns in priority order, then additive
    /// scoring, returning the score, the special combination, and the number
    /// of cleared face slots.
    pub fn score(self) -> (r: (usize, Special, usize))
        requires
            self.wf(),
        ensures
            r.0 == spec_score(self@),
            r.1 == spec_special(self@),
            r.2 == spec_reroll(self@),
    {
        if self.faces_with_count(3) == 2 {
            return (2500, Special::TwoTriplet, 0);
        }
        if self.faces_with_count(2) == 3 {
            return (1500, Special::ThreePair, 0);
        }
        if self.faces_with_count(1) == 6 {
            proof {
                let freq = self@;
                assert(ind(freq[0] == 1) + ind(freq[1] == 1) + ind(freq[2] == 1) + ind(
                    freq[3] == 1,
                ) + ind(freq[4] == 1) + ind(freq[5] == 1) == 6);
                assert(freq[0] == 1 && freq[1] == 1 && freq[2] == 1 && freq[3] == 1 && freq[4] == 1
                    && freq[5] == 1);
                assert forall|i: int| 0 <= i < 6 implies #[trigger] freq[i] == 1 by {}
            }
            return (1500, Special::Straight, 0);
        }
        proof {
            let freq = self@;
            assert(!is_straight(freq)) by {
                if is_straight(freq) {
                    assert(freq[0] == 1 && freq[1] == 1 && freq[2] == 1 && freq[3] == 1 && freq[4]
                        == 1 && freq[5] == 1);
                    assert(faces_with(freq, 1) == 6);
                }
            }
        }
        let mut total: usize = 0;
        total = total + self.face_points_at(0);
        total = total + self.face_points_at(1);
        total = total + self.face_points_at(2);
        total = total + self.face_points_at(3);
        total = total + self.face_points_at(4);
        total = total + self.face_points_at(5);
        let cleared = self.cleared_count();
        (total, Special::Nothing, cleared)
    }

    /// The points for `frequency` dice of the same face, `3 <= frequency <= 6`.
    pub fn x_of_a_kind(frequency: usize, die: Die) -> (r: usize)
        requires
            3 <= frequency <= 6,
        ensures
            r == kind_points(frequency as int, die.value_spec()),
    {
        match frequency {
            3 => match die {
                Die::One => 300,
                Die::Two => 200,
                Die::Three => 300,
                Die::Four => 400,
                Die::Five => 500,
                Die::Six => 600,
            },
            4 => 1000,
            5 => 2000,
            _ => 3000,
        }
    }
}

/// Every face count lies between 0 and the hand size.
proof fn lemma_count_face_bounds(hand: Seq<Die>, face: int)
    ensures
        0 <= count_face(hand, face) <= hand.len(),
    decreases hand.len(),
{
    if hand.len() > 0 {
        lemma_count_face_bounds(hand.drop_last(), face);
    }
}

/// The frequency table of a hand sums to the hand size.
proof fn lemma_counts_total(hand: Seq<Die>)
    ensures
        freq_total(counts_of(hand)) == hand.len(),
    decreases hand.len(),
{
    let freq = counts_of(hand);
    assert(freq[0] == count_face(hand, 1));
    assert(freq[1] == count_face(hand, 2));
    assert(freq[2] == count_face(hand, 3));
    assert(freq[3] == count_face(hand, 4));
    assert(freq[4] == count_face(hand, 5));
    assert(freq[5] == count_face(hand, 6));
    if hand.len() == 0 {
        assert(count_face(hand, 1) == 0);
        assert(count_face(hand, 2) == 0);
        assert(count_face(hand, 3) == 0);
        assert(count_face(hand, 4) == 0);
        assert(count_face(hand, 5) == 0);
        assert(count_face(hand, 6) == 0);
    } else {
        let prev = hand.drop_last();
        lemma_counts_total(prev);
        let v = hand.last().value_spec();
        assert(1 <= v <= 6);
        assert(count_face(hand, 1) == count_face(prev, 1) + ind(v == 1));
        assert(count_face(hand, 2) == count_face(prev, 2) + ind(v == 2));
        assert(count_face(hand, 3) == count_face(prev, 3) + ind(v == 3));
        assert(count_face(hand, 4) == count_face(prev, 4) + ind(v == 4));
        assert(count_face(hand, 5) == count_face(prev, 5) + ind(v == 5));
        assert(count_face(hand, 6) == count_face(prev, 6) + ind(v == 6));
        assert(counts_of(prev)[0] == count_face(prev, 1));
        assert(counts_of(prev)[1] == count_face(prev, 2));
        assert(counts_of(prev)[2] == count_face(prev, 3));
        assert(counts_of(prev)[3] == count_face(prev, 4));
        assert(counts_of(prev)[4] == count_face(prev, 5));
        assert(counts_of(prev)[5] == count_face(prev, 6));
    }
}

/// A face shown by no die in the hand has count zero.
proof fn lemma_absent_face_count_zero(hand: Seq<Die>, face: int)
    requires
        forall|i: int| 0 <= i < hand.len() ==> #[trigger] hand[i].value_spec() != face,
    ensures
        count_face(hand, face) == 0,
    decreases hand.len(),
{
    if hand.len() > 0 {
        let prev = hand.drop_last();
        assert(hand.last() == hand[hand.len() - 1]);
        assert forall|i: int| 0 <= i < prev.len() implies #[trigger] prev[i].value_spec()
            != face by {
            assert(prev[i] == hand[i]);
        }
        lemma_absent_face_count_zero(prev, face);
    }
}

/// In a hand of pairwise distinct faces, every face count is at most one.
proof fn lemma_distinct_count_le_one(hand: Seq<Die>, face: int)
    requires
        forall|i: int, j: int|
            0 <= i < j < hand.len() ==> hand[i].value_spec() != hand[j].value_spec(),
    ensures
        count_face(hand, face) <= 1,
    decreases hand.len(),
{
    if hand.len() > 0 {
        let prev = hand.drop_last();
        assert forall|i: int, j: int| 0 <= i < j < prev.len() implies prev[i].value_spec()
            != prev[j].value_spec() by {
            assert(prev[i] == hand[i]);
            assert(prev[j] == hand[j]);
        }
        lemma_distinct_count_le_one(prev, face);
        if hand.last().value_spec() == face {
            assert(hand.last() == hand[hand.len() - 1]);
            assert forall|i: int| 0 <= i < prev.len() implies #[trigger] prev[i].value_spec()
                != face by {
                assert(prev[i] == hand[i]);
                assert(hand[i].value_spec() != hand[hand.len() - 1].value_spec());
            }
            lemma_absent_face_count_zero(prev, face);
        }
    }
}

/// A six-die hand whose faces are pairwise distinct is the straight
/// 1-2-3-4-5-6: it scores 1500 as `Special::Straight` with no face slot left
/// to reroll.
pub proof fn lemma_straight_hand(hand: Seq<Die>)
    requires
        hand.len() == 6,
        forall|i: int, j: int|
            0 <= i < j < 6 ==> hand[i].value_spec() != hand[j].value_spec(),
    ensures
        spec_score(counts_of(hand)) == 1500,
        spec_special(counts_of(hand)) == Special::Straight,
        spec_reroll(counts_of(hand)) == 0,
{
    let freq = counts_of(hand);
    lemma_counts_total(hand);
    assert forall|f: int| 1 <= f <= 6 implies 0 <= #[trigger] count_face(hand, f) <= 1 by {
        lemma_distinct_count_le_one(hand, f);
        lemma_count_face_bounds(hand, f);
    }
    assert(freq[0] == count_face(hand, 1));
    assert(freq[1] == count_face(hand, 2));
    assert(freq[2] == count_face(hand, 3));
    assert(freq[3] == count_face(hand, 4));
    assert(freq[4] == count_face(hand, 5));
    assert(freq[5] == count_face(hand, 6));
    assert(freq[0] == 1 && freq[1] == 1 && freq[2] == 1 && freq[3] == 1 && freq[4] == 1 && freq[5]
        == 1);
    assert(is_straight(freq)) by {
        assert forall|i: int| 0 <= i < 6 implies #[trigger] freq[i] == 1 by {}
    }
    assert(faces_with(freq, 3) == 0);
    assert(faces_with(freq, 2) == 0);
}

/// A six-die hand holding triplets of two different faces scores 2500 as
/// `Special::TwoTriplet` with no face slot left to reroll.
pub proof fn lemma_two_triplet_hand(hand: Seq<Die>, a: int, b: int)
    requires
        hand.len() == 6,
        1 <= a <= 6,
        1 <= b <= 6,
        a != b,
        count_face(hand, a) == 3,
        count_face(hand, b) == 3,
    ensures
        spec_score(counts_of(hand)) == 2500,
        spec_special(counts_of(hand)) == Special::TwoTriplet,
        spec_reroll(counts_of(hand)) == 0,
{
    let freq = counts_of(hand);
    lemma_counts_total(hand);
    assert forall|f: int| 1 <= f <= 6 implies 0 <= #[trigger] count_face(hand, f) <= 6 by {
        lemma_count_face_bounds(hand, f);
    }
    assert(freq[a - 1] == 3);
    assert(freq[b - 1] == 3);
    assert(freq[0] == count_face(hand, 1));
    assert(freq[1] == count_face(hand, 2));
    assert(freq[2] == count_face(hand, 3));
    assert(freq[3] == count_face(hand, 4));
    assert(freq[4] == count_face(hand, 5));
    assert(freq[5] == count_face(hand, 6));
    assert forall|i: int| 0 <= i < 6 && i != a - 1 && i != b - 1 implies #[trigger] freq[i]
        == 0 by {}
    assert(faces_with(freq, 3) == 2);
}

/// A six-die hand holding pairs of three different faces scores 1500 as
/// `Special::ThreePair` with no face slot left to reroll.
pub proof fn lemma_three_pair_hand(hand: Seq<Die>, a: int, b: int, c: int)
    requires
        hand.len() == 6,
        1 <= a <= 6,
        1 <= b <= 6,
        1 <= c <= 6,
        a != b,
        a != c,
        b != c,
        count_face(hand, a) == 2,
        count_face(hand, b) == 2,
        count_face(hand, c) == 2,
    ensures
        spec_score(counts_of(hand)) == 1500,
        spec_special(counts_of(hand)) == Special::ThreePair,
        spec_reroll(counts_of(hand)) == 0,
{
    let freq = counts_of(hand);
    lemma_counts_total(hand);
    assert forall|f: int| 1 <= f <= 6 implies 0 <= #[trigger] count_face(hand, f) <= 6 by {
        lemma_count_face_bounds(hand, f);
    }
    assert(freq[a - 1] == 2);
    assert(freq[b - 1] == 2);
    assert(freq[c - 1] == 2);
    assert(freq[0] == count_face(hand, 1));
    assert(freq[1] == count_face(hand, 2));
    assert(freq[2] == count_face(hand, 3));
    assert(freq[3] == count_face(hand, 4));
    assert(freq[4] == count_face(hand, 5));
    assert(freq[5] == count_face(hand, 6));
    assert forall|i: int| 0 <= i < 6 && i != a - 1 && i != b - 1 && i != c - 1 implies #[trigger] freq[i]
        == 0 by {}
    assert(faces_with(freq, 2) == 3);
    assert(faces_with(freq, 3) == 0);
}

/// One face contributes at most 500 points per die it holds.
proof fn lemma_face_points_bounds(count: int, face: int)
    requires
        0 <= count <= 6,
    ensures
        0 <= face_points(count, face) <= 500 * count,
{
}

/// A hand of at most six dice scores at most 3000 points and clears at most
/// six face slots.
pub proof fn lemma_score_bounds(freq: Seq<int>)
    requires
        freq_wf(freq),
        freq_total(freq) <= 6,
    ensures
        0 <= spec_score(freq) <= 3000,
        0 <= spec_reroll(freq) <= 6,
{
    lemma_face_points_bounds(freq[0], 1);
    lemma_face_points_bounds(freq[1], 2);
    lemma_face_points_bounds(freq[2], 3);
    lemma_face_points_bounds(freq[3], 4);
    lemma_face_points_bounds(freq[4], 5);
    lemma_face_points_bounds(freq[5], 6);
}

} // verus!
