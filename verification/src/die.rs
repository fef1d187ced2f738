use vstd::prelude::*;

verus! {

/// One face of a six-sided die.
#[derive(Clone, Copy, PartialEq, Eq, Structural, Debug)]
pub enum Die {
    One,
    Two,
    Three,
    Four,
    Five,
    Six,
}

impl Die {
    /// The numeric face value, in [1, 6].
    pub open spec fn value_spec(self) -> int {
        match self {
            Die::One => 1,
            Die::Two => 2,
            Die::Three => 3,
            Die::Four => 4,
            Die::Five => 5,
            Die::Six => 6,
        }
    }

    /// The numeric face value as an executable integer.
    pub fn value(self) -> (r: usize)
        ensures
            r == self.value_spec(),
    {
        match self {
            Die::One => 1,
            Die::Two => 2,
            Die::Three => 3,
            Die::Four => 4,
            Die::Five => 5,
            Die::Six => 6,
        }
    }

    /// The die showing face value `v`.
    pub fn from_value(v: usize) -> (r: Die)
        requires
            1 <= v <= 6,
        ensures
            r.value_spec() == v,
    {
        match v {
            1 => Die::One,
            2 => Die::Two,
            3 => Die::Three,
            4 => Die::Four,
            5 => Die::Five,
            _ => Die::Six,
        }
    }

    /// Roll one die: a uniformly random face.
    pub fn roll() -> (r: Die)
        ensures
            1 <= r.value_spec() <= 6,
    {
        let v = random_face();
        Die::from_value(v)
    }
}

/// Relies on rand::Rng::gen_range on the range 1..7: the result is a uniform
/// sample from [1, 7).
#[verifier::external_body]
fn random_face() -> (r: usize)
    ensures
        1 <= r < 7,
{
    rand::Rng::gen_range(&mut rand::thread_rng(), 1..7)
}

} // verus!
