//! How the trail of a robot fades: the older a visit, the colder its colour.

use vstd::prelude::*;

verus! {

/// A count of simulation steps.
pub type Tick = u64;

/// The colour of a visited cell, from the most recent visit to the oldest.
#[derive(Clone, Copy, Debug, PartialEq, Eq, Structural)]
pub enum TrailColor {
    Red,
    LightRed,
    LightYellow,
    White,
    LightCyan,
    LightBlue,
    Blue,
}

impl TrailColor {
    /// The place of the colour in the fading order: 0 for the freshest.
    pub open spec fn rank(self) -> nat {
        match self {
            TrailColor::Red => 0,
            TrailColor::LightRed => 1,
            TrailColor::LightYellow => 2,
            TrailColor::White => 3,
            TrailColor::LightCyan => 4,
            TrailColor::LightBlue => 5,
            TrailColor::Blue => 6,
        }
    }

    /// The place of the colour in the fading order: 0 for the freshest.
    pub fn position(self) -> (r: u8)
        ensures
            r == self.rank(),
    {
        match self {
            TrailColor::Red => 0,
            TrailColor::LightRed => 1,
            TrailColor::LightYellow => 2,
            TrailColor::White => 3,
            TrailColor::LightCyan => 4,
            TrailColor::LightBlue => 5,
            TrailColor::Blue => 6,
        }
    }
}

/// The colour of a cell that was last visited `age` steps ago.
pub open spec fn color_of_age(age: nat) -> TrailColor {
    if age <= 5 {
        TrailColor::Red
    } else if age <= 10 {
        TrailColor::LightRed
    } else if age <= 15 {
        TrailColor::LightYellow
    } else if age <= 25 {
        TrailColor::White
    } else if age <= 35 {
        TrailColor::LightCyan
    } else if age <= 50 {
        TrailColor::LightBlue
    } else {
        TrailColor::Blue
    }
}

/// Picks the colour for a visit that lies `age` steps back.
pub fn decay_color(age: Tick) -> (color: TrailColor)
    ensures
        color == color_of_age(age as nat),
{
    if age <= 5 {
        TrailColor::Red
    } else if age <= 10 {
        TrailColor::LightRed
    } else if age <= 15 {
        TrailColor::LightYellow
    } else if age <= 25 {
        TrailColor::White
    } else if age <= 35 {
        TrailColor::LightCyan
    } else if age <= 50 {
        TrailColor::LightBlue
    } else {
        TrailColor::Blue
    }
}

/// The colour of a cell last visited at `last_seen`, drawn at `current_tick`.
pub fn trail_color(current_tick: Tick, last_seen: Tick) -> (color: TrailColor)
    requires
        last_seen <= current_tick,
    ensures
        color == color_of_age((current_tick - last_seen) as nat),
{
    decay_color(current_tick - last_seen)
}

/// A visit never warms up: of two ages the greater has the colour that
/// stands later in the fading order, or the same one.
pub proof fn lemma_decay_is_monotonic(younger: nat, older: nat)
    requires
        younger <= older,
    ensures
        color_of_age(younger).rank() <= color_of_age(older).rank(),
{
}

/// The seven ranges of ages, one per colour: up to 5, 6 to 10, 11 to 15,
/// 16 to 25, 26 to 35, 36 to 50, and everything older.
pub proof fn lemma_decay_ranges(age: nat)
    ensures
        color_of_age(age) == TrailColor::Red <==> age <= 5,
        color_of_age(age) == TrailColor::LightRed <==> 6 <= age <= 10,
        color_of_age(age) == TrailColor::LightYellow <==> 11 <= age <= 15,
        color_of_age(age) == TrailColor::White <==> 16 <= age <= 25,
        color_of_age(age) == TrailColor::LightCyan <==> 26 <= age <= 35,
        color_of_age(age) == TrailColor::LightBlue <==> 36 <= age <= 50,
        color_of_age(age) == TrailColor::Blue <==> 51 <= age,
{
}

} // verus!
