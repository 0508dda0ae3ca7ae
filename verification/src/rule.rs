//! The transition rule for loose granular material, as a function from what
//! surrounds a pixel and a set of random draws to the move the pixel makes.
//!
//! A chance is a fraction of one in units of `1 / CHANCE_SCALE`; a launch
//! fraction is one in units of `1 / FRACTION_SCALE`.

use vstd::prelude::*;

verus! {

/// Number of equally likely values of a chance draw.
pub const CHANCE_SCALE: u32 = 8_388_608;

/// A pixel that could fall straight down past an open diagonal does so only
/// when its chance draw exceeds this: one tenth.
pub const FALL_HOLD: u32 = 838_860;

/// A pixel with something resting on it spreads sideways only when its
/// chance draw exceeds this: one half.
pub const BURIED_SPREAD: u32 = 4_194_304;

/// Number of equally likely values of a launch fraction.
pub const FRACTION_SCALE: u64 = 4_503_599_627_370_496;

/// Velocities are counted in units of `1 / VELOCITY_SCALE` pixels per step.
pub const VELOCITY_SCALE: i64 = 9_007_199_254_740_992;

/// Which of the cells around a pixel are open. Rows grow downwards.
#[derive(Clone, Copy, Debug, PartialEq, Eq, Structural)]
pub struct Surroundings {
    /// The cell directly above.
    pub above: bool,
    /// The cell directly below.
    pub below: bool,
    /// The cell one down and one left.
    pub below_left: bool,
    /// The cell one down and one right.
    pub below_right: bool,
    /// The cell two rows down.
    pub below2: bool,
    /// All of the four cells starting two rows down.
    pub shaft: bool,
    /// The cell one down and two left.
    pub left2: bool,
    /// The cell two down and two left.
    pub left2_below: bool,
    /// The cell one down and two right.
    pub right2: bool,
    /// The cell two down and two right.
    pub right2_below: bool,
}

/// The random draws one pixel may consume in one step.
#[derive(Clone, Copy, Debug, PartialEq, Eq, Structural)]
pub struct Draws {
    /// Chance compared with `FALL_HOLD`.
    pub fall: u32,
    /// Chance compared with `BURIED_SPREAD`.
    pub spread: u32,
    /// Coin: fall two cells at once where there is room.
    pub fast: bool,
    /// Coin: which diagonal to take when both are open; heads is right.
    pub side: bool,
    /// Coin: slide two columns along a slope.
    pub hop: bool,
    /// Launch fraction for the sideways velocity of a particle.
    pub drift: u64,
    /// Launch fraction for the downward velocity of a particle.
    pub plunge: u64,
}

/// What a pixel does in one step.
#[derive(Clone, Copy, Debug, PartialEq, Eq, Structural)]
pub enum Move {
    /// It stays where it is.
    Stay,
    /// It leaves the grid as a free particle.
    Detach,
    /// It moves by `dx` columns and `dy` rows.
    Shift { dx: i32, dy: i32 },
}

/// A velocity in units of `1 / VELOCITY_SCALE` pixels per step.
#[derive(Clone, Copy, Debug, PartialEq, Eq, Structural)]
pub struct Velocity {
    pub x: i64,
    pub y: i64,
}

/// Whether a straight fall is taken.
pub open spec fn falls(s: Surroundings, d: Draws) -> bool {
    s.below && (!(s.below_right || s.below_left) || d.fall > FALL_HOLD)
}

/// Whether a pixel that does not fall tries to spread sideways.
pub open spec fn spreads(s: Surroundings, d: Draws) -> bool {
    s.above || d.spread > BURIED_SPREAD
}

/// The rule for one sand pixel.
pub open spec fn sand_rule(s: Surroundings, d: Draws) -> Move {
    if falls(s, d) {
        if s.shaft {
            Move::Detach
        } else if d.fast && s.below2 {
            Move::Shift { dx: 0, dy: 2 }
        } else {
            Move::Shift { dx: 0, dy: 1 }
        }
    } else if spreads(s, d) {
        if s.below_left && s.below_right {
            if d.side {
                Move::Shift { dx: 1, dy: 1 }
            } else {
                Move::Shift { dx: -1i32, dy: 1 }
            }
        } else if s.below_left {
            if d.hop && s.left2 && !s.left2_below {
                Move::Shift { dx: -2i32, dy: 1 }
            } else {
                Move::Shift { dx: -1i32, dy: 1 }
            }
        } else if s.below_right {
            if d.hop && s.right2 && !s.right2_below {
                Move::Shift { dx: 2, dy: 1 }
            } else {
                Move::Shift { dx: 1, dy: 1 }
            }
        } else {
            Move::Stay
        }
    } else {
        Move::Stay
    }
}

/// Whether the cell a move leads to was open.
pub open spec fn lands_open(s: Surroundings, m: Move) -> bool {
    match m {
        Move::Shift { dx, dy } => {
            ||| dx == 0 && dy == 1 && s.below
            ||| dx == 0 && dy == 2 && s.below2
            ||| dx == -1 && dy == 1 && s.below_left
            ||| dx == 1 && dy == 1 && s.below_right
            ||| dx == -2 && dy == 1 && s.left2
            ||| dx == 2 && dy == 1 && s.right2
        },
        _ => true,
    }
}

/// The velocity a detached pixel starts with: a sideways component within a
/// quarter of a pixel per step either way, and a downward one of at least one.
pub open spec fn launch_velocity(d: Draws) -> Velocity {
    Velocity {
        x: (d.drift - FRACTION_SCALE / 2) as i64,
        y: (VELOCITY_SCALE + 2 * d.plunge) as i64,
    }
}

/// The same surroundings seen in a mirror that swaps left and right.
pub open spec fn mirror_surroundings(s: Surroundings) -> Surroundings {
    Surroundings {
        below_left: s.below_right,
        below_right: s.below_left,
        left2: s.right2,
        left2_below: s.right2_below,
        right2: s.left2,
        right2_below: s.left2_below,
        ..s
    }
}

/// The draws that make the mirrored pixel take the mirrored choice.
pub open spec fn mirror_draws(d: Draws) -> Draws {
    Draws { side: !d.side, ..d }
}

/// The same move seen in a mirror that swaps left and right.
pub open spec fn mirror_move(m: Move) -> Move {
    match m {
        Move::Shift { dx, dy } => Move::Shift { dx: (-dx) as i32, dy },
        _ => m,
    }
}

/// Computes the move of one sand pixel.
pub fn sand_move(s: Surroundings, d: Draws) -> (m: Move)
    ensures
        m == sand_rule(s, d),
{
    if s.below && (!(s.below_right || s.below_left) || d.fall > FALL_HOLD) {
        if s.shaft {
            Move::Detach
        } else if d.fast && s.below2 {
            Move::Shift { dx: 0, dy: 2 }
        } else {
            Move::Shift { dx: 0, dy: 1 }
        }
    } else if s.above || d.spread > BURIED_SPREAD {
        if s.below_left && s.below_right {
            if d.side {
                Move::Shift { dx: 1, dy: 1 }
            } else {
                Move::Shift { dx: -1i32, dy: 1 }
            }
        } else if s.below_left {
            if d.hop && s.left2 && !s.left2_below {
                Move::Shift { dx: -2i32, dy: 1 }
            } else {
                Move::Shift { dx: -1i32, dy: 1 }
            }
        } else if s.below_right {
            if d.hop && s.right2 && !s.right2_below {
                Move::Shift { dx: 2, dy: 1 }
            } else {
                Move::Shift { dx: 1, dy: 1 }
            }
        } else {
            Move::Stay
        }
    } else {
        Move::Stay
    }
}

/// Computes the starting velocity of a detached pixel from its two launch
/// fractions.
pub fn launch(drift: u64, plunge: u64) -> (v: Velocity)
    requires
        drift < FRACTION_SCALE,
        plunge < FRACTION_SCALE,
    ensures
        v.x == drift - FRACTION_SCALE / 2,
        v.y == VELOCITY_SCALE + 2 * plunge,
        -(VELOCITY_SCALE / 4) <= v.x < VELOCITY_SCALE / 4,
        VELOCITY_SCALE <= v.y < 2 * VELOCITY_SCALE,
{
    let half: i64 = 2_251_799_813_685_248;
    Velocity { x: drift as i64 - half, y: VELOCITY_SCALE + 2 * (plunge as i64) }
}

/// A pixel only ever moves into a cell that was open, downwards by one or
/// two rows and sideways by at most two columns.
pub proof fn lemma_moves_go_down_into_open_cells(s: Surroundings, d: Draws)
    ensures
        lands_open(s, sand_rule(s, d)),
        sand_rule(s, d) matches Move::Shift { dx, dy } ==> 1 <= dy <= 2 && -2 <= dx <= 2,
{
}

/// Left and right are treated alike: mirrored surroundings with the mirrored
/// draws give the mirrored move.
pub proof fn lemma_rule_is_mirror_symmetric(s: Surroundings, d: Draws)
    ensures
        sand_rule(mirror_surroundings(s), mirror_draws(d)) == mirror_move(sand_rule(s, d)),
{
}

/// A pixel with nothing but open cells around it never stays: it either
/// detaches or takes one of the two diagonals.
pub proof fn lemma_isolated_pixel_moves(s: Surroundings, d: Draws)
    requires
        s.above && s.below && s.below_left && s.below_right && s.below2 && s.shaft,
    ensures
        sand_rule(s, d) == Move::Detach || sand_rule(s, d) == (Move::Shift { dx: 1, dy: 1 })
            || sand_rule(s, d) == (Move::Shift { dx: -1i32, dy: 1 }),
{
}

} // verus!
