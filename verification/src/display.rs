//! How the attacks of a round are shown: each attack has an indicator that
//! stands in the quadrant of its opening and bears the colour of its strike.
//! The first four indicators stand at the full distance from the centre, the
//! later ones, which run through the same quadrants again, at half of it.

use crate::attack_sequence::AttackSequence;
use crate::types::{Attack, Opening, Strike};
use vstd::prelude::*;

verus! {

/// The distance of the outer indicators from the centre, along each axis.
pub const DIST: i32 = 250;

/// The colour of an indicator.
#[derive(Clone, Copy, PartialEq, Eq, Debug, Structural)]
pub enum IndicatorColor {
    Red,
    White,
    Blue,
    Green,
}

/// Where an indicator stands, seen from the centre of the screen with the
/// vertical axis pointing up, and its colour.
#[derive(Clone, Copy, PartialEq, Eq, Debug, Structural)]
pub struct Indicator {
    pub x: i32,
    pub y: i32,
    pub color: IndicatorColor,
}

/// The colour in which `strike` is shown.
pub open spec fn color_of(strike: Strike) -> IndicatorColor {
    match strike {
        Strike::Flat => IndicatorColor::Red,
        Strike::Long => IndicatorColor::White,
        Strike::Short => IndicatorColor::Blue,
        Strike::Fehler => IndicatorColor::Green,
    }
}

/// The distance from the centre, along each axis, of the indicator at
/// `index`.
pub open spec fn reach(index: int) -> int {
    if index >= 4 {
        DIST / 2
    } else {
        DIST as int
    }
}

/// The side of `opening`: -1 for left, 1 for right.
pub open spec fn side(opening: Opening) -> int {
    match opening {
        Opening::TopLeft | Opening::BottomLeft => -1,
        Opening::TopRight | Opening::BottomRight => 1,
    }
}

/// The height of `opening`: -1 for bottom, 1 for top.
pub open spec fn height(opening: Opening) -> int {
    match opening {
        Opening::BottomLeft | Opening::BottomRight => -1,
        Opening::TopLeft | Opening::TopRight => 1,
    }
}

/// How the indicator at `index` is shown for the attacks `sequence`: not at
/// all where the sequence has no attack at `index`.
pub open spec fn indicator_of(sequence: Seq<Attack>, index: int) -> Option<Indicator> {
    if 0 <= index < sequence.len() {
        Some(
            Indicator {
                x: (side(sequence[index].opening) * reach(index)) as i32,
                y: (height(sequence[index].opening) * reach(index)) as i32,
                color: color_of(sequence[index].strike),
            },
        )
    } else {
        None
    }
}

/// The colour in which `strike` is shown.
pub fn strike_color(strike: Strike) -> (color: IndicatorColor)
    ensures
        color == color_of(strike),
{
    match strike {
        Strike::Flat => IndicatorColor::Red,
        Strike::Long => IndicatorColor::White,
        Strike::Short => IndicatorColor::Blue,
        Strike::Fehler => IndicatorColor::Green,
    }
}

/// How the indicator at `index` is shown for `attack_sequence`; `None` where
/// it is hidden.
pub fn position_attack_indicator(attack_sequence: &AttackSequence, index: usize) -> (shown: Option<
    Indicator,
>)
    ensures
        shown == indicator_of(attack_sequence@, index as int),
{
    if index < attack_sequence.len() {
        let attack = attack_sequence[index];
        let reach: i32 = if index > 3 {
            DIST / 2
        } else {
            DIST
        };
        let (x, y) = match attack.opening {
            Opening::TopLeft => (-reach, reach),
            Opening::TopRight => (reach, reach),
            Opening::BottomLeft => (-reach, -reach),
            Opening::BottomRight => (reach, -reach),
        };
        Some(Indicator { x, y, color: strike_color(attack.strike) })
    } else {
        None
    }
}

} // verus!
