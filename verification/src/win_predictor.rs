//! The prediction of the winner of a match from the points and the capture
//! points of both teams.

use vstd::prelude::*;

verus! {

/// What the predictor says of a match.
#[derive(Clone, Copy, Debug, PartialEq, Eq, Structural)]
pub enum Prediction {
    /// A number is missing: nothing is predicted.
    Unknown,
    Team1Victory,
    Team2Victory,
    Tie,
}

/// The quotient of two numbers, rounded toward zero.
pub open spec fn quotient(a: int, b: int) -> int {
    if b == 0 {
        0
    } else if a >= 0 && b > 0 {
        a / b
    } else if a < 0 && b > 0 {
        -((-a) / b)
    } else if a >= 0 && b < 0 {
        -(a / (-b))
    } else {
        (-a) / (-b)
    }
}

/// The number of ticks until a team with `points` points that holds `caps`
/// capture points has `victory_points` points, two points a tick for each
/// capture point.
pub open spec fn ticks_until_victory(victory_points: int, points: int, caps: int) -> int {
    quotient(quotient(victory_points - points, caps), 2)
}

/// What the predictor says: nothing where a number is 0, else the team that
/// needs fewer ticks, or a tie.
pub open spec fn predicted(points_1: int, points_2: int, caps_1: int, caps_2: int, victory_points: int) -> Prediction {
    if caps_1 == 0 || caps_2 == 0 || victory_points == 0 || points_1 == 0 || points_2 == 0 {
        Prediction::Unknown
    } else {
        let ticks_1 = ticks_until_victory(victory_points, points_1, caps_1);
        let ticks_2 = ticks_until_victory(victory_points, points_2, caps_2);
        if ticks_1 > ticks_2 {
            Prediction::Team2Victory
        } else if ticks_1 < ticks_2 {
            Prediction::Team1Victory
        } else {
            Prediction::Tie
        }
    }
}

/// The quotient of two numbers, rounded toward zero.
fn divide(a: i64, b: i64) -> (q: i64)
    requires
        b != 0,
        -0x1_0000_0000 <= a <= 0x1_0000_0000,
    ensures
        q == quotient(a as int, b as int),
        -0x1_0000_0000 <= q <= 0x1_0000_0000,
{
    if b == i64::MIN {
        proof {
            assert(quotient(a as int, b as int) == 0) by (nonlinear_arith)
                requires
                    -0x1_0000_0000 <= a <= 0x1_0000_0000,
                    b == -0x8000_0000_0000_0000,
            ;
        }
        return 0;
    }
    let x: u64 = if a >= 0 {
        a as u64
    } else {
        (-a) as u64
    };
    let y: u64 = if b > 0 {
        b as u64
    } else {
        (-b) as u64
    };
    let magnitude = x / y;
    assert(magnitude <= x) by (nonlinear_arith)
        requires
            magnitude == x / y,
            y >= 1,
    ;
    if (a >= 0) == (b > 0) {
        magnitude as i64
    } else {
        -(magnitude as i64)
    }
}

/// Predicts the winner of a match.
pub fn predict(points_1: i32, points_2: i32, caps_1: i32, caps_2: i32, victory_points: i32) -> (p:
    Prediction)
    ensures
        p == predicted(
            points_1 as int,
            points_2 as int,
            caps_1 as int,
            caps_2 as int,
            victory_points as int,
        ),
{
    if caps_1 == 0 || caps_2 == 0 || victory_points == 0 || points_1 == 0 || points_2 == 0 {
        return Prediction::Unknown;
    }
    let ticks_1 = divide(divide(victory_points as i64 - points_1 as i64, caps_1 as i64), 2);
    let ticks_2 = divide(divide(victory_points as i64 - points_2 as i64, caps_2 as i64), 2);
    if ticks_1 > ticks_2 {
        Prediction::Team2Victory
    } else if ticks_1 < ticks_2 {
        Prediction::Team1Victory
    } else {
        Prediction::Tie
    }
}

impl Prediction {
    /// The prediction in words, empty where nothing is predicted.
    pub fn text(self) -> (text: &'static str)
        ensures
            text@ == match self {
                Prediction::Unknown => ""@,
                Prediction::Team1Victory => "Team 1 Victory"@,
                Prediction::Team2Victory => "Team 2 Victory"@,
                Prediction::Tie => "Tie"@,
            },
    {
        match self {
            Prediction::Unknown => "",
            Prediction::Team1Victory => "Team 1 Victory",
            Prediction::Team2Victory => "Team 2 Victory",
            Prediction::Tie => "Tie",
        }
    }
}

} // verus!
