use vstd::prelude::*;

use crate::collision::min_int;
use crate::position::Position;

verus! {

/// The formation turns once a member reaches this distance from the centre
/// line, on either side: 300 pixels, in thousandths of a pixel.
pub const SCREEN_BOUNDARY_X: i64 = 300_000;

/// How far the formation drops at an edge: 24 pixels, in thousandths of a
/// pixel.
pub const DOWN_STEP_Y: i64 = 24_000;

/// The one movement state that the whole formation shares.
#[derive(Clone, Copy, Debug, PartialEq, Eq, Structural)]
pub enum AlienMovement {
    Left,
    Right,
    /// Dropping; `pixels_left_to_move` is the rest of the drop in thousandths
    /// of a pixel, after which the formation goes left or right.
    Down { pixels_left_to_move: i64, should_move_left_after: bool },
}

impl Default for AlienMovement {
    /// A round starts with the formation going right.
    fn default() -> (m: AlienMovement)
        ensures
            m == AlienMovement::Right,
    {
        AlienMovement::Right
    }
}

/// Speed of the formation in pixels per second, which is also thousandths of
/// a pixel per millisecond.
#[derive(Clone, Copy, Debug, PartialEq, Eq, Structural)]
pub struct AlienVelocity(pub u32);

impl Default for AlienVelocity {
    /// 100 pixels per second.
    fn default() -> (v: AlienVelocity)
        ensures
            v.0 == 100,
    {
        AlienVelocity(100)
    }
}

/// Distance covered in `dt_ms` milliseconds at `velocity`, in thousandths of
/// a pixel.
pub open spec fn tick_distance(velocity: AlienVelocity, dt_ms: u32) -> int {
    velocity.0 * dt_ms
}

/// How far every member moves along x and along y in a tick of distance `d`.
pub open spec fn displacement(state: AlienMovement, d: int) -> (int, int) {
    match state {
        AlienMovement::Left => (-d, 0),
        AlienMovement::Right => (d, 0),
        AlienMovement::Down { pixels_left_to_move, .. } => (0, -min_int(pixels_left_to_move as int, d)),
    }
}

/// `p` moved by (`dx`, `dy`).
pub open spec fn shifted(p: Position, dx: int, dy: int) -> Position {
    Position { x: (p.x + dx) as i32, y: (p.y + dy) as i32 }
}

/// Every member's moved coordinates fit in a coordinate.
pub open spec fn movement_fits(state: AlienMovement, d: int, positions: Seq<Position>) -> bool {
    let (dx, dy) = displacement(state, d);
    forall|i: int|
        0 <= i < positions.len() ==> i32::MIN <= #[trigger] positions[i].x + dx <= i32::MAX
            && i32::MIN <= positions[i].y + dy <= i32::MAX
}

/// The positions after a tick of distance `d`: the whole formation shifted
/// by one and the same displacement.
pub open spec fn moved_positions(state: AlienMovement, d: int, positions: Seq<Position>) -> Seq<Position> {
    let (dx, dy) = displacement(state, d);
    positions.map_values(|p: Position| shifted(p, dx, dy))
}

/// Some member stands at or beyond the left boundary: the formation's
/// smallest x is at most `-SCREEN_BOUNDARY_X`.
pub open spec fn reached_left(positions: Seq<Position>) -> bool {
    exists|i: int| 0 <= i < positions.len() && #[trigger] positions[i].x <= -SCREEN_BOUNDARY_X
}

/// Some member stands at or beyond the right boundary: the formation's
/// largest x is at least `SCREEN_BOUNDARY_X`.
pub open spec fn reached_right(positions: Seq<Position>) -> bool {
    exists|i: int| 0 <= i < positions.len() && #[trigger] positions[i].x >= SCREEN_BOUNDARY_X
}

/// The state after a tick of distance `d` that left the formation at `moved`.
/// An empty formation has no extreme member, so it never turns.
pub open spec fn next_movement(state: AlienMovement, d: int, moved: Seq<Position>) -> AlienMovement {
    match state {
        AlienMovement::Left => if reached_left(moved) {
            AlienMovement::Down { pixels_left_to_move: DOWN_STEP_Y, should_move_left_after: false }
        } else {
            AlienMovement::Left
        },
        AlienMovement::Right => if reached_right(moved) {
            AlienMovement::Down { pixels_left_to_move: DOWN_STEP_Y, should_move_left_after: true }
        } else {
            AlienMovement::Right
        },
        AlienMovement::Down { pixels_left_to_move, should_move_left_after } => if pixels_left_to_move - d <= 0 {
            if should_move_left_after {
                AlienMovement::Left
            } else {
                AlienMovement::Right
            }
        } else {
            AlienMovement::Down {
                pixels_left_to_move: (pixels_left_to_move - d) as i64,
                should_move_left_after,
            }
        },
    }
}

/// The formation moves as one rigid body: in a tick every member is
/// displaced by the same vector, so the distances between members never
/// change.
pub proof fn lemma_formation_moves_rigidly(state: AlienMovement, d: int, positions: Seq<Position>, i: int, j: int)
    requires
        movement_fits(state, d, positions),
        0 <= i < positions.len(),
        0 <= j < positions.len(),
    ensures
        ({
            let moved = moved_positions(state, d, positions);
            &&& moved[i].x - positions[i].x == moved[j].x - positions[j].x
            &&& moved[i].y - positions[i].y == moved[j].y - positions[j].y
        }),
{
    let (dx, dy) = displacement(state, d);
    assert(i32::MIN <= positions[i].x + dx <= i32::MAX && i32::MIN <= positions[i].y + dy <= i32::MAX);
    assert(i32::MIN <= positions[j].x + dx <= i32::MAX && i32::MIN <= positions[j].y + dy <= i32::MAX);
}

/// The rest of a drop never grows: a tick that stays in `Down` leaves no more
/// to drop than before, and a drop always starts with the full `DOWN_STEP_Y`.
pub proof fn lemma_drop_never_grows(state: AlienMovement, d: int, moved: Seq<Position>)
    requires
        d >= 0,
    ensures
        next_movement(state, d, moved) matches AlienMovement::Down { pixels_left_to_move: after, .. } ==> (
        match state {
            AlienMovement::Down { pixels_left_to_move: before, .. } => 0 < after <= before,
            _ => after == DOWN_STEP_Y,
        }),
{
}

/// One tick of the formation: moves every member by the state's displacement
/// for `dt_ms` milliseconds at `velocity` (left, right, or down by the rest of
/// the drop at most), then decides the next state. Going left, the formation
/// drops once its leftmost member reaches `-SCREEN_BOUNDARY_X`; going right,
/// once its rightmost member reaches `SCREEN_BOUNDARY_X`; dropping, it turns
/// once the drop is done.
pub fn advance_movement(state: AlienMovement, dt_ms: u32, velocity: AlienVelocity, positions: &Vec<Position>) -> (r: (AlienMovement, Vec<Position>))
    requires
        movement_fits(state, tick_distance(velocity, dt_ms), positions@),
    ensures
        r.1@ == moved_positions(state, tick_distance(velocity, dt_ms), positions@),
        r.0 == next_movement(state, tick_distance(velocity, dt_ms), r.1@),
{
    proof {
        let v = velocity.0;
        assert(v * dt_ms <= u32::MAX * u32::MAX) by (nonlinear_arith)
            requires
                v <= u32::MAX,
                dt_ms <= u32::MAX,
        ;
    }
    let d: u64 = velocity.0 as u64 * dt_ms as u64;
    let ghost gd = tick_distance(velocity, dt_ms);
    let ghost expected = moved_positions(state, gd, positions@);
    let mut moved: Vec<Position> = Vec::new();
    let mut i: usize = 0;
    while i < positions.len()
        invariant
            d == gd,
            gd == tick_distance(velocity, dt_ms),
            movement_fits(state, gd, positions@),
            expected == moved_positions(state, gd, positions@),
            i <= positions@.len(),
            moved@.len() == i,
            forall|j: int| 0 <= j < i ==> #[trigger] moved@[j] == expected[j],
        decreases positions@.len() - i,
    {
        let p = positions[i];
        assert(i32::MIN <= positions@[i as int].x + displacement(state, gd).0 <= i32::MAX);
        let q = match state {
            AlienMovement::Left => Position { x: (p.x as i64 - d as i64) as i32, y: p.y },
            AlienMovement::Right => Position { x: (p.x as i64 + d as i64) as i32, y: p.y },
            AlienMovement::Down { pixels_left_to_move, .. } => {
                let drop: i64 = if pixels_left_to_move <= 0 || (pixels_left_to_move as u64) < d {
                    pixels_left_to_move
                } else {
                    d as i64
                };
                Position { x: p.x, y: (p.y as i64 - drop) as i32 }
            },
        };
        moved.push(q);
        i = i + 1;
    }
    assert(moved@ =~= expected);

    let next = match state {
        AlienMovement::Left => {
            if any_at_left_boundary(&moved) {
                AlienMovement::Down { pixels_left_to_move: DOWN_STEP_Y, should_move_left_after: false }
            } else {
                AlienMovement::Left
            }
        },
        AlienMovement::Right => {
            if any_at_right_boundary(&moved) {
                AlienMovement::Down { pixels_left_to_move: DOWN_STEP_Y, should_move_left_after: true }
            } else {
                AlienMovement::Right
            }
        },
        AlienMovement::Down { pixels_left_to_move, should_move_left_after } => {
            if pixels_left_to_move <= 0 || (pixels_left_to_move as u64) <= d {
                if should_move_left_after {
                    AlienMovement::Left
                } else {
                    AlienMovement::Right
                }
            } else {
                AlienMovement::Down { pixels_left_to_move: pixels_left_to_move - d as i64, should_move_left_after }
            }
        },
    };
    (next, moved)
}

/// Whether some position lies at or beyond the left boundary.
fn any_at_left_boundary(positions: &Vec<Position>) -> (r: bool)
    ensures
        r == reached_left(positions@),
{
    let mut i: usize = 0;
    while i < positions.len()
        invariant
            i <= positions@.len(),
            forall|j: int| 0 <= j < i ==> !(#[trigger] positions@[j].x <= -SCREEN_BOUNDARY_X),
        decreases positions@.len() - i,
    {
        if positions[i].x as i64 <= -SCREEN_BOUNDARY_X {
            return true;
        }
        i = i + 1;
    }
    false
}

/// Whether some position lies at or beyond the right boundary.
fn any_at_right_boundary(positions: &Vec<Position>) -> (r: bool)
    ensures
        r == reached_right(positions@),
{
    let mut i: usize = 0;
    while i < positions.len()
        invariant
            i <= positions@.len(),
            forall|j: int| 0 <= j < i ==> !(#[trigger] positions@[j].x >= SCREEN_BOUNDARY_X),
        decreases positions@.len() - i,
    {
        if positions[i].x as i64 >= SCREEN_BOUNDARY_X {
            return true;
        }
        i = i + 1;
    }
    false
}

} // verus!
