//! Food placement: a random free cell of the field.

use crate::board::in_field;
use crate::body::{occupies, Snake};
use crate::grid::{Position, SCREEN_HEIGHT, SCREEN_WIDTH};
use rand::Rng;
use vstd::prelude::*;

verus! {

/// Number of random cells tried before the field is searched cell by cell.
pub const MAX_FOOD_ATTEMPTS: usize = 4096;

/// Whether cell `p` lies in the field and no segment of `s` sits on it.
pub open spec fn is_free(s: Seq<crate::body::Segment>, p: Position) -> bool {
    in_field(p) && !occupies(s, p)
}

/// Whether cell `a` comes before cell `b` when the field is searched column
/// by column from the left, each column from the bottom.
pub open spec fn scanned_before(a: Position, b: Position) -> bool {
    a.x < b.x || (a.x == b.x && a.y < b.y)
}

/// Draws an integer between `low` and `high`, both included, from
/// `rand::thread_rng()` with `Rng::gen_range`.
///
/// Believed of `gen_range`, not proved here: with a range that is not empty
/// it returns a value inside the range. Which one is left open.
#[verifier::external_body]
fn random_between(low: i32, high: i32) -> (value: i32)
    requires
        low <= high,
    ensures
        low <= value <= high,
{
    rand::thread_rng().gen_range(low..=high)
}

/// A cell of the field drawn at random.
pub fn random_cell() -> (p: Position)
    ensures
        in_field(p),
{
    let x_pos: i32 = SCREEN_WIDTH / 2 - 1;
    let y_pos: i32 = SCREEN_HEIGHT / 2 - 1;
    Position::new(random_between(-x_pos, x_pos), random_between(-y_pos, y_pos))
}

/// The first free cell of the field in search order, or `None` where the
/// snake covers the whole field.
pub fn first_free_cell(snake: &Snake) -> (found: Option<Position>)
    ensures
        match found {
            Some(p) => is_free(snake@, p) && forall|q: Position|
                in_field(q) && scanned_before(q, p) ==> occupies(snake@, q),
            None => forall|q: Position| in_field(q) ==> occupies(snake@, q),
        },
{
    let x_pos: i32 = SCREEN_WIDTH / 2 - 1;
    let y_pos: i32 = SCREEN_HEIGHT / 2 - 1;
    let mut x: i32 = -x_pos;
    while x <= x_pos
        invariant
            x_pos == SCREEN_WIDTH / 2 - 1,
            y_pos == SCREEN_HEIGHT / 2 - 1,
            -x_pos <= x <= x_pos + 1,
            forall|q: Position| in_field(q) && q.x < x ==> occupies(snake@, q),
        decreases x_pos + 1 - x,
    {
        let mut y: i32 = -y_pos;
        while y <= y_pos
            invariant
                x_pos == SCREEN_WIDTH / 2 - 1,
                y_pos == SCREEN_HEIGHT / 2 - 1,
                -x_pos <= x <= x_pos,
                -y_pos <= y <= y_pos + 1,
                forall|q: Position| in_field(q) && q.x < x ==> occupies(snake@, q),
                forall|q: Position| in_field(q) && q.x == x && q.y < y ==> occupies(snake@, q),
            decreases y_pos + 1 - y,
        {
            let p = Position::new(x, y);
            if !snake.occupies(p) {
                return Some(p);
            }
            y = y + 1;
        }
        x = x + 1;
    }
    None
}

/// Decides on a cell that was drawn for new food: the cell is taken where it
/// lies in the field and no segment of the snake sits on it, and turned down
/// otherwise.
pub fn accept(snake: &Snake, candidate: Position) -> (food: Option<Position>)
    ensures
        food == (if is_free(snake@, candidate) {
            Some(candidate)
        } else {
            None
        }),
{
    let x_pos: i32 = SCREEN_WIDTH / 2 - 1;
    let y_pos: i32 = SCREEN_HEIGHT / 2 - 1;
    let inside = -x_pos <= candidate.x && candidate.x <= x_pos && -y_pos <= candidate.y
        && candidate.y <= y_pos;
    if inside && !snake.occupies(candidate) {
        Some(candidate)
    } else {
        None
    }
}

/// Picks the cell for new food: a cell of the field on which no segment of
/// the snake sits. Random cells are drawn up to `MAX_FOOD_ATTEMPTS` times and
/// the first one that `accept` takes is used; where each of them is turned
/// down, the first free cell in search order is used. Returns `None` exactly
/// when the snake covers the whole field.
pub fn spawn_food(snake: &Snake) -> (food: Option<Position>)
    ensures
        match food {
            Some(p) => is_free(snake@, p),
            None => forall|q: Position| in_field(q) ==> occupies(snake@, q),
        },
{
    let mut attempts: usize = 0;
    while attempts < MAX_FOOD_ATTEMPTS
        invariant
            attempts <= MAX_FOOD_ATTEMPTS,
        decreases MAX_FOOD_ATTEMPTS - attempts,
    {
        let taken = accept(snake, random_cell());
        if taken.is_some() {
            return taken;
        }
        attempts = attempts + 1;
    }
    first_free_cell(snake)
}

} // verus!
