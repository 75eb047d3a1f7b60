//! What holds of every frame, stated over the game's mathematical model.

use crate::body::{advanced, lemma_advance, occupies, turned};
use crate::food::is_free;
use crate::game::{lemma_turn, lemma_within_reach, Collision, FrameInput, GameView};
use crate::grid::{Direction, Position};
use crate::input::{lemma_resolve, spec_enqueue, spec_resolve};
use crate::score::{lemma_difficulty_idempotent, SCORE_DELTA};
use crate::state::GameState;
use vstd::prelude::*;

verus! {

/// A running frame never removes a segment, and adds exactly one exactly
/// when the head reaches the food. A frame that neither runs nor restarts
/// leaves the snake as it is.
pub proof fn lemma_segment_count(v: GameView, input: FrameInput, food: Option<Position>)
    requires
        v.segments.len() >= 1,
    ensures
        v.after_steps(input).segments.len() == v.segments.len(),
        v.state == GameState::Running ==> v.after_frame(input, food).segments.len()
            == v.segments.len() + (if v.frame_collision(input) == Collision::Food {
            1int
        } else {
            0int
        }),
        v.state != GameState::Running && !v.restarts(input) ==> v.after_frame(
            input,
            food,
        ).segments == v.segments,
{
}

/// Whatever is queued and pressed, the movement step never turns the head to
/// the reverse of the heading it had before; the new heading is the old one
/// or one of the queued or pressed headings.
pub proof fn lemma_head_never_reverses(v: GameView, pressed: Seq<Direction>, delta: u64)
    requires
        v.segments.len() >= 1,
    ensures
        v.after_move(pressed, delta).segments[0].direction
            != v.segments[0].direction.spec_reverse(),
        v.after_move(pressed, delta).segments[0].direction == v.segments[0].direction
            || spec_enqueue(v.queue, pressed).contains(
            v.after_move(pressed, delta).segments[0].direction,
        ),
        v.after_move(pressed, delta).queue.len() <= spec_enqueue(v.queue, pressed).len(),
{
    let head = v.segments[0].direction;
    crate::grid::lemma_reverse(head);
    lemma_resolve(spec_enqueue(v.queue, pressed), head);
}

/// When the snake moves, every segment behind the head takes over the
/// heading that the segment before it had when the move began: the first one
/// the heading that the head moves along, each later one the heading of its
/// predecessor before the frame. Each of them lands on the cell that its
/// predecessor left.
pub proof fn lemma_headings_follow(v: GameView, pressed: Seq<Direction>, delta: u64)
    requires
        v.inv(),
        v.fires(delta),
    ensures
        v.after_move(pressed, delta).segments.len() == v.segments.len(),
        v.segments.len() > 1 ==> v.after_move(pressed, delta).segments[1].direction == v.after_move(
            pressed,
            delta,
        ).segments[0].direction,
        forall|i: int|
            2 <= i < v.segments.len() ==> (#[trigger] v.after_move(
                pressed,
                delta,
            ).segments[i]).direction == v.segments[i - 1].direction,
        forall|i: int|
            1 <= i < v.segments.len() ==> (#[trigger] v.after_move(
                pressed,
                delta,
            ).segments[i]).position == v.segments[i - 1].position,
{
    let d = spec_resolve(spec_enqueue(v.queue, pressed), v.segments[0].direction).0;
    let t = turned(v.segments, d);
    lemma_turn(v.segments, d);
    lemma_within_reach(t);
    lemma_advance(t);
    assert(v.after_move(pressed, delta).segments == advanced(t));
}

/// Food that was just placed shares its cell with no segment.
pub proof fn lemma_food_is_clear(v: GameView)
    requires
        v.food_fits(),
    ensures
        v.food matches Some(p) ==> forall|i: int|
            0 <= i < v.segments.len() ==> (#[trigger] v.segments[i]).position != p,
{
    if let Some(p) = v.food {
        assert(is_free(v.segments, p));
        assert forall|i: int| 0 <= i < v.segments.len() implies (
        #[trigger] v.segments[i]).position != p by {
            if v.segments[i].position == p {
                assert(occupies(v.segments, p));
            }
        }
    }
}

/// Bringing the difficulty up to date twice is the same as doing it once: the
/// second update changes nothing and signals nothing.
pub proof fn lemma_difficulty_settles(v: GameView)
    ensures
        !v.after_difficulty().scoreboard.stale(),
        v.after_difficulty().after_difficulty() == v.after_difficulty(),
        !v.scoreboard.stale() ==> v.after_difficulty() == v,
{
    lemma_difficulty_idempotent(v.scoreboard);
}

/// A running frame adds exactly `SCORE_DELTA` points when the head reaches
/// the food and leaves the score alone otherwise; it never lowers it. A
/// frame that neither runs nor restarts leaves the score alone.
pub proof fn lemma_score(v: GameView, input: FrameInput, food: Option<Position>)
    requires
        v.inv(),
    ensures
        v.state == GameState::Running ==> v.after_frame(input, food).scoreboard.score
            == v.scoreboard.score + (if v.frame_collision(input) == Collision::Food {
            SCORE_DELTA as int
        } else {
            0int
        }),
        v.state != GameState::Running && !v.restarts(input) ==> v.after_frame(
            input,
            food,
        ).scoreboard == v.scoreboard,
{
    if v.state == GameState::Running && v.frame_collision(input) == Collision::Food {
        let m = v.after_steps(input);
        assert(m.segments.len() == v.segments.len());
        assert(m.scoreboard.score == v.scoreboard.score);
        assert(m.food is Some);
    }
}

} // verus!
