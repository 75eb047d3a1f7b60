//! The snake: an ordered chain of segments, head first.

use crate::grid::{lemma_reverse, Direction, Position};
use vstd::prelude::*;

verus! {

/// Number of segments at the start of a game.
pub const SNAKE_STARTING_LENGTH: usize = 4;

/// Column of the head at the start of a game.
pub const SNAKE_STARTING_X: i32 = 0;

/// Row of the head at the start of a game.
pub const SNAKE_STARTING_Y: i32 = 0;

/// Heading of every segment at the start of a game.
pub const SNAKE_STARTING_DIRECTION: Direction = Direction::Right;

/// Largest number of segments a snake can have. A snake of this length is
/// given no more food, so that it never has to grow beyond it.
pub const MAX_SEGMENTS: usize = 1_048_576;

/// One block of the snake.
#[derive(Clone, Copy, Debug, PartialEq, Eq, Structural)]
pub struct Segment {
    /// Place in the chain: 0 for the head, rising toward the tail.
    pub id: u32,
    pub position: Position,
    /// The heading along which the segment takes its next step.
    pub direction: Direction,
}

impl Segment {
    /// A segment with the given place, cell and heading.
    pub fn new(id: u32, position: Position, direction: Direction) -> (s: Segment)
        ensures
            s == (Segment { id, position, direction }),
    {
        Segment { id, position, direction }
    }

    /// The segment after one step along its heading, with `direction` as its
    /// next heading.
    pub open spec fn stepped(self, direction: Direction) -> Segment {
        Segment {
            id: self.id,
            position: self.position.stepped(self.direction.spec_velocity()),
            direction,
        }
    }

    /// The segment that is appended behind this one when the snake grows: one
    /// step against this segment's heading, with the same heading and the next
    /// place in the chain.
    pub open spec fn follower(self) -> Segment {
        Segment {
            id: (self.id + 1) as u32,
            position: self.position.stepped(self.direction.spec_reverse().spec_velocity()),
            direction: self.direction,
        }
    }
}

/// Whether the segment at place `i` is one step along its own heading away
/// from the segment before it.
pub open spec fn linked(s: Seq<Segment>, i: int) -> bool {
    &&& s[i].position.x + s[i].direction.spec_velocity().x == s[i - 1].position.x
    &&& s[i].position.y + s[i].direction.spec_velocity().y == s[i - 1].position.y
}

/// Each segment but the head is linked to the segment before it.
pub open spec fn connected(s: Seq<Segment>) -> bool {
    forall|i: int| 1 <= i < s.len() ==> #[trigger] linked(s, i)
}

/// A chain of segments is a snake where it has a head, no more than
/// `MAX_SEGMENTS` segments, places counted from zero, and no gaps.
pub open spec fn is_snake(s: Seq<Segment>) -> bool {
    &&& 1 <= s.len() <= MAX_SEGMENTS
    &&& forall|i: int| 0 <= i < s.len() ==> (#[trigger] s[i]).id == i
    &&& connected(s)
}

/// The snake at the start of a game: a straight line from the starting cell
/// against the starting heading.
pub open spec fn initial_segments() -> Seq<Segment> {
    Seq::new(
        SNAKE_STARTING_LENGTH as nat,
        |i: int|
            Segment {
                id: i as u32,
                position: {
                    let back = SNAKE_STARTING_DIRECTION.spec_reverse().spec_velocity();
                    Position {
                        x: (SNAKE_STARTING_X + i * back.x) as i32,
                        y: (SNAKE_STARTING_Y + i * back.y) as i32,
                    }
                },
                direction: SNAKE_STARTING_DIRECTION,
            },
    )
}

/// Whether every segment can take a step without leaving the coordinate type.
pub open spec fn can_advance(s: Seq<Segment>) -> bool {
    forall|i: int|
        0 <= i < s.len() ==> (#[trigger] s[i]).position.can_apply(s[i].direction.spec_velocity())
}

/// The chain after one move: every segment steps along its own heading; the
/// head keeps its heading and every other segment takes over the heading
/// that the segment before it had.
pub open spec fn advanced(s: Seq<Segment>) -> Seq<Segment> {
    Seq::new(
        s.len(),
        |i: int|
            s[i].stepped(
                if i == 0 {
                    s[0].direction
                } else {
                    s[i - 1].direction
                },
            ),
    )
}

/// Whether a segment can be appended behind the tail.
pub open spec fn can_grow(s: Seq<Segment>) -> bool {
    &&& 1 <= s.len() < MAX_SEGMENTS
    &&& s.last().position.can_apply(s.last().direction.spec_reverse().spec_velocity())
}

/// The chain with one segment appended behind the tail.
pub open spec fn grown(s: Seq<Segment>) -> Seq<Segment> {
    s.push(s.last().follower())
}

/// The chain with the head turned to `direction`.
pub open spec fn turned(s: Seq<Segment>, direction: Direction) -> Seq<Segment> {
    s.update(0, Segment { direction, ..s[0] })
}

/// Whether some segment sits on cell `p`.
pub open spec fn occupies(s: Seq<Segment>, p: Position) -> bool {
    exists|i: int| 0 <= i < s.len() && (#[trigger] s[i]).position == p
}

/// The snake's body.
#[derive(Clone, Debug)]
pub struct Snake {
    pub segments: Vec<Segment>,
}

impl View for Snake {
    type V = Seq<Segment>;

    open spec fn view(&self) -> Seq<Segment> {
        self.segments@
    }
}

impl Snake {
    /// The body is a well-formed chain.
    pub open spec fn wf(&self) -> bool {
        is_snake(self@)
    }

    /// The snake at the start of a game.
    pub fn new() -> (snake: Snake)
        ensures
            snake@ == initial_segments(),
            snake.wf(),
    {
        let offset = SNAKE_STARTING_DIRECTION.reverse().velocity();
        let mut segments: Vec<Segment> = Vec::new();
        let mut i: usize = 0;
        while i < SNAKE_STARTING_LENGTH
            invariant
                i <= SNAKE_STARTING_LENGTH,
                offset == SNAKE_STARTING_DIRECTION.spec_reverse().spec_velocity(),
                segments@.len() == i,
                forall|j: int| 0 <= j < i ==> segments@[j] == initial_segments()[j],
            decreases SNAKE_STARTING_LENGTH - i,
        {
            let step: i32 = i as i32;
            let position = Position::new(
                SNAKE_STARTING_X + step * offset.x,
                SNAKE_STARTING_Y + step * offset.y,
            );
            segments.push(Segment::new(i as u32, position, SNAKE_STARTING_DIRECTION));
            i = i + 1;
        }
        proof {
            assert(segments@ == initial_segments());
            lemma_initial_segments();
        }
        Snake { segments }
    }

    /// Checks at run time whether the body is a well-formed chain.
    pub fn is_valid(&self) -> (ok: bool)
        ensures
            ok == self.wf(),
    {
        let n: usize = self.segments.len();
        if n < 1 || n > MAX_SEGMENTS {
            return false;
        }
        let mut i: usize = 0;
        while i < n
            invariant
                i <= n,
                n == self@.len(),
                1 <= n <= MAX_SEGMENTS,
                forall|j: int| 0 <= j < i ==> (#[trigger] self@[j]).id == j,
                forall|j: int| 1 <= j < i ==> #[trigger] linked(self@, j),
            decreases n - i,
        {
            let segment = self.segments[i];
            if segment.id as usize != i {
                return false;
            }
            if i > 0 {
                let before = self.segments[i - 1];
                let step = segment.direction.velocity();
                let x: i64 = segment.position.x as i64 + step.x as i64;
                let y: i64 = segment.position.y as i64 + step.y as i64;
                if x != before.position.x as i64 || y != before.position.y as i64 {
                    assert(!linked(self@, i as int));
                    return false;
                }
                assert(linked(self@, i as int));
            }
            i = i + 1;
        }
        true
    }

    /// Number of segments.
    pub fn len(&self) -> (n: usize)
        ensures
            n == self@.len(),
    {
        self.segments.len()
    }

    /// The first segment.
    pub fn head(&self) -> (s: Segment)
        requires
            self@.len() > 0,
        ensures
            s == self@[0],
    {
        self.segments[0]
    }

    /// The last segment.
    pub fn tail(&self) -> (s: Segment)
        requires
            self@.len() > 0,
        ensures
            s == self@.last(),
    {
        self.segments[self.segments.len() - 1]
    }

    /// The segment at place `index`.
    pub fn get(&self, index: usize) -> (s: Option<Segment>)
        ensures
            index < self@.len() ==> s == Some(self@[index as int]),
            index >= self@.len() ==> s is None,
    {
        if index < self.segments.len() {
            Some(self.segments[index])
        } else {
            None
        }
    }

    /// Whether some segment sits on cell `p`.
    pub fn occupies(&self, p: Position) -> (hit: bool)
        ensures
            hit == occupies(self@, p),
    {
        let mut i: usize = 0;
        while i < self.segments.len()
            invariant
                i <= self@.len(),
                forall|j: int| 0 <= j < i ==> (#[trigger] self@[j]).position != p,
            decreases self@.len() - i,
        {
            if self.segments[i].position == p {
                return true;
            }
            i = i + 1;
        }
        false
    }

    /// Turns the head to `direction`. The other segments keep their headings.
    pub fn turn(&mut self, direction: Direction)
        requires
            old(self)@.len() > 0,
        ensures
            final(self)@ == turned(old(self)@, direction),
    {
        let head = self.segments[0];
        self.segments.set(0, Segment::new(head.id, head.position, direction));
    }

    /// Moves the snake by one cell: every segment, head to tail, steps along
    /// its own heading and then takes over the heading that the segment
    /// before it had when the move began. The head keeps its heading.
    pub fn advance(&mut self)
        requires
            can_advance(old(self)@),
        ensures
            final(self)@ == advanced(old(self)@),
            final(self)@.len() == old(self)@.len(),
    {
        let ghost start = self@;
        let n: usize = self.segments.len();
        let mut prev_dir: Option<Direction> = None;
        let mut i: usize = 0;
        while i < n
            invariant
                i <= n,
                n == start.len(),
                self@.len() == n,
                can_advance(start),
                forall|j: int| 0 <= j < i ==> self@[j] == advanced(start)[j],
                forall|j: int| i <= j < n ==> self@[j] == start[j],
                i == 0 ==> prev_dir is None,
                i > 0 ==> prev_dir == Some(start[i - 1].direction),
            decreases n - i,
        {
            let segment = self.segments[i];
            let mut position = segment.position;
            assert(start[i as int].position.can_apply(start[i as int].direction.spec_velocity()));
            position.apply_vel(&segment.direction.velocity());
            let direction = match prev_dir {
                Some(d) => d,
                None => segment.direction,
            };
            prev_dir = Some(segment.direction);
            self.segments.set(i, Segment::new(segment.id, position, direction));
            i = i + 1;
        }
        assert(self@ == advanced(start));
    }

    /// Appends one segment behind the tail: one step against the tail's
    /// heading, with the tail's heading and the next place in the chain.
    pub fn grow(&mut self)
        requires
            old(self).wf(),
            can_grow(old(self)@),
        ensures
            final(self)@ == grown(old(self)@),
            final(self).wf(),
    {
        let tail = self.tail();
        let offset = tail.direction.reverse().velocity();
        let mut position = tail.position;
        position.apply_vel(&offset);
        proof {
            lemma_grow(self@);
        }
        self.segments.push(Segment::new(tail.id + 1, position, tail.direction));
    }
}

/// The starting snake is well formed: four segments in a row to the left of
/// the starting cell, all heading right.
pub proof fn lemma_initial_segments()
    ensures
        is_snake(initial_segments()),
        initial_segments().len() == SNAKE_STARTING_LENGTH,
        forall|i: int|
            0 <= i < SNAKE_STARTING_LENGTH ==> #[trigger] initial_segments()[i] == (Segment {
                id: i as u32,
                position: Position { x: (-i) as i32, y: 0 },
                direction: Direction::Right,
            }),
{
    let s = initial_segments();
    assert forall|i: int| 0 <= i < SNAKE_STARTING_LENGTH implies #[trigger] s[i] == (Segment {
        id: i as u32,
        position: Position { x: (-i) as i32, y: 0 },
        direction: Direction::Right,
    }) by {
        assert(i * (-1) == -i && i * 0 == 0) by (nonlinear_arith);
    }
    assert forall|i: int| 1 <= i < s.len() implies #[trigger] linked(s, i) by {
        assert(s[i - 1].position.x == -(i - 1));
        assert(s[i].position.x == -i);
    }
}

/// A move keeps a snake a snake, changes no place in the chain and no
/// length, hands each heading one segment down the chain, and puts each
/// segment but the head on the cell that the segment before it left.
pub proof fn lemma_advance(s: Seq<Segment>)
    requires
        is_snake(s),
        can_advance(s),
    ensures
        is_snake(advanced(s)),
        advanced(s).len() == s.len(),
        advanced(s)[0].direction == s[0].direction,
        forall|i: int|
            1 <= i < s.len() ==> (#[trigger] advanced(s)[i]).direction == s[i - 1].direction,
        forall|i: int|
            1 <= i < s.len() ==> (#[trigger] advanced(s)[i]).position == s[i - 1].position,
{
    let t = advanced(s);
    assert forall|i: int| 1 <= i < s.len() implies (#[trigger] t[i]).position == s[i
        - 1].position by {
        assert(linked(s, i));
    }
    assert forall|i: int| 1 <= i < t.len() implies #[trigger] linked(t, i) by {
        assert(linked(s, i));
        assert(t[i].position == s[i - 1].position);
        assert(s[i - 1].position.can_apply(s[i - 1].direction.spec_velocity()));
        assert(s[i].position.can_apply(s[i].direction.spec_velocity()));
    }
}

/// Growth keeps a snake a snake, adds exactly one segment and moves none.
pub proof fn lemma_grow(s: Seq<Segment>)
    requires
        is_snake(s),
        can_grow(s),
    ensures
        is_snake(grown(s)),
        grown(s).len() == s.len() + 1,
        forall|i: int| 0 <= i < s.len() ==> #[trigger] grown(s)[i] == s[i],
{
    let t = grown(s);
    let tail = s.last();
    lemma_reverse(tail.direction);
    assert(tail.id == s.len() - 1);
    assert forall|i: int| 1 <= i < t.len() implies #[trigger] linked(t, i) by {
        if i < s.len() {
            assert(linked(s, i));
            assert(t[i] == s[i]);
            assert(t[i - 1] == s[i - 1]);
        } else {
            assert(t[i] == tail.follower());
            assert(t[i - 1] == tail);
        }
    }
}

/// No segment is farther from the head than its place in the chain, counted
/// in steps on each axis.
pub proof fn lemma_reach(s: Seq<Segment>, i: int)
    requires
        is_snake(s),
        0 <= i < s.len(),
    ensures
        s[0].position.x - i <= s[i].position.x <= s[0].position.x + i,
        s[0].position.y - i <= s[i].position.y <= s[0].position.y + i,
    decreases i,
{
    if i > 0 {
        lemma_reach(s, i - 1);
        assert(linked(s, i));
    }
}

} // verus!
