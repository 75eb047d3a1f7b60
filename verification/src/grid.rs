//! Grid coordinates, headings, and the pixel-space boxes used for overlap tests.

use vstd::prelude::*;

verus! {

/// Edge length of one grid cell in pixels.
pub const BLOCK_SIZE: i32 = 20;

/// Board width in cells, walls included on both sides.
pub const SCREEN_WIDTH: i32 = 40;

/// Board height in cells, walls included on both sides.
pub const SCREEN_HEIGHT: i32 = 22;

/// A step on the grid.
#[derive(Clone, Copy, Debug, PartialEq, Eq, Structural)]
pub struct Velocity {
    pub x: i32,
    pub y: i32,
}

/// One of the four headings a snake segment can have.
#[derive(Clone, Copy, Debug, PartialEq, Eq, Structural)]
pub enum Direction {
    Left,
    Right,
    Down,
    Up,
}

impl Direction {
    /// The opposite heading.
    pub open spec fn spec_reverse(self) -> Direction {
        match self {
            Direction::Left => Direction::Right,
            Direction::Right => Direction::Left,
            Direction::Down => Direction::Up,
            Direction::Up => Direction::Down,
        }
    }

    /// The unit step taken when moving along this heading.
    pub open spec fn spec_velocity(self) -> Velocity {
        match self {
            Direction::Left => Velocity { x: -1i32, y: 0 },
            Direction::Right => Velocity { x: 1, y: 0 },
            Direction::Down => Velocity { x: 0, y: -1i32 },
            Direction::Up => Velocity { x: 0, y: 1 },
        }
    }

    /// The unit step taken when moving along this heading.
    pub fn velocity(&self) -> (v: Velocity)
        ensures
            v == self.spec_velocity(),
    {
        match self {
            Direction::Left => Velocity { x: -1, y: 0 },
            Direction::Right => Velocity { x: 1, y: 0 },
            Direction::Down => Velocity { x: 0, y: -1 },
            Direction::Up => Velocity { x: 0, y: 1 },
        }
    }

    /// The opposite heading: left and right swap, up and down swap.
    pub fn reverse(&self) -> (r: Direction)
        ensures
            r == self.spec_reverse(),
    {
        match self {
            Direction::Left => Direction::Right,
            Direction::Right => Direction::Left,
            Direction::Down => Direction::Up,
            Direction::Up => Direction::Down,
        }
    }
}

/// Reversing twice gives the heading back, a heading never equals its own
/// reverse, and the reverse heading steps the opposite way.
pub proof fn lemma_reverse(d: Direction)
    ensures
        d.spec_reverse().spec_reverse() == d,
        d.spec_reverse() != d,
        d.spec_reverse().spec_velocity().x == -d.spec_velocity().x,
        d.spec_reverse().spec_velocity().y == -d.spec_velocity().y,
{
}

/// A cell of the grid.
#[derive(Clone, Copy, Debug, PartialEq, Eq, Structural)]
pub struct Position {
    pub x: i32,
    pub y: i32,
}

impl Position {
    pub fn new(x: i32, y: i32) -> (p: Position)
        ensures
            p.x == x,
            p.y == y,
    {
        Position { x, y }
    }

    /// Whether stepping by `v` stays within the coordinate type.
    pub open spec fn can_apply(self, v: Velocity) -> bool {
        &&& i32::MIN <= self.x + v.x <= i32::MAX
        &&& i32::MIN <= self.y + v.y <= i32::MAX
    }

    /// The cell reached by stepping by `v`.
    pub open spec fn stepped(self, v: Velocity) -> Position
        recommends
            self.can_apply(v),
    {
        Position { x: (self.x + v.x) as i32, y: (self.y + v.y) as i32 }
    }

    /// Moves this cell by one step of `velocity`.
    pub fn apply_vel(&mut self, velocity: &Velocity)
        requires
            old(self).can_apply(*velocity),
        ensures
            final(self).x == old(self).x + velocity.x,
            final(self).y == old(self).y + velocity.y,
            *final(self) == old(self).stepped(*velocity),
    {
        self.x = self.x + velocity.x;
        self.y = self.y + velocity.y;
    }

    /// Pixel coordinates of the cell's centre.
    pub open spec fn spec_translation(self) -> (int, int) {
        (self.x * BLOCK_SIZE, self.y * BLOCK_SIZE)
    }

    /// Pixel coordinates of the cell's centre.
    pub fn translation(&self) -> (t: (i64, i64))
        ensures
            t.0 == self.spec_translation().0,
            t.1 == self.spec_translation().1,
    {
        ((self.x as i64) * (BLOCK_SIZE as i64), (self.y as i64) * (BLOCK_SIZE as i64))
    }
}

/// An axis-aligned box in pixel space, given by its centre and its extent.
#[derive(Clone, Copy, Debug, PartialEq, Eq, Structural)]
pub struct Aabb {
    pub x: i64,
    pub y: i64,
    pub width: i64,
    pub height: i64,
}

impl Aabb {
    /// Whether the interiors of the two boxes intersect: on each axis the low
    /// edge of one lies strictly below the high edge of the other. Edges are
    /// compared doubled, so that half extents need no division.
    pub open spec fn spec_overlaps(self, other: Aabb) -> bool {
        &&& 2 * self.x - self.width < 2 * other.x + other.width
        &&& 2 * self.x + self.width > 2 * other.x - other.width
        &&& 2 * self.y - self.height < 2 * other.y + other.height
        &&& 2 * self.y + self.height > 2 * other.y - other.height
    }

    /// Whether the interiors of the two boxes intersect.
    pub fn overlaps(&self, other: &Aabb) -> (hit: bool)
        ensures
            hit == self.spec_overlaps(*other),
    {
        let ax: i128 = 2 * (self.x as i128);
        let ay: i128 = 2 * (self.y as i128);
        let bx: i128 = 2 * (other.x as i128);
        let by: i128 = 2 * (other.y as i128);
        let aw: i128 = self.width as i128;
        let ah: i128 = self.height as i128;
        let bw: i128 = other.width as i128;
        let bh: i128 = other.height as i128;
        ax - aw < bx + bw && ax + aw > bx - bw && ay - ah < by + bh && ay + ah > by - bh
    }

    /// The box that a block of edge `block_size` at cell `position` covers.
    pub open spec fn spec_of_block(position: Position, block_size: i32) -> Aabb {
        Aabb {
            x: (position.x * block_size) as i64,
            y: (position.y * block_size) as i64,
            width: block_size as i64,
            height: block_size as i64,
        }
    }

    /// The box that a block of edge `block_size` at cell `position` covers.
    pub fn of_block(position: Position, block_size: i32) -> (b: Aabb)
        ensures
            b == Aabb::spec_of_block(position, block_size),
            b.x == position.x * block_size,
            b.y == position.y * block_size,
    {
        proof {
            lemma_product_fits(position.x, block_size);
            lemma_product_fits(position.y, block_size);
        }
        Aabb {
            x: (position.x as i64) * (block_size as i64),
            y: (position.y as i64) * (block_size as i64),
            width: block_size as i64,
            height: block_size as i64,
        }
    }
}

/// The product of two 32-bit values fits in 64 bits.
pub proof fn lemma_product_fits(a: i32, b: i32)
    ensures
        i64::MIN <= a * b <= i64::MAX,
{
    assert(-0x8000_0000 <= a <= 0x7fff_ffff);
    assert(-0x8000_0000 <= b <= 0x7fff_ffff);
    assert(-0x4000_0000_0000_0000 <= a * b <= 0x4000_0000_0000_0000) by (nonlinear_arith)
        requires
            -0x8000_0000 <= a <= 0x7fff_ffff,
            -0x8000_0000 <= b <= 0x7fff_ffff,
    ;
}

/// Two blocks of the same positive edge overlap exactly when they sit on the
/// same cell.
pub proof fn lemma_blocks_overlap_iff_same_cell(p: Position, q: Position, block_size: i32)
    requires
        block_size > 0,
    ensures
        Aabb::spec_of_block(p, block_size).spec_overlaps(Aabb::spec_of_block(q, block_size)) <==> p
            == q,
{
    lemma_product_fits(p.x, block_size);
    lemma_product_fits(p.y, block_size);
    lemma_product_fits(q.x, block_size);
    lemma_product_fits(q.y, block_size);
    lemma_unit_interval(p.x as int, q.x as int, block_size as int);
    lemma_unit_interval(p.y as int, q.y as int, block_size as int);
}

/// On one axis, two intervals of length `s` centred at `a * s` and `b * s`
/// meet in more than a point exactly when `a == b`.
proof fn lemma_unit_interval(a: int, b: int, s: int)
    requires
        s > 0,
    ensures
        (2 * (a * s) - s < 2 * (b * s) + s && 2 * (a * s) + s > 2 * (b * s) - s) <==> a == b,
{
    assert((2 * (a * s) - s < 2 * (b * s) + s && 2 * (a * s) + s > 2 * (b * s) - s) <==> a == b)
        by (nonlinear_arith)
        requires
            s > 0,
    ;
}

} // verus!
