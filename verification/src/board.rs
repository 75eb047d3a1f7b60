//! The playing field and the four walls around it.

use crate::grid::{lemma_product_fits, Aabb, Position, BLOCK_SIZE, SCREEN_HEIGHT, SCREEN_WIDTH};
use vstd::prelude::*;

verus! {

/// Side of the board on which a wall stands.
#[derive(Clone, Copy, Debug, PartialEq, Eq, Structural)]
pub enum WallLocation {
    Left,
    Right,
    Bottom,
    Top,
}

impl WallLocation {
    /// The two end cells of the wall.
    pub open spec fn spec_points(self) -> (Position, Position) {
        let x: i32 = 20;
        let y: i32 = 11;
        let nx: i32 = -20i32;
        let ny: i32 = -11i32;
        match self {
            WallLocation::Left => (Position { x: nx, y: ny }, Position { x: nx, y: y }),
            WallLocation::Right => (Position { x: x, y: y }, Position { x: x, y: ny }),
            WallLocation::Bottom => (Position { x: x, y: ny }, Position { x: nx, y: ny }),
            WallLocation::Top => (Position { x: nx, y: y }, Position { x: x, y: y }),
        }
    }

    /// Pixel coordinates of the wall's centre: the midpoint of its end cells,
    /// scaled by the block size.
    pub open spec fn spec_translation(self, block_size: i32) -> (int, int) {
        let (start, end) = self.spec_points();
        (((start.x + end.x) / 2) * block_size, ((start.y + end.y) / 2) * block_size)
    }

    /// Pixel extent of the wall: one more than the distance between its end
    /// cells on each axis, scaled by the block size.
    pub open spec fn spec_scale(self, block_size: i32) -> (int, int) {
        let (start, end) = self.spec_points();
        (
            (vstd::math::abs(start.x - end.x) + 1) * block_size,
            (vstd::math::abs(start.y - end.y) + 1) * block_size,
        )
    }

    /// The box that the wall covers.
    pub open spec fn spec_bounds(self, block_size: i32) -> Aabb {
        Aabb {
            x: self.spec_translation(block_size).0 as i64,
            y: self.spec_translation(block_size).1 as i64,
            width: self.spec_scale(block_size).0 as i64,
            height: self.spec_scale(block_size).1 as i64,
        }
    }

    /// The two end cells of the wall, half a screen away from the centre.
    pub fn points(&self) -> (ends: (Position, Position))
        ensures
            ends == self.spec_points(),
    {
        let x_pos: i32 = SCREEN_WIDTH / 2;
        let y_pos: i32 = SCREEN_HEIGHT / 2;
        match self {
            WallLocation::Left => (Position::new(-x_pos, -y_pos), Position::new(-x_pos, y_pos)),
            WallLocation::Right => (Position::new(x_pos, y_pos), Position::new(x_pos, -y_pos)),
            WallLocation::Bottom => (Position::new(x_pos, -y_pos), Position::new(-x_pos, -y_pos)),
            WallLocation::Top => (Position::new(-x_pos, y_pos), Position::new(x_pos, y_pos)),
        }
    }

    /// Pixel coordinates of the wall's centre.
    pub fn translation(&self, block_size: i32) -> (t: (i64, i64))
        ensures
            t.0 == self.spec_translation(block_size).0,
            t.1 == self.spec_translation(block_size).1,
    {
        let (start, end) = self.points();
        let x_pos: i32 = (start.x + end.x) / 2;
        let y_pos: i32 = (start.y + end.y) / 2;
        proof {
            lemma_product_fits(x_pos, block_size);
            lemma_product_fits(y_pos, block_size);
        }
        ((x_pos as i64) * (block_size as i64), (y_pos as i64) * (block_size as i64))
    }

    /// Pixel extent of the wall.
    pub fn scale(&self, block_size: i32) -> (s: (i64, i64))
        ensures
            s.0 == self.spec_scale(block_size).0,
            s.1 == self.spec_scale(block_size).1,
    {
        let (start, end) = self.points();
        let dx: i32 = if start.x >= end.x {
            start.x - end.x + 1
        } else {
            end.x - start.x + 1
        };
        let dy: i32 = if start.y >= end.y {
            start.y - end.y + 1
        } else {
            end.y - start.y + 1
        };
        proof {
            lemma_product_fits(dx, block_size);
            lemma_product_fits(dy, block_size);
        }
        ((dx as i64) * (block_size as i64), (dy as i64) * (block_size as i64))
    }
}

/// A wall of the board: a fixed obstacle with its place and its box.
#[derive(Clone, Copy, Debug, PartialEq, Eq, Structural)]
pub struct Wall {
    pub location: WallLocation,
    pub bounds: Aabb,
}

impl Wall {
    /// The wall on the given side, for blocks of edge `block_size`.
    pub fn new(location: WallLocation, block_size: i32) -> (w: Wall)
        ensures
            w.location == location,
            w.bounds == location.spec_bounds(block_size),
    {
        let t = location.translation(block_size);
        let s = location.scale(block_size);
        Wall { location, bounds: Aabb { x: t.0, y: t.1, width: s.0, height: s.1 } }
    }
}

/// The four walls of the board, in the order in which a game sets them up.
pub open spec fn spec_walls() -> Seq<Wall> {
    seq![
        Wall { location: WallLocation::Left, bounds: WallLocation::Left.spec_bounds(BLOCK_SIZE) },
        Wall { location: WallLocation::Top, bounds: WallLocation::Top.spec_bounds(BLOCK_SIZE) },
        Wall { location: WallLocation::Right, bounds: WallLocation::Right.spec_bounds(BLOCK_SIZE) },
        Wall {
            location: WallLocation::Bottom,
            bounds: WallLocation::Bottom.spec_bounds(BLOCK_SIZE),
        },
    ]
}

/// Builds the four walls of the board.
pub fn walls() -> (w: Vec<Wall>)
    ensures
        w@ == spec_walls(),
{
    let mut w: Vec<Wall> = Vec::new();
    w.push(Wall::new(WallLocation::Left, BLOCK_SIZE));
    w.push(Wall::new(WallLocation::Top, BLOCK_SIZE));
    w.push(Wall::new(WallLocation::Right, BLOCK_SIZE));
    w.push(Wall::new(WallLocation::Bottom, BLOCK_SIZE));
    w
}

/// Whether `p` lies inside the walls: the cells where food may appear and
/// where the snake's head may be without touching a wall.
pub open spec fn in_field(p: Position) -> bool {
    &&& -(SCREEN_WIDTH / 2 - 1) <= p.x <= SCREEN_WIDTH / 2 - 1
    &&& -(SCREEN_HEIGHT / 2 - 1) <= p.y <= SCREEN_HEIGHT / 2 - 1
}

/// Whether `p` lies on the board, wall cells included.
pub open spec fn on_board(p: Position) -> bool {
    &&& -(SCREEN_WIDTH / 2) <= p.x <= SCREEN_WIDTH / 2
    &&& -(SCREEN_HEIGHT / 2) <= p.y <= SCREEN_HEIGHT / 2
}

/// The cells that the wall on the given side covers.
pub open spec fn wall_covers(location: WallLocation, p: Position) -> bool {
    match location {
        WallLocation::Left => p.x == -(SCREEN_WIDTH / 2) && -(SCREEN_HEIGHT / 2) <= p.y
            <= SCREEN_HEIGHT / 2,
        WallLocation::Right => p.x == SCREEN_WIDTH / 2 && -(SCREEN_HEIGHT / 2) <= p.y
            <= SCREEN_HEIGHT / 2,
        WallLocation::Bottom => p.y == -(SCREEN_HEIGHT / 2) && -(SCREEN_WIDTH / 2) <= p.x
            <= SCREEN_WIDTH / 2,
        WallLocation::Top => p.y == SCREEN_HEIGHT / 2 && -(SCREEN_WIDTH / 2) <= p.x
            <= SCREEN_WIDTH / 2,
    }
}

/// Whether a block at `p` overlaps one of the four walls.
pub open spec fn hits_wall(p: Position) -> bool {
    exists|location: WallLocation|
        Aabb::spec_of_block(p, BLOCK_SIZE).spec_overlaps(
            #[trigger] location.spec_bounds(BLOCK_SIZE),
        )
}

/// A block overlaps a wall exactly on the cells that the wall covers.
pub proof fn lemma_wall_cells(location: WallLocation, p: Position)
    ensures
        Aabb::spec_of_block(p, BLOCK_SIZE).spec_overlaps(location.spec_bounds(BLOCK_SIZE))
            <==> wall_covers(location, p),
{
    let wall = location.spec_bounds(BLOCK_SIZE);
    let block = Aabb::spec_of_block(p, BLOCK_SIZE);
    let (start, end) = location.spec_points();
    lemma_times_block(p.x as int);
    lemma_times_block(p.y as int);
    lemma_times_block((start.x + end.x) / 2);
    lemma_times_block((start.y + end.y) / 2);
    lemma_times_block((vstd::math::abs(start.x - end.x) + 1) as int);
    lemma_times_block((vstd::math::abs(start.y - end.y) + 1) as int);
    assert(block.x == 20 * p.x && block.y == 20 * p.y);
    assert(block.width == 20 && block.height == 20);
    match location {
        WallLocation::Left => {
            assert(wall == Aabb { x: -400i64, y: 0, width: 20, height: 460 });
        },
        WallLocation::Right => {
            assert(wall == Aabb { x: 400, y: 0, width: 20, height: 460 });
        },
        WallLocation::Bottom => {
            assert(wall == Aabb { x: 0, y: -220i64, width: 820, height: 20 });
        },
        WallLocation::Top => {
            assert(wall == Aabb { x: 0, y: 220, width: 820, height: 20 });
        },
    }
}

/// Scaling by the block size is multiplication by twenty.
proof fn lemma_times_block(a: int)
    ensures
        a * BLOCK_SIZE == 20 * a,
{
    assert(a * BLOCK_SIZE == 20 * a) by (nonlinear_arith)
        requires
            BLOCK_SIZE == 20,
    ;
}

/// A block overlaps one of the four walls exactly when it overlaps one of the
/// boxes in the list of walls.
pub proof fn lemma_walls_complete(p: Position)
    ensures
        spec_walls().len() == 4,
        hits_wall(p) <==> exists|i: int|
            0 <= i < spec_walls().len() && Aabb::spec_of_block(p, BLOCK_SIZE).spec_overlaps(
                (#[trigger] spec_walls()[i]).bounds,
            ),
{
    let w = spec_walls();
    let b = Aabb::spec_of_block(p, BLOCK_SIZE);
    if hits_wall(p) {
        let location = choose|location: WallLocation|
            b.spec_overlaps(#[trigger] location.spec_bounds(BLOCK_SIZE));
        let i: int = match location {
            WallLocation::Left => 0,
            WallLocation::Top => 1,
            WallLocation::Right => 2,
            WallLocation::Bottom => 3,
        };
        assert(b.spec_overlaps(w[i].bounds));
    }
    if exists|i: int| 0 <= i < w.len() && b.spec_overlaps((#[trigger] w[i]).bounds) {
        let i = choose|i: int| 0 <= i < w.len() && b.spec_overlaps((#[trigger] w[i]).bounds);
        assert(b.spec_overlaps(w[i].location.spec_bounds(BLOCK_SIZE)));
    }
}

/// Inside the field no wall is touched; on the board outside the field one is.
pub proof fn lemma_field_and_walls(p: Position)
    ensures
        in_field(p) ==> !hits_wall(p),
        on_board(p) && !in_field(p) ==> hits_wall(p),
        hits_wall(p) <==> exists|location: WallLocation| wall_covers(location, p),
{
    assert forall|location: WallLocation|
        Aabb::spec_of_block(p, BLOCK_SIZE).spec_overlaps(
            #[trigger] location.spec_bounds(BLOCK_SIZE),
        ) == wall_covers(location, p) by {
        lemma_wall_cells(location, p);
    }
    if on_board(p) && !in_field(p) {
        if p.x == -(SCREEN_WIDTH / 2) {
            assert(wall_covers(WallLocation::Left, p));
        } else if p.x == SCREEN_WIDTH / 2 {
            assert(wall_covers(WallLocation::Right, p));
        } else if p.y == -(SCREEN_HEIGHT / 2) {
            assert(wall_covers(WallLocation::Bottom, p));
        } else {
            assert(wall_covers(WallLocation::Top, p));
        }
    }
    if hits_wall(p) {
        let location = choose|location: WallLocation|
            Aabb::spec_of_block(p, BLOCK_SIZE).spec_overlaps(
                #[trigger] location.spec_bounds(BLOCK_SIZE),
            );
        assert(wall_covers(location, p));
    }
    if exists|location: WallLocation| wall_covers(location, p) {
        let location = choose|location: WallLocation| wall_covers(location, p);
        assert(Aabb::spec_of_block(p, BLOCK_SIZE).spec_overlaps(location.spec_bounds(BLOCK_SIZE)));
    }
}

} // verus!
