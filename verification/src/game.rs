//! The whole game: one state value and the functions that advance it.

use crate::board::{
    hits_wall, in_field, lemma_field_and_walls, lemma_walls_complete, on_board, spec_walls, walls,
    Wall,
};
use crate::body::{
    advanced, can_advance, can_grow, grown, initial_segments, is_snake, lemma_advance, lemma_grow,
    lemma_initial_segments, lemma_reach, occupies, turned, Segment, Snake, MAX_SEGMENTS,
    SNAKE_STARTING_LENGTH,
};
use crate::food::{is_free, spawn_food};
use crate::grid::{
    lemma_blocks_overlap_iff_same_cell, Aabb, Direction, Position, BLOCK_SIZE, SCREEN_HEIGHT,
    SCREEN_WIDTH,
};
use crate::input::{
    directions, pressed, spec_directions, spec_enqueue, spec_resolve, InputQueue, Key,
    MAX_INPUT_QUEUE_LENGTH,
};
use crate::score::{Scoreboard, SCORE_DELTA};
use crate::state::{GameState, SoundType};
use crate::timer::{lemma_scaled_duration, MoveTimer, TIMER_STARTING_DURATION};
use vstd::prelude::*;

verus! {

/// What the head ran into.
#[derive(Clone, Copy, Debug, PartialEq, Eq, Structural)]
pub enum Collision {
    /// The head overlaps nothing.
    Nothing,
    /// The head overlaps the food.
    Food,
    /// The head overlaps a wall or another segment of the snake.
    Obstacle,
}

/// What the host saw in one frame.
#[derive(Clone, Debug)]
pub struct FrameInput {
    /// The confirm key was pressed in this frame.
    pub confirm: bool,
    /// The restart key was pressed in this frame.
    pub restart: bool,
    /// The headings whose keys were pressed in this frame, in order.
    pub directions: Vec<Direction>,
    /// Nanoseconds since the frame before.
    pub delta: u64,
}

impl FrameInput {
    /// The input of a frame in which `keys` were pressed, in this order, and
    /// `delta` nanoseconds went by: the space bar confirms, R restarts, and
    /// the steering keys give the headings.
    pub fn from_keys(keys: &Vec<Key>, delta: u64) -> (input: FrameInput)
        ensures
            input.confirm == keys@.contains(Key::Space),
            input.restart == keys@.contains(Key::R),
            input.directions@ == spec_directions(keys@),
            input.delta == delta,
    {
        FrameInput {
            confirm: pressed(keys, Key::Space),
            restart: pressed(keys, Key::R),
            directions: directions(keys),
            delta,
        }
    }
}

/// What one frame did, for the host to draw and play.
#[derive(Clone, Debug)]
pub struct FrameReport {
    /// The phase after the frame.
    pub state: GameState,
    /// The snake moved by one cell.
    pub moved: bool,
    /// What the head ran into. With `Collision::Food` the food that was shown
    /// is gone, the game's food is new, and the snake's last segment is new.
    pub collision: Collision,
    /// A new board was set up: everything that was shown of the old one is
    /// gone, and walls, food and snake are new.
    pub restarted: bool,
    /// The sounds to play, in the order in which they arose.
    pub sounds: Vec<SoundType>,
}

/// The state of a game.
#[derive(Clone, Debug)]
pub struct Game {
    pub state: GameState,
    pub walls: Vec<Wall>,
    pub snake: Snake,
    /// The cell of the food, or `None` where no food could be placed.
    pub food: Option<Position>,
    pub scoreboard: Scoreboard,
    pub timer: MoveTimer,
    pub queue: InputQueue,
}

/// The state of a game as a mathematical value.
pub struct GameView {
    pub state: GameState,
    pub walls: Seq<Wall>,
    pub segments: Seq<Segment>,
    pub food: Option<Position>,
    pub scoreboard: Scoreboard,
    pub timer: MoveTimer,
    pub queue: Seq<Direction>,
}

impl View for Game {
    type V = GameView;

    open spec fn view(&self) -> GameView {
        GameView {
            state: self.state,
            walls: self.walls@,
            segments: self.snake@,
            food: self.food,
            scoreboard: self.scoreboard,
            timer: self.timer,
            queue: self.queue@,
        }
    }
}

/// Whether a block on cell `p` overlaps a block on cell `q`.
pub open spec fn blocks_touch(p: Position, q: Position) -> bool {
    Aabb::spec_of_block(p, BLOCK_SIZE).spec_overlaps(Aabb::spec_of_block(q, BLOCK_SIZE))
}

/// Whether a block on cell `p` overlaps one of the walls.
pub open spec fn touches_wall(walls: Seq<Wall>, p: Position) -> bool {
    exists|i: int|
        0 <= i < walls.len() && Aabb::spec_of_block(p, BLOCK_SIZE).spec_overlaps(
            (#[trigger] walls[i]).bounds,
        )
}

/// Whether the head overlaps a segment behind it.
pub open spec fn bites_itself(s: Seq<Segment>) -> bool {
    exists|i: int| 1 <= i < s.len() && blocks_touch(s[0].position, (#[trigger] s[i]).position)
}

impl GameView {
    /// What holds of a game at every moment: the snake is well formed and
    /// no shorter than at the start, its head is on the board, the queue is
    /// within its capacity, the walls stand, the timer's period is positive,
    /// the score counts the segments gained, and food lies in the field and
    /// only beside a snake that can still grow.
    pub open spec fn inv(self) -> bool {
        &&& is_snake(self.segments)
        &&& self.segments.len() >= SNAKE_STARTING_LENGTH
        &&& on_board(self.segments[0].position)
        &&& self.queue.len() <= MAX_INPUT_QUEUE_LENGTH
        &&& self.walls == spec_walls()
        &&& self.timer.duration >= 1
        &&& self.scoreboard.score == SCORE_DELTA * (self.segments.len() - SNAKE_STARTING_LENGTH)
        &&& self.food matches Some(p) ==> in_field(p) && self.segments.len() < MAX_SEGMENTS
    }

    /// What holds of a game between frames: `inv`, and unless the game is
    /// over the head is inside the field.
    pub open spec fn wf(self) -> bool {
        &&& self.inv()
        &&& self.state != GameState::GameOver ==> in_field(self.segments[0].position)
    }

    /// What the head runs into. Walls are looked at first, then the food,
    /// then the segments behind the head; the first overlap decides.
    pub open spec fn collision(self) -> Collision {
        let head = self.segments[0].position;
        if touches_wall(self.walls, head) {
            Collision::Obstacle
        } else if self.food matches Some(p) && blocks_touch(head, p) {
            Collision::Food
        } else if bites_itself(self.segments) {
            Collision::Obstacle
        } else {
            Collision::Nothing
        }
    }

    /// The game after the difficulty was brought up to date with the score:
    /// a new level is stored and shortens the timer once.
    pub open spec fn after_difficulty(self) -> GameView {
        GameView {
            scoreboard: self.scoreboard.refreshed(),
            timer: if self.scoreboard.stale() {
                self.timer.spec_scale()
            } else {
                self.timer
            },
            ..self
        }
    }

    /// Whether a frame of `delta` nanoseconds makes the snake move.
    pub open spec fn fires(self, delta: u64) -> bool {
        self.timer.spec_tick(delta).spec_just_finished()
    }

    /// The game after the movement step of a frame: the timer is ticked and
    /// the presses are queued; where the timer fired, the head takes the next
    /// legal turn from the queue and the snake moves by one cell.
    pub open spec fn after_move(self, pressed: Seq<Direction>, delta: u64) -> GameView {
        let timer = self.timer.spec_tick(delta);
        let queue = spec_enqueue(self.queue, pressed);
        if self.fires(delta) {
            let resolved = spec_resolve(queue, self.segments[0].direction);
            GameView {
                timer,
                queue: resolved.1,
                segments: advanced(turned(self.segments, resolved.0)),
                ..self
            }
        } else {
            GameView { timer, queue, ..self }
        }
    }

    /// The game after its collision was resolved, with `food` as the cell
    /// chosen for new food. Eating credits the score, appends a segment and
    /// replaces the food; an obstacle ends the game.
    pub open spec fn after_collision(self, food: Option<Position>) -> GameView {
        match self.collision() {
            Collision::Food => GameView {
                scoreboard: self.scoreboard.spec_add_food(),
                segments: grown(self.segments),
                food,
                ..self
            },
            Collision::Obstacle => GameView { state: GameState::GameOver, ..self },
            Collision::Nothing => self,
        }
    }

    /// What holds of food that was just placed: it lies on a free cell of the
    /// field beside a snake that can still grow. There is none only where the
    /// snake has reached its largest length or covers the whole field.
    pub open spec fn food_fits(self) -> bool {
        match self.food {
            Some(p) => is_free(self.segments, p) && self.segments.len() < MAX_SEGMENTS,
            None => self.segments.len() >= MAX_SEGMENTS || forall|q: Position|
                in_field(q) ==> occupies(self.segments, q),
        }
    }

    /// The game after a new board was set up with `food` as the food's cell:
    /// the walls stand and the snake is the starting snake.
    pub open spec fn after_setup(self, food: Option<Position>) -> GameView {
        GameView { walls: spec_walls(), segments: initial_segments(), food, ..self }
    }

    /// Whether the frame sets up a new board: the game is over and the
    /// restart key was pressed.
    pub open spec fn restarts(self, input: FrameInput) -> bool {
        self.state == GameState::GameOver && input.restart
    }

    /// The game after the difficulty and movement steps of a frame.
    pub open spec fn after_steps(self, input: FrameInput) -> GameView {
        self.after_difficulty().after_move(input.directions@, input.delta)
    }

    /// What the head runs into in this frame. Outside `Running` nothing is
    /// looked for.
    pub open spec fn frame_collision(self, input: FrameInput) -> Collision {
        if self.state == GameState::Running {
            self.after_steps(input).collision()
        } else {
            Collision::Nothing
        }
    }

    /// Whether the frame places food: the snake eats, or a new board is set
    /// up.
    pub open spec fn places_food(self, input: FrameInput) -> bool {
        self.frame_collision(input) == Collision::Food || self.restarts(input)
    }

    /// The game after one frame, with `food` as the cell of the food where
    /// the frame places food. A running game brings its difficulty up to
    /// date, moves, and resolves the head's collision; an obstacle ends it,
    /// otherwise the frame's presses decide the next phase. A game that is
    /// over is started anew by the restart key: score, difficulty and timer
    /// are reset, a new board is set up, and no turn of the round before
    /// stays queued. In every other case only the phase can change.
    pub open spec fn after_frame(self, input: FrameInput, food: Option<Position>) -> GameView {
        let next = self.state.spec_next(input.confirm, input.restart);
        if self.state == GameState::Running {
            let resolved = self.after_steps(input).after_collision(food);
            if self.frame_collision(input) == Collision::Obstacle {
                resolved
            } else {
                GameView { state: next, ..resolved }
            }
        } else if self.restarts(input) {
            GameView {
                state: GameState::Running,
                queue: Seq::empty(),
                ..self.after_reset().after_setup(food)
            }
        } else {
            GameView { state: next, ..self }
        }
    }

    /// The sounds of one frame: a new difficulty level first, then growth or
    /// failure.
    pub open spec fn frame_sounds(self, input: FrameInput) -> Seq<SoundType> {
        let level: Seq<SoundType> = if self.state == GameState::Running
            && self.scoreboard.stale() {
            seq![SoundType::DifficultyUp]
        } else {
            seq![]
        };
        match self.frame_collision(input) {
            Collision::Food => level.push(SoundType::Grow),
            Collision::Obstacle => level.push(SoundType::Failure),
            Collision::Nothing => level,
        }
    }

    /// The game after score, difficulty and timer were set back to their
    /// starting values: no points, the lowest level, and a timer of the
    /// starting period that has not run yet.
    pub open spec fn after_reset(self) -> GameView {
        GameView {
            scoreboard: Scoreboard { score: 0, difficulty: 0 },
            timer: MoveTimer { duration: TIMER_STARTING_DURATION, elapsed: 0, times_finished: 0 },
            ..self
        }
    }
}

impl Game {
    /// See [`GameView::inv`].
    pub open spec fn inv(&self) -> bool {
        self@.inv()
    }

    /// See [`GameView::wf`].
    pub open spec fn wf(&self) -> bool {
        self@.wf()
    }

    /// Checks at run time whether the game is in a state that `frame`
    /// accepts. A game that was built by `new` and changed by the functions
    /// of this type alone always is.
    pub fn is_valid(&self) -> (ok: bool)
        ensures
            ok == self.wf(),
    {
        if !self.snake.is_valid() || self.snake.len() < SNAKE_STARTING_LENGTH {
            return false;
        }
        if self.queue.len() > MAX_INPUT_QUEUE_LENGTH || self.timer.duration < 1 {
            return false;
        }
        let standard = walls();
        if self.walls.len() != standard.len() {
            return false;
        }
        let mut i: usize = 0;
        while i < standard.len()
            invariant
                i <= standard@.len(),
                standard@ == spec_walls(),
                self.walls@.len() == standard@.len(),
                forall|k: int| 0 <= k < i ==> self.walls@[k] == standard@[k],
            decreases standard@.len() - i,
        {
            if self.walls[i] != standard[i] {
                return false;
            }
            i = i + 1;
        }
        assert(self.walls@ == spec_walls());
        let gained: usize = self.snake.len() - SNAKE_STARTING_LENGTH;
        assert(SCORE_DELTA * gained <= 100 * MAX_SEGMENTS) by (nonlinear_arith)
            requires
                SCORE_DELTA == 100,
                gained <= MAX_SEGMENTS,
        ;
        if self.scoreboard.score != SCORE_DELTA * gained {
            return false;
        }
        let head = self.snake.head().position;
        let x_pos: i32 = SCREEN_WIDTH / 2;
        let y_pos: i32 = SCREEN_HEIGHT / 2;
        if head.x < -x_pos || head.x > x_pos || head.y < -y_pos || head.y > y_pos {
            return false;
        }
        let head_in_field = -x_pos < head.x && head.x < x_pos && -y_pos < head.y && head.y < y_pos;
        if self.state != GameState::GameOver && !head_in_field {
            return false;
        }
        match self.food {
            Some(p) => {
                self.snake.len() < MAX_SEGMENTS && -x_pos < p.x && p.x < x_pos && -y_pos < p.y
                    && p.y < y_pos
            },
            None => true,
        }
    }

    /// Places food for the snake as it is: on a free cell of the field, or
    /// nowhere where the snake has reached its largest length or covers the
    /// whole field.
    fn place_food(&mut self)
        ensures
            final(self)@ == (GameView { food: final(self).food, ..old(self)@ }),
            final(self)@.food_fits(),
    {
        if self.snake.len() < MAX_SEGMENTS {
            self.food = spawn_food(&self.snake);
        } else {
            self.food = None;
        }
    }

    /// Sets up a board: the four walls, the starting snake, and food on a
    /// free cell. Score, timer, queue and phase are left as they are.
    pub fn setup(&mut self)
        ensures
            final(self)@ == old(self)@.after_setup(final(self).food),
            final(self).food matches Some(p) && is_free(initial_segments(), p),
            final(self)@.food_fits(),
    {
        self.walls = walls();
        self.snake = Snake::new();
        self.place_food();
        proof {
            lemma_initial_segments();
            lemma_initial_has_room();
        }
    }

    /// Sets score and difficulty to zero and the timer back to its start:
    /// the starting period, with no time elapsed.
    pub fn reset(&mut self)
        ensures
            final(self)@ == old(self)@.after_reset(),
    {
        self.scoreboard.reset();
        self.timer = MoveTimer::new(TIMER_STARTING_DURATION);
    }

    /// A new game, waiting in `Startup` on a board that was set up.
    pub fn new() -> (game: Game)
        ensures
            game.wf(),
            game@ == initial_view(game.food),
            game.food matches Some(p) && is_free(initial_segments(), p),
    {
        let mut game = Game {
            state: GameState::Startup,
            walls: Vec::new(),
            snake: Snake::new(),
            food: None,
            scoreboard: Scoreboard::new(),
            timer: MoveTimer::new(TIMER_STARTING_DURATION),
            queue: InputQueue::new(),
        };
        game.setup();
        proof {
            lemma_initial_segments();
        }
        game
    }

    /// Brings the stored difficulty up to date with the score. Returns
    /// whether the level changed, which shortens the timer once.
    pub fn update_difficulty(&mut self) -> (changed: bool)
        ensures
            final(self)@ == old(self)@.after_difficulty(),
            changed == old(self).scoreboard.stale(),
            old(self).inv() ==> final(self).inv(),
            old(self).wf() ==> final(self).wf(),
    {
        proof {
            lemma_scaled_duration(self.timer.duration);
        }
        self.scoreboard.update_difficulty(&mut self.timer)
    }

    /// The movement step of a frame: ticks the timer by `delta` nanoseconds
    /// and queues the presses; where the timer fired, lets the head take the
    /// next legal turn from the queue and moves the snake by one cell.
    /// Returns whether the snake moved.
    pub fn move_snake(&mut self, pressed: &Vec<Direction>, delta: u64) -> (moved: bool)
        requires
            is_snake(old(self).snake@),
            on_board(old(self).snake@[0].position),
        ensures
            final(self)@ == old(self)@.after_move(pressed@, delta),
            moved == old(self)@.fires(delta),
            is_snake(final(self).snake@),
            old(self).inv() && in_field(old(self).snake@[0].position) ==> final(self).inv(),
    {
        self.timer.tick(delta);
        self.queue.enqueue(pressed);
        if self.timer.just_finished() {
            let head = self.snake.head();
            let direction = self.queue.resolve(head.direction);
            self.snake.turn(direction);
            proof {
                lemma_turn(old(self).snake@, direction);
                lemma_within_reach(self.snake@);
                lemma_advance(self.snake@);
            }
            self.snake.advance();
            true
        } else {
            false
        }
    }

    /// Resolves the head's collision: eating credits the score, appends a
    /// segment behind the tail and places new food clear of the grown snake;
    /// a wall or the snake's own body ends the game. Returns what was hit.
    pub fn check_collisions(&mut self) -> (c: Collision)
        requires
            is_snake(old(self).snake@),
            on_board(old(self).snake@[0].position),
            old(self).food matches Some(p) ==> in_field(p) && old(self).snake@.len()
                < MAX_SEGMENTS,
            old(self).scoreboard.score + SCORE_DELTA <= usize::MAX,
        ensures
            c == old(self)@.collision(),
            final(self)@ == old(self)@.after_collision(final(self).food),
            c == Collision::Food ==> final(self)@.food_fits(),
            is_snake(final(self).snake@),
            old(self).inv() ==> final(self).inv(),
            old(self).inv() ==> final(self).wf(),
    {
        let c = self.detect_collision();
        proof {
            if self.inv() {
                lemma_collision_cells(self@);
            }
            lemma_within_reach(self.snake@);
        }
        match c {
            Collision::Food => {
                proof {
                    lemma_grow(self.snake@);
                    assert(SCORE_DELTA * (self.snake@.len() - SNAKE_STARTING_LENGTH) + SCORE_DELTA
                        == SCORE_DELTA * (self.snake@.len() + 1 - SNAKE_STARTING_LENGTH))
                        by (nonlinear_arith);
                }
                self.scoreboard.add_food();
                self.snake.grow();
                self.place_food();
            },
            Collision::Obstacle => {
                self.state = GameState::GameOver;
            },
            Collision::Nothing => {},
        }
        c
    }

    /// Advances the game by one frame. Only a running game simulates: it
    /// brings the difficulty up to date, moves the snake when the timer
    /// fires, and resolves the head's collision. The frame's presses then
    /// decide the next phase, unless an obstacle ended the game. In
    /// `GameOver` the restart key resets score, difficulty and timer, sets
    /// up a new board and empties the queue.
    pub fn frame(&mut self, input: &FrameInput) -> (report: FrameReport)
        requires
            old(self).wf(),
        ensures
            final(self).wf(),
            final(self)@ == old(self)@.after_frame(*input, final(self).food),
            old(self)@.places_food(*input) ==> final(self)@.food_fits(),
            old(self)@.restarts(*input) ==> final(self).food is Some,
            report.state == final(self).state,
            report.moved == (old(self).state == GameState::Running && old(
                self,
            )@.after_difficulty().fires(input.delta)),
            report.collision == old(self)@.frame_collision(*input),
            report.restarted == old(self)@.restarts(*input),
            report.sounds@ == old(self)@.frame_sounds(*input),
    {
        let next = self.state.handle_state_input(input.confirm, input.restart);
        let mut sounds: Vec<SoundType> = Vec::new();
        let mut moved = false;
        let mut collision = Collision::Nothing;
        let mut restarted = false;
        match self.state {
            GameState::Running => {
                if self.update_difficulty() {
                    sounds.push(SoundType::DifficultyUp);
                }
                moved = self.move_snake(&input.directions, input.delta);
                collision = self.check_collisions();
                match collision {
                    Collision::Food => {
                        sounds.push(SoundType::Grow);
                        self.state = next;
                    },
                    Collision::Obstacle => {
                        sounds.push(SoundType::Failure);
                    },
                    Collision::Nothing => {
                        self.state = next;
                    },
                }
            },
            GameState::GameOver => {
                if input.restart {
                    self.reset();
                    self.setup();
                    self.queue.clear();
                    self.state = GameState::Running;
                    restarted = true;
                    proof {
                        lemma_initial_segments();
                    }
                }
            },
            _ => {
                self.state = next;
            },
        }
        FrameReport { state: self.state, moved, collision, restarted, sounds }
    }

    /// Finds what the head runs into, by overlap of the blocks' boxes.
    #[verifier::loop_isolation(false)]
    pub fn detect_collision(&self) -> (c: Collision)
        requires
            self.snake@.len() >= 1,
        ensures
            c == self@.collision(),
    {
        let head = self.snake.head();
        let head_box = Aabb::of_block(head.position, BLOCK_SIZE);
        let mut i: usize = 0;
        while i < self.walls.len()
            invariant
                i <= self.walls@.len(),
                head_box == Aabb::spec_of_block(head.position, BLOCK_SIZE),
                forall|k: int|
                    0 <= k < i ==> !head_box.spec_overlaps((#[trigger] self.walls@[k]).bounds),
            decreases self.walls@.len() - i,
        {
            if head_box.overlaps(&self.walls[i].bounds) {
                assert(head_box.spec_overlaps(self.walls@[i as int].bounds));
                return Collision::Obstacle;
            }
            i = i + 1;
        }
        assert(!touches_wall(self.walls@, head.position));
        match self.food {
            Some(p) => {
                if head_box.overlaps(&Aabb::of_block(p, BLOCK_SIZE)) {
                    return Collision::Food;
                }
            },
            None => {},
        }
        let mut j: usize = 1;
        while j < self.snake.len()
            invariant
                1 <= j <= self.snake@.len(),
                head == self.snake@[0],
                head_box == Aabb::spec_of_block(head.position, BLOCK_SIZE),
                forall|k: int|
                    1 <= k < j ==> !blocks_touch(
                        head.position,
                        (#[trigger] self.snake@[k]).position,
                    ),
            decreases self.snake@.len() - j,
        {
            let segment = self.snake.segments[j];
            if head_box.overlaps(&Aabb::of_block(segment.position, BLOCK_SIZE)) {
                assert(blocks_touch(self.snake@[0].position, self.snake@[j as int].position));
                return Collision::Obstacle;
            }
            j = j + 1;
        }
        Collision::Nothing
    }
}

/// The game at its start, with `food` as the food's cell.
pub open spec fn initial_view(food: Option<Position>) -> GameView {
    GameView {
        state: GameState::Startup,
        walls: spec_walls(),
        segments: initial_segments(),
        food,
        scoreboard: Scoreboard { score: 0, difficulty: 0 },
        timer: MoveTimer { duration: TIMER_STARTING_DURATION, elapsed: 0, times_finished: 0 },
        queue: Seq::empty(),
    }
}

/// The starting snake leaves cells of the field free.
pub proof fn lemma_initial_has_room()
    ensures
        exists|q: Position| is_free(initial_segments(), q),
{
    lemma_initial_segments();
    let q = Position { x: 1, y: 0 };
    assert forall|i: int| 0 <= i < initial_segments().len() implies (
    #[trigger] initial_segments()[i]).position != q by {
        assert(initial_segments()[i].position.x == -i);
    }
    assert(is_free(initial_segments(), q));
}

/// Turning the head keeps a snake a snake and moves no segment.
pub proof fn lemma_turn(s: Seq<Segment>, direction: Direction)
    requires
        is_snake(s),
    ensures
        is_snake(turned(s, direction)),
        turned(s, direction).len() == s.len(),
        turned(s, direction)[0].direction == direction,
        forall|i: int| 0 <= i < s.len() ==> (#[trigger] turned(s, direction)[i]).position
            == s[i].position,
        forall|i: int| 1 <= i < s.len() ==> #[trigger] turned(s, direction)[i] == s[i],
{
    let t = turned(s, direction);
    assert forall|i: int| 1 <= i < t.len() implies #[trigger] crate::body::linked(t, i) by {
        assert(crate::body::linked(s, i));
    }
}

/// A snake whose head is on the board can move and grow without leaving the
/// coordinate type.
pub proof fn lemma_within_reach(s: Seq<Segment>)
    requires
        is_snake(s),
        on_board(s[0].position),
    ensures
        can_advance(s),
        s.len() < MAX_SEGMENTS ==> can_grow(s),
{
    assert forall|i: int| 0 <= i < s.len() implies (#[trigger] s[i]).position.can_apply(
        s[i].direction.spec_velocity(),
    ) by {
        lemma_reach(s, i);
    }
    lemma_reach(s, s.len() - 1);
}

/// Seen on the grid, the head runs into a wall on the cells that a wall
/// covers, into the food on the food's cell, and into itself where a segment
/// behind it sits on the head's cell.
pub proof fn lemma_collision_cells(v: GameView)
    requires
        v.segments.len() >= 1,
        v.walls == spec_walls(),
    ensures
        touches_wall(v.walls, v.segments[0].position) <==> hits_wall(v.segments[0].position),
        forall|p: Position, q: Position| #[trigger] blocks_touch(p, q) <==> p == q,
        bites_itself(v.segments) <==> exists|i: int|
            1 <= i < v.segments.len() && (#[trigger] v.segments[i]).position
                == v.segments[0].position,
        in_field(v.segments[0].position) ==> (v.collision() == Collision::Food <==> v.food == Some(
            v.segments[0].position,
        )),
        on_board(v.segments[0].position) && !in_field(v.segments[0].position) ==> v.collision()
            == Collision::Obstacle,
        on_board(v.segments[0].position) && v.collision() != Collision::Obstacle ==> in_field(
            v.segments[0].position,
        ),
{
    let head = v.segments[0].position;
    assert forall|p: Position, q: Position| #[trigger] blocks_touch(p, q) <==> p == q by {
        lemma_blocks_overlap_iff_same_cell(p, q, BLOCK_SIZE);
    }
    lemma_field_and_walls(head);
    lemma_walls_complete(head);
    if bites_itself(v.segments) {
        let i = choose|i: int|
            1 <= i < v.segments.len() && blocks_touch(head, (#[trigger] v.segments[i]).position);
        assert(v.segments[i].position == head);
    }
    if exists|i: int| 1 <= i < v.segments.len() && (#[trigger] v.segments[i]).position == head {
        let i = choose|i: int|
            1 <= i < v.segments.len() && (#[trigger] v.segments[i]).position == head;
        assert(blocks_touch(head, v.segments[i].position));
    }
}

} // verus!
