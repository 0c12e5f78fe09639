//! The rules of the snake game: how the snake steers and moves, when it
//! crashes, and where its food appears.

use crate::task::keyboard::Key;
use std::collections::VecDeque;
use vstd::prelude::*;
use vstd::wrapping::usize_specs::wrapping_add;
use vstd::wrapping::usize_specs::wrapping_mul;
use vstd::wrapping::usize_specs::wrapping_sub;

verus! {

/// The width of the screen, in cells.
pub const WIDTH: usize = 80;

/// The height of the screen, in cells.
pub const HEIGHT: usize = 25;

/// The first row of the play area; the rows above it hold the status bar and
/// the upper border.
pub const PLAY_TOP: usize = 2;

/// The character that the snake's head is drawn with, a capital `O`.
pub const HEAD_GLYPH: u8 = 0x4f;

/// The character that the rest of the snake is drawn with, a small `o`.
pub const BODY_GLYPH: u8 = 0x6f;

/// What eating one piece of food adds to the score.
pub const FOOD_SCORE: usize = 10;

#[derive(Debug, Clone, Copy, PartialEq, Eq, Structural)]
pub enum Direction {
    Up,
    Down,
    Left,
    Right,
}

impl Direction {
    pub open spec fn opposite(self) -> Direction {
        match self {
            Direction::Up => Direction::Down,
            Direction::Down => Direction::Up,
            Direction::Left => Direction::Right,
            Direction::Right => Direction::Left,
        }
    }
}

/// A cell of the screen: column `x`, row `y`.
#[derive(Debug, Clone, Copy, PartialEq, Eq, Structural)]
pub struct Point {
    pub x: usize,
    pub y: usize,
}

/// Whether the snake's head may be at `cell`: any column but the leftmost,
/// and any row from `PLAY_TOP` down.
pub open spec fn in_play_area(cell: Point) -> bool {
    0 < cell.x < WIDTH && PLAY_TOP <= cell.y < HEIGHT
}

/// The cell next to `cell` in `direction`. Going up from row zero, or left
/// from column zero, leads to the far end of the number range, which is
/// outside every play area.
pub open spec fn neighbour(cell: Point, direction: Direction) -> Point {
    match direction {
        Direction::Up => Point { x: cell.x, y: wrapping_sub(cell.y, 1) },
        Direction::Down => Point { x: cell.x, y: (cell.y + 1) as usize },
        Direction::Left => Point { x: wrapping_sub(cell.x, 1), y: cell.y },
        Direction::Right => Point { x: (cell.x + 1) as usize, y: cell.y },
    }
}

/// What a key asks of the game.
#[derive(Debug, Clone, Copy, PartialEq, Eq, Structural)]
pub enum KeyAction {
    Steer(Direction),
    Quit,
    Nothing,
}

/// What a key asks of the game: `w`, `s`, `a` and `d` steer up, down, left
/// and right, as the arrow keys do, and `q` ends the game.
pub open spec fn key_action_of(key: Key) -> KeyAction {
    match key {
        Key::Unicode(c) => if c == 'w' {
            KeyAction::Steer(Direction::Up)
        } else if c == 's' {
            KeyAction::Steer(Direction::Down)
        } else if c == 'a' {
            KeyAction::Steer(Direction::Left)
        } else if c == 'd' {
            KeyAction::Steer(Direction::Right)
        } else if c == 'q' {
            KeyAction::Quit
        } else {
            KeyAction::Nothing
        },
        Key::ArrowUp => KeyAction::Steer(Direction::Up),
        Key::ArrowDown => KeyAction::Steer(Direction::Down),
        Key::ArrowLeft => KeyAction::Steer(Direction::Left),
        Key::ArrowRight => KeyAction::Steer(Direction::Right),
        Key::Other => KeyAction::Nothing,
    }
}

/// What a key asks of the game.
pub fn key_action(key: Key) -> (action: KeyAction)
    ensures
        action == key_action_of(key),
{
    match key {
        Key::Unicode(c) => {
            if c == 'w' {
                KeyAction::Steer(Direction::Up)
            } else if c == 's' {
                KeyAction::Steer(Direction::Down)
            } else if c == 'a' {
                KeyAction::Steer(Direction::Left)
            } else if c == 'd' {
                KeyAction::Steer(Direction::Right)
            } else if c == 'q' {
                KeyAction::Quit
            } else {
                KeyAction::Nothing
            }
        },
        Key::ArrowUp => KeyAction::Steer(Direction::Up),
        Key::ArrowDown => KeyAction::Steer(Direction::Down),
        Key::ArrowLeft => KeyAction::Steer(Direction::Left),
        Key::ArrowRight => KeyAction::Steer(Direction::Right),
        Key::Other => KeyAction::Nothing,
    }
}

/// What one move of the snake ended in.
#[derive(Debug, Clone, Copy, PartialEq, Eq, Structural)]
pub enum Step {
    /// The snake ran into a wall or into itself, and has not moved. The game
    /// is over.
    Crashed,
    /// The snake moved: its head is now at `head`, and it has left `tail`.
    Moved { head: Point, tail: Point },
    /// The snake moved its head to `head`, where the food was, and has grown
    /// by that cell.
    Ate { head: Point },
}

/// The snake, as mathematical values.
pub struct SnakeView {
    /// The cells of the snake, from head to tail.
    pub body: Seq<Point>,
    /// The direction of the next move.
    pub direction: Direction,
}

impl SnakeView {
    /// The snake at the start of a game: three cells in row 10, the head in
    /// column 10, heading right.
    pub open spec fn initial() -> SnakeView {
        SnakeView {
            body: seq![Point { x: 10, y: 10 }, Point { x: 9, y: 10 }, Point { x: 8, y: 10 }],
            direction: Direction::Right,
        }
    }

    /// The snake as it heads for `wanted`: a snake cannot turn back on
    /// itself, so the opposite of its direction is not taken up.
    pub open spec fn steer(self, wanted: Direction) -> SnakeView {
        if wanted == self.direction.opposite() {
            self
        } else {
            SnakeView { direction: wanted, ..self }
        }
    }

    /// The cell that the head moves to next.
    pub open spec fn next_head(self) -> Point {
        neighbour(self.body[0], self.direction)
    }

    /// Whether the next move runs the snake into a wall or into itself. The
    /// tail counts: it has not moved away yet.
    pub open spec fn crashes(self) -> bool {
        !in_play_area(self.next_head()) || self.body.contains(self.next_head())
    }

    /// What the next move ends in, with the food at `food`.
    pub open spec fn step(self, food: Point) -> Step {
        if self.crashes() {
            Step::Crashed
        } else if self.next_head() == food {
            Step::Ate { head: self.next_head() }
        } else {
            Step::Moved { head: self.next_head(), tail: self.body.last() }
        }
    }

    /// The snake after its next move, with the food at `food`.
    pub open spec fn advance(self, food: Point) -> SnakeView {
        if self.crashes() {
            self
        } else if self.next_head() == food {
            SnakeView { body: seq![self.next_head()] + self.body, ..self }
        } else {
            SnakeView { body: (seq![self.next_head()] + self.body).drop_last(), ..self }
        }
    }
}

/// The snake.
pub struct Snake {
    body: VecDeque<Point>,
    direction: Direction,
}

impl View for Snake {
    type V = SnakeView;

    closed spec fn view(&self) -> SnakeView {
        SnakeView { body: self.body@, direction: self.direction }
    }
}

impl Snake {
    /// Well-formedness: the snake has a head, and all of it is in the play
    /// area.
    pub open spec fn wf(&self) -> bool {
        &&& self@.body.len() > 0
        &&& forall|i: int| 0 <= i < self@.body.len() ==> in_play_area(#[trigger] self@.body[i])
    }

    /// A snake of three cells in row 10, with its head in column 10, that
    /// heads right.
    pub fn new() -> (snake: Snake)
        ensures
            snake.wf(),
            snake@ == SnakeView::initial(),
    {
        let mut body: VecDeque<Point> = VecDeque::new();
        body.push_back(Point { x: 10, y: 10 });
        body.push_back(Point { x: 9, y: 10 });
        body.push_back(Point { x: 8, y: 10 });
        let snake = Snake { body, direction: Direction::Right };
        proof {
            assert(snake@.body =~= SnakeView::initial().body);
        }
        snake
    }

    pub fn direction(&self) -> (direction: Direction)
        ensures
            direction == self@.direction,
    {
        self.direction
    }

    pub fn len(&self) -> (cells: usize)
        ensures
            cells == self@.body.len(),
    {
        self.body.len()
    }

    /// The cell of the snake at `index`, counting from the head.
    pub fn cell(&self, index: usize) -> (cell: Point)
        requires
            index < self@.body.len(),
        ensures
            cell == self@.body[index as int],
    {
        self.body[index]
    }

    /// The character that the cell at `index` is drawn with, counting from
    /// the head.
    pub fn glyph(index: usize) -> (glyph: u8)
        ensures
            glyph == if index == 0 {
                HEAD_GLYPH
            } else {
                BODY_GLYPH
            },
    {
        if index == 0 {
            HEAD_GLYPH
        } else {
            BODY_GLYPH
        }
    }

    /// Whether `cell` is part of the snake.
    pub fn covers(&self, cell: Point) -> (covered: bool)
        ensures
            covered == self@.body.contains(cell),
    {
        let mut i: usize = 0;
        while i < self.body.len()
            invariant
                i <= self.body.len(),
                forall|k: int| 0 <= k < i ==> self.body@[k] != cell,
            decreases self.body.len() - i,
        {
            let part = self.body[i];
            if part.x == cell.x && part.y == cell.y {
                return true;
            }
            i += 1;
        }
        false
    }

    /// Heads the snake for `wanted`, unless that would turn it back on
    /// itself.
    pub fn steer(&mut self, wanted: Direction)
        ensures
            final(self)@ == old(self)@.steer(wanted),
            old(self).wf() ==> final(self).wf(),
    {
        let turns_back = match wanted {
            Direction::Up => self.direction == Direction::Down,
            Direction::Down => self.direction == Direction::Up,
            Direction::Left => self.direction == Direction::Right,
            Direction::Right => self.direction == Direction::Left,
        };
        if !turns_back {
            self.direction = wanted;
        }
    }

    /// Moves the snake by one cell, with the food at `food`.
    pub fn advance(&mut self, food: Point) -> (step: Step)
        requires
            old(self).wf(),
        ensures
            final(self).wf(),
            step == old(self)@.step(food),
            final(self)@ == old(self)@.advance(food),
    {
        let head = self.body[0];
        let new_head = match self.direction {
            Direction::Up => Point { x: head.x, y: head.y.wrapping_sub(1) },
            Direction::Down => Point { x: head.x, y: head.y + 1 },
            Direction::Left => Point { x: head.x.wrapping_sub(1), y: head.y },
            Direction::Right => Point { x: head.x + 1, y: head.y },
        };
        if new_head.x == 0 || new_head.x >= WIDTH || new_head.y < PLAY_TOP || new_head.y >= HEIGHT {
            return Step::Crashed;
        }
        if self.covers(new_head) {
            return Step::Crashed;
        }
        self.body.push_front(new_head);
        if new_head.x == food.x && new_head.y == food.y {
            Step::Ate { head: new_head }
        } else {
            let tail = self.body.pop_back().unwrap();
            Step::Moved { head: new_head, tail }
        }
    }
}

/// The state that follows `state` in the sequence of the generator.
pub open spec fn next_random(state: usize) -> usize {
    wrapping_add(wrapping_mul(state, 1103515245), 12345)
}

/// A linear congruential generator of pseudo-random numbers.
pub struct Random {
    state: usize,
}

impl Random {
    pub closed spec fn state(&self) -> usize {
        self.state
    }

    /// A generator that starts from `seed`.
    pub fn new(seed: usize) -> (rng: Random)
        ensures
            rng.state() == seed,
    {
        Random { state: seed }
    }

    /// Moves on to the next state and returns it.
    pub fn next(&mut self) -> (number: usize)
        ensures
            number == next_random(old(self).state()),
            final(self).state() == number,
    {
        self.state = self.state.wrapping_mul(1103515245).wrapping_add(12345);
        self.state
    }
}

/// The cell that a generator in state `state` proposes for the food: its
/// next number picks the column, the one after that the row. The cell lies
/// within the border of the play area.
pub open spec fn proposal(state: usize) -> Point {
    Point {
        x: (next_random(state) as int % (WIDTH - 2) + 1) as usize,
        y: (next_random(next_random(state)) as int % (HEIGHT - PLAY_TOP - 2) + PLAY_TOP + 1) as usize,
    }
}

/// Where the food appears for a snake with the given cells: at the first
/// cell that the generator proposes, from state `state` on, that is not part
/// of the snake, if one of the first `attempts` proposals is such a cell.
pub open spec fn food_for(body: Seq<Point>, state: usize, attempts: nat) -> Option<Point>
    decreases attempts,
{
    if attempts == 0 {
        None
    } else if body.contains(proposal(state)) {
        food_for(body, next_random(next_random(state)), (attempts - 1) as nat)
    } else {
        Some(proposal(state))
    }
}

/// The state of the generator after food has been looked for.
pub open spec fn state_after_food(body: Seq<Point>, state: usize, attempts: nat) -> usize
    decreases attempts,
{
    if attempts == 0 {
        state
    } else if body.contains(proposal(state)) {
        state_after_food(body, next_random(next_random(state)), (attempts - 1) as nat)
    } else {
        next_random(next_random(state))
    }
}

/// Picks a cell for new food: proposals are drawn from `rng` until one is
/// not part of the snake. Gives up after `attempts` proposals.
pub fn spawn_food(snake: &Snake, rng: &mut Random, attempts: usize) -> (food: Option<Point>)
    ensures
        food == food_for(snake@.body, old(rng).state(), attempts as nat),
        final(rng).state() == state_after_food(snake@.body, old(rng).state(), attempts as nat),
        food matches Some(cell) ==> in_play_area(cell) && !snake@.body.contains(cell),
{
    let mut left: usize = attempts;
    while left > 0
        invariant
            food_for(snake@.body, rng.state(), left as nat) == food_for(
                snake@.body,
                old(rng).state(),
                attempts as nat,
            ),
            state_after_food(snake@.body, rng.state(), left as nat) == state_after_food(
                snake@.body,
                old(rng).state(),
                attempts as nat,
            ),
        decreases left,
    {
        let x = (rng.next() % (WIDTH - 2)) + 1;
        let y = (rng.next() % (HEIGHT - PLAY_TOP - 2)) + PLAY_TOP + 1;
        let cell = Point { x, y };
        if !snake.covers(cell) {
            return Some(cell);
        }
        left -= 1;
    }
    None
}

/// Paces the game: the snake moves on every second tick of the timer.
pub struct Pace {
    ticks: usize,
}

impl Pace {
    /// Every move waits for two ticks.
    #[verifier::type_invariant]
    spec fn within_period(self) -> bool {
        self.ticks < 2
    }

    /// The ticks counted since the last move.
    pub closed spec fn ticks(&self) -> usize {
        self.ticks
    }

    pub fn new() -> (pace: Pace)
        ensures
            pace.ticks() == 0,
    {
        Pace { ticks: 0 }
    }

    /// Counts a tick, and says whether the snake is to move on it.
    pub fn tick(&mut self) -> (due: bool)
        ensures
            due == (old(self).ticks() + 1 >= 2),
            final(self).ticks() == if due {
                0
            } else {
                old(self).ticks() + 1
            },
    {
        proof {
            use_type_invariant(&*self);
        }
        if self.ticks + 1 < 2 {
            self.ticks = self.ticks + 1;
            false
        } else {
            self.ticks = 0;
            true
        }
    }
}

} // verus!
