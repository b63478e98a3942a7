use vstd::prelude::*;

verus! {

/// Number of cells in a snake's body, fixed when the snake is created.
pub const SNAKE_DEFAULT_LENGTH: u32 = 5;

/// Width of the playing grid, in cells.
pub const GRID_WIDTH: u32 = 80;

/// Height of the playing grid, in cells.
pub const GRID_HEIGHT: u32 = 60;

#[derive(Clone, Copy, Debug, PartialEq, Eq, Structural)]
pub enum Direction {
    UP,
    DOWN,
    LEFT,
    RIGHT,
}

#[derive(Clone, Copy, Debug, PartialEq, Eq, Structural)]
pub struct Point {
    pub x: u32,
    pub y: u32,
}

#[derive(Debug)]
pub struct Snake {
    pub body: Vec<Point>,
    pub direction: Direction,
}

#[derive(Clone, Copy, Debug, PartialEq, Eq, Structural)]
pub enum Player {
    Player1,
    Player2,
}

#[derive(Debug)]
pub struct Game {
    pub players: (Snake, Snake),
    pub winner: Option<Player>,
}

/// The direction that points the other way.
pub open spec fn opposite(d: Direction) -> Direction {
    match d {
        Direction::UP => Direction::DOWN,
        Direction::DOWN => Direction::UP,
        Direction::LEFT => Direction::RIGHT,
        Direction::RIGHT => Direction::LEFT,
    }
}

/// The heading after asking to turn to `requested`: a turn into the
/// reverse of the current heading is refused.
pub open spec fn steer(current: Direction, requested: Direction) -> Direction {
    if requested == opposite(current) {
        current
    } else {
        requested
    }
}

pub open spec fn on_grid(p: Point) -> bool {
    p.x < GRID_WIDTH && p.y < GRID_HEIGHT
}

/// Where a new snake's head goes: moved inward from the edge that its
/// trailing body would otherwise cross.
pub open spec fn clamped_head(head: Point, d: Direction) -> Point {
    match d {
        Direction::RIGHT => if head.x < SNAKE_DEFAULT_LENGTH {
            Point { x: SNAKE_DEFAULT_LENGTH, y: head.y }
        } else {
            head
        },
        Direction::LEFT => if head.x > GRID_WIDTH - SNAKE_DEFAULT_LENGTH {
            Point { x: (GRID_WIDTH - SNAKE_DEFAULT_LENGTH) as u32, y: head.y }
        } else {
            head
        },
        Direction::UP => if head.y > GRID_HEIGHT - SNAKE_DEFAULT_LENGTH {
            Point { x: head.x, y: (GRID_HEIGHT - SNAKE_DEFAULT_LENGTH) as u32 }
        } else {
            head
        },
        Direction::DOWN => if head.y < SNAKE_DEFAULT_LENGTH {
            Point { x: head.x, y: SNAKE_DEFAULT_LENGTH }
        } else {
            head
        },
    }
}

/// The cell `i` steps behind `head` for a snake heading `d`.
pub open spec fn trailing(head: Point, d: Direction, i: int) -> Point {
    match d {
        Direction::RIGHT => Point { x: (head.x - i) as u32, y: head.y },
        Direction::LEFT => Point { x: (head.x + i) as u32, y: head.y },
        Direction::UP => Point { x: head.x, y: (head.y + i) as u32 },
        Direction::DOWN => Point { x: head.x, y: (head.y - i) as u32 },
    }
}

/// Whether every cell that trails `head` in a new body is representable.
pub open spec fn trail_fits(head: Point, d: Direction) -> bool {
    match d {
        Direction::RIGHT => head.x >= SNAKE_DEFAULT_LENGTH - 1,
        Direction::LEFT => head.x <= u32::MAX - (SNAKE_DEFAULT_LENGTH - 1),
        Direction::UP => head.y <= u32::MAX - (SNAKE_DEFAULT_LENGTH - 1),
        Direction::DOWN => head.y >= SNAKE_DEFAULT_LENGTH - 1,
    }
}

/// Whether two cells share a side.
pub open spec fn adjacent(p: Point, q: Point) -> bool {
    (p.x == q.x && (p.y + 1 == q.y || q.y + 1 == p.y)) || (p.y == q.y && (p.x + 1 == q.x
        || q.x + 1 == p.x))
}

/// The body of a snake created at `head` heading `d`, head first.
pub open spec fn spawn_body(head: Point, d: Direction) -> Seq<Point> {
    Seq::new(SNAKE_DEFAULT_LENGTH as nat, |i: int| trailing(clamped_head(head, d), d, i))
}

/// The cell one step from `p` in direction `d`, if it lies on the grid.
pub open spec fn step(p: Point, d: Direction) -> Option<Point> {
    let (x, y) = match d {
        Direction::RIGHT => (p.x + 1, p.y as int),
        Direction::LEFT => (p.x - 1, p.y as int),
        Direction::UP => (p.x as int, p.y - 1),
        Direction::DOWN => (p.x as int, p.y + 1),
    };
    if 0 <= x < GRID_WIDTH && 0 <= y < GRID_HEIGHT {
        Some(Point { x: x as u32, y: y as u32 })
    } else {
        None
    }
}

/// The body after one tick: a new head in front and the tail cell dropped,
/// or the same body where the step would leave the grid.
pub open spec fn advance(body: Seq<Point>, d: Direction) -> Seq<Point> {
    match step(body[0], d) {
        Some(h) => seq![h] + body.drop_last(),
        None => body,
    }
}

pub struct SnakeView {
    pub body: Seq<Point>,
    pub direction: Direction,
}

pub struct GameView {
    pub snake1: SnakeView,
    pub snake2: SnakeView,
    pub winner: Option<Player>,
}

impl View for Snake {
    type V = SnakeView;

    open spec fn view(&self) -> SnakeView {
        SnakeView { body: self.body@, direction: self.direction }
    }
}

impl View for Game {
    type V = GameView;

    open spec fn view(&self) -> GameView {
        GameView { snake1: self.players.0@, snake2: self.players.1@, winner: self.winner }
    }
}

/// What a tick does to one snake.
pub open spec fn tick_snake(s: SnakeView) -> SnakeView {
    SnakeView { body: advance(s.body, s.direction), direction: s.direction }
}

/// What a turn request does to one snake.
pub open spec fn turn_snake(s: SnakeView, d: Direction) -> SnakeView {
    SnakeView { body: s.body, direction: steer(s.direction, d) }
}

/// A snake as created at `head` heading `d`.
pub open spec fn spawn(head: Point, d: Direction) -> SnakeView {
    SnakeView { body: spawn_body(head, d), direction: d }
}

/// The state of a new game.
pub open spec fn initial_game() -> GameView {
    GameView {
        snake1: spawn(Point { x: 0, y: 28 }, Direction::RIGHT),
        snake2: spawn(Point { x: 80, y: 29 }, Direction::LEFT),
        winner: None,
    }
}

/// What a tick does to the game: both snakes move, nothing else changes.
pub open spec fn tick_game(g: GameView) -> GameView {
    GameView { snake1: tick_snake(g.snake1), snake2: tick_snake(g.snake2), winner: g.winner }
}

/// What a player's turn request does to the game: only that player's snake
/// may change heading.
pub open spec fn turn_game(g: GameView, p: Player, d: Direction) -> GameView {
    match p {
        Player::Player1 => GameView { snake1: turn_snake(g.snake1, d), ..g },
        Player::Player2 => GameView { snake2: turn_snake(g.snake2, d), ..g },
    }
}

/// A snake after a run of frames, each an optional turn request followed
/// by a tick.
pub open spec fn play(s: SnakeView, frames: Seq<Option<Direction>>) -> SnakeView
    decreases frames.len(),
{
    if frames.len() == 0 {
        s
    } else {
        let turned = match frames[0] {
            Some(d) => turn_snake(s, d),
            None => s,
        };
        play(tick_snake(turned), frames.drop_first())
    }
}

/// The heading after a run of turn requests.
pub open spec fn steer_all(d: Direction, requests: Seq<Direction>) -> Direction
    decreases requests.len(),
{
    if requests.len() == 0 {
        d
    } else {
        steer_all(steer(d, requests[0]), requests.drop_first())
    }
}

/// However many ticks and turns a snake goes through, its body keeps its
/// length.
pub proof fn lemma_length_kept(s: SnakeView, frames: Seq<Option<Direction>>)
    requires
        s.body.len() > 0,
    ensures
        play(s, frames).body.len() == s.body.len(),
    decreases frames.len(),
{
    if frames.len() > 0 {
        let turned = match frames[0] {
            Some(d) => turn_snake(s, d),
            None => s,
        };
        lemma_length_kept(tick_snake(turned), frames.drop_first());
    }
}

/// A turn into the reverse of the current heading is refused whatever
/// requests came before it; and refused requests, however many, leave the
/// heading as it was.
pub proof fn lemma_reverse_refused(d: Direction, requests: Seq<Direction>)
    ensures
        steer(steer_all(d, requests), opposite(steer_all(d, requests))) == steer_all(d, requests),
        (forall|i: int| 0 <= i < requests.len() ==> #[trigger] requests[i] == opposite(d))
            ==> steer_all(d, requests) == d,
    decreases requests.len(),
{
    if requests.len() > 0 {
        lemma_reverse_refused(steer(d, requests[0]), requests.drop_first());
        if forall|i: int| 0 <= i < requests.len() ==> #[trigger] requests[i] == opposite(d) {
            assert(requests[0] == opposite(d));
            assert forall|i: int| 0 <= i < requests.drop_first().len() implies #[trigger] requests.drop_first()[i]
                == opposite(d) by {
                assert(requests[i + 1] == opposite(d));
            }
        }
    }
}

impl Direction {
    /// Whether `self` points exactly the other way from `other`.
    pub fn is_reverse_of(self, other: Direction) -> (r: bool)
        ensures
            r == (self == opposite(other)),
    {
        match other {
            Direction::UP => self == Direction::DOWN,
            Direction::DOWN => self == Direction::UP,
            Direction::LEFT => self == Direction::RIGHT,
            Direction::RIGHT => self == Direction::LEFT,
        }
    }
}

impl Point {
    /// A copy of the point.
    pub fn copy(&self) -> (r: Point)
        ensures
            r == *self,
    {
        Point { x: self.x, y: self.y }
    }
}

impl Snake {
    pub fn new(head: Point, direction: Direction) -> (r: Snake)
        ensures
            r@ == spawn(head, direction),
            r.body@.len() == SNAKE_DEFAULT_LENGTH,
            on_grid(head) ==> forall|i: int| 0 <= i < r.body@.len() ==> on_grid(#[trigger] r.body@[i]),
    {
        let shifted_head = Self::shift_head(head, direction);
        let body = Self::create_body(shifted_head, direction);
        proof {
            assert(body@ =~= spawn_body(head, direction));
        }
        Snake { direction, body }
    }

    fn shift_head(head: Point, direction: Direction) -> (r: Point)
        ensures
            r == clamped_head(head, direction),
    {
        match direction {
            Direction::RIGHT => {
                if head.x < SNAKE_DEFAULT_LENGTH {
                    Point { x: SNAKE_DEFAULT_LENGTH, y: head.y }
                } else {
                    head
                }
            },
            Direction::LEFT => {
                let max_x: u32 = GRID_WIDTH - SNAKE_DEFAULT_LENGTH;
                if head.x > max_x {
                    Point { x: max_x, y: head.y }
                } else {
                    head
                }
            },
            Direction::UP => {
                let max_y: u32 = GRID_HEIGHT - SNAKE_DEFAULT_LENGTH;
                if head.y > max_y {
                    Point { x: head.x, y: max_y }
                } else {
                    head
                }
            },
            Direction::DOWN => {
                if head.y < SNAKE_DEFAULT_LENGTH {
                    Point { x: head.x, y: SNAKE_DEFAULT_LENGTH }
                } else {
                    head
                }
            },
        }
    }

    fn create_body(head: Point, direction: Direction) -> (r: Vec<Point>)
        requires
            trail_fits(head, direction),
        ensures
            r@.len() == SNAKE_DEFAULT_LENGTH,
            forall|i: int| 0 <= i < SNAKE_DEFAULT_LENGTH ==> #[trigger] r@[i] == trailing(head, direction, i),
            forall|i: int, j: int| 0 <= i < j < SNAKE_DEFAULT_LENGTH ==> #[trigger] r@[i] != #[trigger] r@[j],
            forall|i: int| 0 <= i < SNAKE_DEFAULT_LENGTH - 1 ==> adjacent(#[trigger] r@[i], r@[i + 1]),
    {
        let mut body: Vec<Point> = Vec::new();
        let mut i: u32 = 0;
        while i < SNAKE_DEFAULT_LENGTH
            invariant
                i <= SNAKE_DEFAULT_LENGTH,
                trail_fits(head, direction),
                body@.len() == i,
                forall|j: int| 0 <= j < i ==> #[trigger] body@[j] == trailing(head, direction, j),
            decreases SNAKE_DEFAULT_LENGTH - i,
        {
            let p = match direction {
                Direction::RIGHT => Point { x: head.x - i, y: head.y },
                Direction::LEFT => Point { x: head.x + i, y: head.y },
                Direction::UP => Point { x: head.x, y: head.y + i },
                Direction::DOWN => Point { x: head.x, y: head.y - i },
            };
            body.push(p);
            i = i + 1;
        }
        body
    }

    /// Turns the snake to `direction` unless that is the reverse of its
    /// current heading; tells whether the turn was taken.
    pub fn set_direction(&mut self, direction: Direction) -> (r: bool)
        ensures
            r == (direction != opposite(old(self).direction)),
            final(self)@ == turn_snake(old(self)@, direction),
    {
        let valid = !direction.is_reverse_of(self.direction);
        if valid {
            self.direction = direction;
        }
        valid
    }

    /// Moves the snake one cell in its heading; where that cell is off the
    /// grid the snake stays where it is.
    pub fn update(&mut self)
        requires
            old(self).body@.len() > 0,
        ensures
            final(self)@ == tick_snake(old(self)@),
            final(self).body@.len() == old(self).body@.len(),
    {
        let head = self.body[0];
        let new_head: Option<Point> = match self.direction {
            Direction::RIGHT => if head.x < GRID_WIDTH - 1 {
                Some(Point { x: head.x + 1, y: head.y })
            } else {
                None
            },
            Direction::LEFT => if head.x > 0 {
                Some(Point { x: head.x - 1, y: head.y })
            } else {
                None
            },
            Direction::UP => if head.y > 0 {
                Some(Point { x: head.x, y: head.y - 1 })
            } else {
                None
            },
            Direction::DOWN => if head.y < GRID_HEIGHT - 1 {
                Some(Point { x: head.x, y: head.y + 1 })
            } else {
                None
            },
        };
        if let Some(h) = new_head {
            if h.x < GRID_WIDTH && h.y < GRID_HEIGHT {
                let ghost before = self.body@;
                self.body.insert(0, h);
                self.body.pop();
                proof {
                    assert(self.body@ =~= seq![h] + before.drop_last());
                }
            }
        }
    }

    /// An independent copy of the snake.
    pub fn duplicate(&self) -> (r: Snake)
        ensures
            r@ == self@,
    {
        let mut body: Vec<Point> = Vec::new();
        let mut i: usize = 0;
        while i < self.body.len()
            invariant
                i <= self.body@.len(),
                body@ == self.body@.subrange(0, i as int),
            decreases self.body@.len() - i,
        {
            body.push(self.body[i].copy());
            i = i + 1;
            proof {
                assert(body@ =~= self.body@.subrange(0, i as int));
            }
        }
        proof {
            assert(body@ =~= self.body@);
        }
        Snake { body, direction: self.direction }
    }
}

impl Game {
    pub fn new() -> (r: Game)
        ensures
            r@ == initial_game(),
            r.wf(),
    {
        Game {
            players: (
                Snake::new(Point { x: 0, y: 28 }, Direction::RIGHT),
                Snake::new(Point { x: 80, y: 29 }, Direction::LEFT),
            ),
            winner: None,
        }
    }

    /// Both snakes have a body to move.
    pub open spec fn wf(&self) -> bool {
        self.players.0.body@.len() > 0 && self.players.1.body@.len() > 0
    }

    /// Advances both snakes by one cell.
    pub fn tick(&mut self)
        requires
            old(self).wf(),
        ensures
            final(self)@ == tick_game(old(self)@),
            final(self).wf(),
    {
        self.players.0.update();
        self.players.1.update();
    }

    /// Asks `player`'s snake to turn; the other snake is left alone.
    pub fn change_direction(&mut self, player: Player, direction: Direction) -> (r: bool)
        ensures
            final(self)@ == turn_game(old(self)@, player, direction),
            final(self).wf() == old(self).wf(),
            r == match player {
                Player::Player1 => direction != opposite(old(self).players.0.direction),
                Player::Player2 => direction != opposite(old(self).players.1.direction),
            },
    {
        match player {
            Player::Player1 => self.players.0.set_direction(direction),
            Player::Player2 => self.players.1.set_direction(direction),
        }
    }

    /// An independent copy of the whole game state.
    pub fn snapshot(&self) -> (r: Game)
        ensures
            r@ == self@,
            r.wf() == self.wf(),
    {
        Game { players: (self.players.0.duplicate(), self.players.1.duplicate()), winner: self.winner }
    }
}

} // verus!
