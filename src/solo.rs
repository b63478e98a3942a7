use vstd::prelude::*;

use crate::game::{spawn, tick_snake, turn_snake, Direction, Point, Snake};
use crate::protocol::{direction_of, parse_direction, trim};

verus! {

/// A single snake steered by bare heading words, ticking on its own.
pub struct WebsocketActor {
    pub snake: Snake,
}

impl WebsocketActor {
    pub fn new() -> (r: WebsocketActor)
        ensures
            r.snake@ == spawn(Point { x: 10, y: 3 }, Direction::RIGHT),
            r.wf(),
    {
        WebsocketActor { snake: Snake::new(Point { x: 10, y: 3 }, Direction::RIGHT) }
    }

    pub open spec fn wf(&self) -> bool {
        self.snake.body@.len() > 0
    }

    /// Reads a frame as a heading word and steers the snake by it; frames
    /// that name no heading are ignored.
    pub fn handle_text(&mut self, text: &[u8])
        requires
            old(self).wf(),
        ensures
            final(self).wf(),
            final(self).snake@ == match direction_of(trim(text@)) {
                Some(d) => turn_snake(old(self).snake@, d),
                None => old(self).snake@,
            },
    {
        if let Some(d) = parse_direction(text) {
            self.snake.set_direction(d);
        }
    }

    /// Moves the snake one cell.
    pub fn tick(&mut self)
        requires
            old(self).wf(),
        ensures
            final(self).wf(),
            final(self).snake@ == tick_snake(old(self).snake@),
    {
        self.snake.update();
    }
}

} // verus!
