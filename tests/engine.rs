use snake_match::game::{Direction, Game, Player, Point, Snake};

fn body_of(points: &[(u32, u32)]) -> Vec<Point> {
    points.iter().map(|&(x, y)| Point { x, y }).collect()
}

#[test]
fn new_snake_heading_right_is_moved_off_the_left_edge() {
    let s = Snake::new(Point { x: 0, y: 28 }, Direction::RIGHT);
    assert_eq!(s.body, body_of(&[(5, 28), (4, 28), (3, 28), (2, 28), (1, 28)]));
    assert_eq!(s.direction, Direction::RIGHT);
}

#[test]
fn new_snake_heading_left_is_moved_off_the_right_edge() {
    let s = Snake::new(Point { x: 80, y: 29 }, Direction::LEFT);
    assert_eq!(s.body, body_of(&[(75, 29), (76, 29), (77, 29), (78, 29), (79, 29)]));
}

#[test]
fn new_snake_heading_up_trails_downward() {
    let s = Snake::new(Point { x: 10, y: 58 }, Direction::UP);
    assert_eq!(s.body, body_of(&[(10, 55), (10, 56), (10, 57), (10, 58), (10, 59)]));
}

#[test]
fn new_snake_heading_down_trails_upward() {
    let s = Snake::new(Point { x: 10, y: 0 }, Direction::DOWN);
    assert_eq!(s.body, body_of(&[(10, 5), (10, 4), (10, 3), (10, 2), (10, 1)]));
}

#[test]
fn new_snake_away_from_edges_keeps_its_head() {
    let s = Snake::new(Point { x: 40, y: 30 }, Direction::RIGHT);
    assert_eq!(s.body[0], Point { x: 40, y: 30 });
    assert_eq!(s.body.len(), 5);
}

#[test]
fn reverse_turns_are_refused() {
    let pairs = [
        (Direction::UP, Direction::DOWN),
        (Direction::DOWN, Direction::UP),
        (Direction::LEFT, Direction::RIGHT),
        (Direction::RIGHT, Direction::LEFT),
    ];
    for (current, reverse) in pairs {
        let mut s = Snake::new(Point { x: 40, y: 30 }, current);
        assert!(!s.set_direction(reverse));
        assert_eq!(s.direction, current);
    }
}

#[test]
fn side_turns_and_same_heading_are_taken() {
    let mut s = Snake::new(Point { x: 40, y: 30 }, Direction::RIGHT);
    assert!(s.set_direction(Direction::RIGHT));
    assert!(s.set_direction(Direction::UP));
    assert_eq!(s.direction, Direction::UP);
    assert!(s.set_direction(Direction::LEFT));
    assert_eq!(s.direction, Direction::LEFT);
}

#[test]
fn reverse_stays_refused_after_many_refused_attempts() {
    let mut s = Snake::new(Point { x: 40, y: 30 }, Direction::UP);
    for _ in 0..50 {
        assert!(!s.set_direction(Direction::DOWN));
    }
    assert!(!s.set_direction(Direction::DOWN));
    assert_eq!(s.direction, Direction::UP);
}

#[test]
fn update_moves_head_and_drops_tail() {
    let mut s = Snake::new(Point { x: 40, y: 30 }, Direction::RIGHT);
    s.update();
    assert_eq!(s.body, body_of(&[(41, 30), (40, 30), (39, 30), (38, 30), (37, 30)]));
    s.set_direction(Direction::UP);
    s.update();
    assert_eq!(s.body, body_of(&[(41, 29), (41, 30), (40, 30), (39, 30), (38, 30)]));
}

#[test]
fn right_edge_moving_right_is_a_no_op() {
    let mut s = Snake::new(Point { x: 79, y: 10 }, Direction::RIGHT);
    let before = s.body.clone();
    s.update();
    assert_eq!(s.body, before);
    assert_eq!(s.body[0], Point { x: 79, y: 10 });
}

#[test]
fn other_edges_are_no_ops_too() {
    let mut left = Snake { body: body_of(&[(0, 7), (1, 7)]), direction: Direction::LEFT };
    left.update();
    assert_eq!(left.body, body_of(&[(0, 7), (1, 7)]));
    let mut up = Snake { body: body_of(&[(3, 0), (3, 1)]), direction: Direction::UP };
    up.update();
    assert_eq!(up.body, body_of(&[(3, 0), (3, 1)]));
    let mut down = Snake { body: body_of(&[(3, 59), (3, 58)]), direction: Direction::DOWN };
    down.update();
    assert_eq!(down.body, body_of(&[(3, 59), (3, 58)]));
}

#[test]
fn length_is_kept_over_many_ticks_and_turns() {
    let mut s = Snake::new(Point { x: 40, y: 30 }, Direction::RIGHT);
    let turns = [Direction::UP, Direction::LEFT, Direction::DOWN, Direction::RIGHT];
    for i in 0..500usize {
        if i % 7 == 0 {
            s.set_direction(turns[(i / 7) % 4]);
        }
        s.update();
        assert_eq!(s.body.len(), 5);
    }
}

#[test]
fn new_game_places_both_snakes() {
    let g = Game::new();
    assert_eq!(g.players.0.body[0], Point { x: 5, y: 28 });
    assert_eq!(g.players.0.direction, Direction::RIGHT);
    assert_eq!(g.players.1.body[0], Point { x: 75, y: 29 });
    assert_eq!(g.players.1.direction, Direction::LEFT);
    assert!(g.winner.is_none());
}

#[test]
fn game_tick_moves_both_snakes() {
    let mut g = Game::new();
    g.tick();
    assert_eq!(g.players.0.body[0], Point { x: 6, y: 28 });
    assert_eq!(g.players.1.body[0], Point { x: 74, y: 29 });
    assert!(g.winner.is_none());
}

#[test]
fn change_direction_touches_only_the_named_player() {
    let mut g = Game::new();
    assert!(g.change_direction(Player::Player2, Direction::UP));
    assert_eq!(g.players.1.direction, Direction::UP);
    assert_eq!(g.players.0.direction, Direction::RIGHT);
    assert!(!g.change_direction(Player::Player1, Direction::LEFT));
    assert_eq!(g.players.0.direction, Direction::RIGHT);
}

#[test]
fn snapshot_is_independent_of_the_game() {
    let mut g = Game::new();
    let snap = g.snapshot();
    g.tick();
    assert_eq!(snap.players.0.body[0], Point { x: 5, y: 28 });
    assert_eq!(g.players.0.body[0], Point { x: 6, y: 28 });
}
