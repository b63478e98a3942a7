use snake_match::game::{Direction, Point};
use snake_match::registry::{ConnectError, GameServer};
use snake_match::room::{GameSession, JoinError};

#[test]
fn room_fills_and_starts_on_second_join() {
    let mut r = GameSession::new(9);
    let a = r.join().unwrap();
    assert!(!a.started);
    assert!(!r.running);
    let b = r.join().unwrap();
    assert!(b.started);
    assert!(r.running);
    assert_ne!(a.player_id, b.player_id);
    assert_eq!(r.occupants(), vec![a.player_id, b.player_id]);
    assert_eq!(r.join(), Err(JoinError::MatchFull));
}

#[test]
fn room_ticks_only_while_active() {
    let mut r = GameSession::new(1);
    assert!(!r.tick());
    assert_eq!(r.game.players.0.body[0], Point { x: 5, y: 28 });
    let a = r.join().unwrap();
    assert!(!r.tick());
    let b = r.join().unwrap();
    assert!(r.tick());
    assert_eq!(r.game.players.0.body[0], Point { x: 6, y: 28 });
    let left = r.leave(b.player_id);
    assert!(left.vacated && left.stopped && !left.empty);
    assert!(!r.running);
    assert!(!r.tick());
    assert_eq!(r.game.players.0.body[0], Point { x: 6, y: 28 });
    let left = r.leave(a.player_id);
    assert!(left.vacated && !left.stopped && left.empty);
}

#[test]
fn room_refills_a_vacated_slot() {
    let mut r = GameSession::new(1);
    let a = r.join().unwrap();
    let b = r.join().unwrap();
    r.leave(a.player_id);
    let c = r.join().unwrap();
    assert!(c.started);
    assert_ne!(c.player_id, a.player_id);
    assert_eq!(r.occupants(), vec![c.player_id, b.player_id]);
}

#[test]
fn room_ignores_stale_players() {
    let mut r = GameSession::new(1);
    let a = r.join().unwrap();
    r.leave(a.player_id);
    r.change_direction(a.player_id, Direction::UP);
    assert_eq!(r.game.players.0.direction, Direction::RIGHT);
    let left = r.leave(a.player_id);
    assert!(!left.vacated && !left.stopped && left.empty);
}

#[test]
fn room_player_ids_run_out() {
    let mut r = GameSession::new(1);
    r.next_player = u64::MAX;
    assert_eq!(r.join(), Err(JoinError::PlayerIdsExhausted));
    assert!(r.occupants().is_empty());
}

#[test]
fn room_steers_own_snake_only() {
    let mut r = GameSession::new(1);
    let a = r.join().unwrap();
    let b = r.join().unwrap();
    r.change_direction(b.player_id, Direction::DOWN);
    assert_eq!(r.game.players.1.direction, Direction::DOWN);
    assert_eq!(r.game.players.0.direction, Direction::RIGHT);
    r.change_direction(a.player_id, Direction::LEFT);
    assert_eq!(r.game.players.0.direction, Direction::RIGHT);
}

#[test]
fn three_connects_to_one_id_create_one_match() {
    let mut s = GameServer::new();
    let first = s.connect(Some(77)).unwrap();
    let second = s.connect(Some(77)).unwrap();
    let third = s.connect(Some(77));
    assert_eq!(first.match_id, 77);
    assert_eq!(second.match_id, 77);
    assert!(!first.started);
    assert!(second.started);
    assert_ne!(first.player_id, second.player_id);
    assert_eq!(third, Err(ConnectError::MatchFull));
    assert_eq!(s.len(), 1);
    assert_eq!(s.occupants(77), vec![first.player_id, second.player_id]);
}

#[test]
fn connect_without_id_creates_a_new_match_each_time() {
    let mut s = GameServer::new();
    let a = s.connect(None).unwrap();
    let b = s.connect(None).unwrap();
    assert!(!a.started && !b.started);
    assert_ne!(a.match_id, b.match_id);
    assert_eq!(s.len(), 2);
    assert!(s.contains(a.match_id) && s.contains(b.match_id));
}

#[test]
fn fresh_id_in_use_moves_to_the_next_free_one() {
    let mut s = GameServer::new();
    s.connect_with(Some(5), 0).unwrap();
    s.connect_with(Some(6), 0).unwrap();
    let c = s.connect_with(None, 5).unwrap();
    assert_eq!(c.match_id, 7);
    assert!(!c.started);
    assert_eq!(s.occupants(5).len(), 1);
    assert_eq!(s.occupants(7).len(), 1);
    assert_eq!(s.len(), 3);
}

#[test]
fn fresh_id_probing_wraps_past_the_largest() {
    let mut s = GameServer::new();
    s.connect_with(Some(usize::MAX), 0).unwrap();
    let c = s.connect_with(None, usize::MAX).unwrap();
    assert_eq!(c.match_id, 0);
    assert_eq!(s.len(), 2);
}

#[test]
fn fresh_id_free_is_used_as_drawn() {
    let mut s = GameServer::new();
    let c = s.connect_with(None, 12345).unwrap();
    assert_eq!(c.match_id, 12345);
}

#[test]
fn disconnect_removes_empty_matches_only() {
    let mut s = GameServer::new();
    let a = s.connect(Some(3)).unwrap();
    let b = s.connect(Some(3)).unwrap();
    let left = s.disconnect(3, a.player_id).unwrap();
    assert!(left.stopped && !left.empty);
    assert!(s.contains(3));
    assert_eq!(s.occupants(3), vec![b.player_id]);
    let left = s.disconnect(3, b.player_id).unwrap();
    assert!(left.empty);
    assert!(!s.contains(3));
    assert_eq!(s.len(), 0);
}

#[test]
fn disconnect_of_unknown_match_is_a_no_op() {
    let mut s = GameServer::new();
    s.connect(Some(1)).unwrap();
    assert!(s.disconnect(2, 0).is_none());
    assert_eq!(s.len(), 1);
}

#[test]
fn registry_ticks_only_active_matches() {
    let mut s = GameServer::new();
    s.connect(Some(4)).unwrap();
    assert!(s.tick(4).is_none());
    assert!(s.tick(99).is_none());
    s.connect(Some(4)).unwrap();
    let state = s.tick(4).unwrap();
    assert_eq!(state.players.0.body[0], Point { x: 6, y: 28 });
    assert_eq!(state.players.1.body[0], Point { x: 74, y: 29 });
    assert!(state.winner.is_none());
}

#[test]
fn registry_routes_turns_to_the_named_match() {
    let mut s = GameServer::new();
    let a = s.connect(Some(4)).unwrap();
    s.connect(Some(4)).unwrap();
    s.change_direction(4, a.player_id, Direction::UP);
    s.change_direction(5, a.player_id, Direction::DOWN);
    let state = s.tick(4).unwrap();
    assert_eq!(state.players.0.direction, Direction::UP);
    assert_eq!(state.players.0.body[0], Point { x: 5, y: 27 });
}
