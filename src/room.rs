use vstd::prelude::*;

use crate::game::{
    initial_game, tick_game, turn_game, Direction, Game, GameView, Player,
};

verus! {

/// A player's identifier, handed out by the match that the player joins.
pub type PlayerId = u64;

#[derive(Clone, Copy, Debug, PartialEq, Eq, Structural)]
pub enum JoinError {
    /// Both player slots are taken.
    MatchFull,
    /// The match has handed out every player identifier it can.
    PlayerIdsExhausted,
}

#[derive(Clone, Copy, Debug, PartialEq, Eq, Structural)]
pub struct ConnectGameSessionResult {
    pub player_id: PlayerId,
    /// Whether this join filled the second slot, so that ticking begins.
    pub started: bool,
}

#[derive(Clone, Copy, Debug, PartialEq, Eq, Structural)]
pub struct Left {
    /// Whether the player held a slot of this match.
    pub vacated: bool,
    /// Whether ticking ended with this leave.
    pub stopped: bool,
    /// Whether both slots are now vacant.
    pub empty: bool,
}

/// One match: two player slots and the game they share.
pub struct GameSession {
    pub id: usize,
    pub player1: Option<PlayerId>,
    pub player2: Option<PlayerId>,
    pub game: Game,
    /// Whether the tick loop runs.
    pub running: bool,
    /// The identifier that the next player to join receives.
    pub next_player: PlayerId,
}

pub struct RoomView {
    pub id: usize,
    pub player1: Option<PlayerId>,
    pub player2: Option<PlayerId>,
    pub game: GameView,
    pub running: bool,
    pub next_player: PlayerId,
}

impl View for GameSession {
    type V = RoomView;

    open spec fn view(&self) -> RoomView {
        RoomView {
            id: self.id,
            player1: self.player1,
            player2: self.player2,
            game: self.game@,
            running: self.running,
            next_player: self.next_player,
        }
    }
}

impl RoomView {
    pub open spec fn is_active(self) -> bool {
        self.player1.is_some() && self.player2.is_some()
    }

    pub open spec fn is_empty(self) -> bool {
        self.player1.is_none() && self.player2.is_none()
    }

    pub open spec fn is_waiting(self) -> bool {
        !self.is_active() && !self.is_empty()
    }

    /// Whether `p` holds one of the two slots.
    pub open spec fn seats(self, p: PlayerId) -> bool {
        self.player1 == Some(p) || self.player2 == Some(p)
    }

    /// The tick loop runs exactly while both slots are taken, and the players
    /// seated hold distinct identifiers that were handed out already.
    pub open spec fn wf(self) -> bool {
        &&& self.running == self.is_active()
        &&& self.game.snake1.body.len() > 0
        &&& self.game.snake2.body.len() > 0
        &&& (self.player1 matches Some(a) ==> a < self.next_player)
        &&& (self.player2 matches Some(b) ==> b < self.next_player)
        &&& (self.is_active() ==> self.player1 != self.player2)
    }
}

/// A match with no players and a new game.
pub open spec fn new_room(id: usize) -> RoomView {
    RoomView {
        id,
        player1: None,
        player2: None,
        game: initial_game(),
        running: false,
        next_player: 0,
    }
}

/// What a join does to a match: the first vacant slot is taken, and taking
/// the second one starts the tick loop.
pub open spec fn room_join(r: RoomView) -> (RoomView, Result<ConnectGameSessionResult, JoinError>) {
    if r.is_active() {
        (r, Err(JoinError::MatchFull))
    } else if r.next_player == u64::MAX {
        (r, Err(JoinError::PlayerIdsExhausted))
    } else {
        let p = r.next_player;
        let seated = if r.player1.is_none() {
            RoomView { player1: Some(p), ..r }
        } else {
            RoomView { player2: Some(p), ..r }
        };
        let n = RoomView { running: seated.is_active(), next_player: (p + 1) as u64, ..seated };
        (n, Ok(ConnectGameSessionResult { player_id: p, started: n.is_active() }))
    }
}

/// What a leave does to a match: the player's slot is vacated, and the tick
/// loop stops once fewer than two players remain. An unseated player changes
/// nothing.
pub open spec fn room_leave(r: RoomView, p: PlayerId) -> (RoomView, Left) {
    let n = if r.player1 == Some(p) {
        RoomView { player1: None, ..r }
    } else if r.player2 == Some(p) {
        RoomView { player2: None, ..r }
    } else {
        r
    };
    let n = RoomView { running: n.is_active(), ..n };
    (n, Left { vacated: r.seats(p), stopped: r.running && !n.running, empty: n.is_empty() })
}

/// What a turn request does to a match: it steers the sender's own snake,
/// and is ignored when the sender holds no slot.
pub open spec fn room_turn(r: RoomView, p: PlayerId, d: Direction) -> RoomView {
    if r.player1 == Some(p) {
        RoomView { game: turn_game(r.game, Player::Player1, d), ..r }
    } else if r.player2 == Some(p) {
        RoomView { game: turn_game(r.game, Player::Player2, d), ..r }
    } else {
        r
    }
}

/// What one firing of the tick loop does: the game advances only while the
/// match is active.
pub open spec fn room_tick(r: RoomView) -> RoomView {
    if r.running {
        RoomView { game: tick_game(r.game), ..r }
    } else {
        r
    }
}

pub enum RoomEvent {
    Join,
    Leave(PlayerId),
    Turn(PlayerId, Direction),
    Tick,
}

pub open spec fn room_step(r: RoomView, e: RoomEvent) -> RoomView {
    match e {
        RoomEvent::Join => room_join(r).0,
        RoomEvent::Leave(p) => room_leave(r, p).0,
        RoomEvent::Turn(p, d) => room_turn(r, p, d),
        RoomEvent::Tick => room_tick(r),
    }
}

pub open spec fn room_run(r: RoomView, es: Seq<RoomEvent>) -> RoomView
    decreases es.len(),
{
    if es.len() == 0 {
        r
    } else {
        room_run(room_step(r, es[0]), es.drop_first())
    }
}

proof fn lemma_step_keeps_wf(r: RoomView, e: RoomEvent)
    requires
        r.wf(),
    ensures
        room_step(r, e).wf(),
{
}

/// Whatever joins, leaves, turns and ticks a well-formed match goes through,
/// its tick loop runs exactly when both slots are taken, and the game
/// advances on a tick only while it is active.
pub proof fn lemma_active_iff_full(r: RoomView, es: Seq<RoomEvent>)
    requires
        r.wf(),
    ensures
        room_run(r, es).wf(),
        room_run(r, es).running <==> (room_run(r, es).player1.is_some()
            && room_run(r, es).player2.is_some()),
        !room_run(r, es).is_active() ==> room_tick(room_run(r, es)) == room_run(r, es),
    decreases es.len(),
{
    if es.len() > 0 {
        lemma_step_keeps_wf(r, es[0]);
        lemma_active_iff_full(room_step(r, es[0]), es.drop_first());
    }
}

/// The game after `k` ticks.
pub open spec fn ticked(g: GameView, k: nat) -> GameView
    decreases k,
{
    if k == 0 {
        g
    } else {
        tick_game(ticked(g, (k - 1) as nat))
    }
}

/// The match after its tick loop fired `k` times with nothing else in between.
pub open spec fn fired(r: RoomView, k: nat) -> RoomView
    decreases k,
{
    if k == 0 {
        r
    } else {
        room_tick(fired(r, (k - 1) as nat))
    }
}

/// An active match whose tick loop fires `k` times stays active, keeps its
/// players, and holds the game after exactly `k` ticks; each firing hands
/// that state on, as `GameSession::tick` reports the match active.
pub proof fn lemma_firings_tick_the_game(r: RoomView, k: nat)
    requires
        r.wf(),
        r.is_active(),
    ensures
        fired(r, k).wf(),
        fired(r, k).is_active(),
        fired(r, k).player1 == r.player1,
        fired(r, k).player2 == r.player2,
        fired(r, k).game == ticked(r.game, k),
    decreases k,
{
    if k > 0 {
        lemma_firings_tick_the_game(r, (k - 1) as nat);
    }
}

impl GameSession {
    pub fn new(id: usize) -> (r: GameSession)
        ensures
            r@ == new_room(id),
            r@.wf(),
    {
        GameSession {
            id,
            player1: None,
            player2: None,
            game: Game::new(),
            running: false,
            next_player: 0,
        }
    }

    /// Seats a new player in the first vacant slot.
    pub fn join(&mut self) -> (r: Result<ConnectGameSessionResult, JoinError>)
        requires
            old(self)@.wf(),
        ensures
            (final(self)@, r) == room_join(old(self)@),
            final(self)@.wf(),
    {
        if self.player1.is_some() && self.player2.is_some() {
            return Err(JoinError::MatchFull);
        }
        if self.next_player == u64::MAX {
            return Err(JoinError::PlayerIdsExhausted);
        }
        let p = self.next_player;
        if self.player1.is_none() {
            self.player1 = Some(p);
        } else {
            self.player2 = Some(p);
        }
        self.next_player = p + 1;
        self.running = self.player1.is_some() && self.player2.is_some();
        Ok(ConnectGameSessionResult { player_id: p, started: self.running })
    }

    /// Vacates the slot of `player`, if it holds one.
    pub fn leave(&mut self, player: PlayerId) -> (r: Left)
        requires
            old(self)@.wf(),
        ensures
            (final(self)@, r) == room_leave(old(self)@, player),
            final(self)@.wf(),
    {
        let was_running = self.running;
        let vacated = self.seats(player);
        if self.player1 == Some(player) {
            self.player1 = None;
        } else if self.player2 == Some(player) {
            self.player2 = None;
        }
        self.running = self.player1.is_some() && self.player2.is_some();
        Left {
            vacated,
            stopped: was_running && !self.running,
            empty: self.player1.is_none() && self.player2.is_none(),
        }
    }

    /// Whether `player` holds one of the two slots.
    pub fn seats(&self, player: PlayerId) -> (r: bool)
        ensures
            r == self@.seats(player),
    {
        self.player1 == Some(player) || self.player2 == Some(player)
    }

    /// Steers the snake of `player`; ignored when `player` holds no slot.
    pub fn change_direction(&mut self, player: PlayerId, direction: Direction)
        requires
            old(self)@.wf(),
        ensures
            final(self)@ == room_turn(old(self)@, player, direction),
            final(self)@.wf(),
    {
        if self.player1 == Some(player) {
            self.game.change_direction(Player::Player1, direction);
        } else if self.player2 == Some(player) {
            self.game.change_direction(Player::Player2, direction);
        }
    }

    /// One firing of the tick loop; tells whether the game advanced, which is
    /// when its new state is to be sent to both players.
    pub fn tick(&mut self) -> (r: bool)
        requires
            old(self)@.wf(),
        ensures
            final(self)@ == room_tick(old(self)@),
            r == old(self)@.is_active(),
            final(self)@.wf(),
    {
        if self.running {
            self.game.tick();
        }
        self.running
    }

    /// The players seated, in slot order.
    pub fn occupants(&self) -> (r: Vec<PlayerId>)
        ensures
            r@ == seated(self@),
    {
        let mut v: Vec<PlayerId> = Vec::new();
        if let Some(a) = self.player1 {
            v.push(a);
        }
        if let Some(b) = self.player2 {
            v.push(b);
        }
        proof {
            assert(v@ =~= seated(self@));
        }
        v
    }
}

/// The identifiers of the seated players, in slot order.
pub open spec fn seated(r: RoomView) -> Seq<PlayerId> {
    let first = match r.player1 {
        Some(a) => seq![a],
        None => Seq::empty(),
    };
    let second = match r.player2 {
        Some(b) => seq![b],
        None => Seq::empty(),
    };
    first + second
}

} // verus!
