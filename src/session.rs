use vstd::prelude::*;

use crate::game::Direction;
use crate::protocol::{command_of, parse_command, Command};
use crate::registry::{registry_disconnect, registry_wf, ConnectGameServerResult};
use crate::room::{seated, PlayerId, RoomView};

verus! {

/// How often the heartbeat is checked, in milliseconds.
pub const HEARTBEAT_INTERVAL_MS: u64 = 5000;

/// How long a connection may stay silent before it is dropped, in
/// milliseconds.
pub const CLIENT_TIMEOUT_MS: u64 = 10000;

/// The match a session has joined, and the identifier it plays under.
#[derive(Clone, Copy, Debug, PartialEq, Eq, Structural)]
pub struct Membership {
    pub match_id: usize,
    pub player_id: PlayerId,
}

/// What a session asks to be done after a frame.
#[derive(Clone, Copy, Debug, PartialEq, Eq, Structural)]
pub enum SessionAction {
    /// Leave `leave`, the match the session held until now, if any; then join
    /// the match named `requested`, or a new one.
    Join { requested: Option<usize>, leave: Option<Membership> },
    /// Leave the match.
    Leave(Membership),
    /// Steer the player's own snake.
    Steer(Membership, Direction),
    /// Reply that the command was not recognized.
    Unrecognized,
    /// Nothing to do.
    Nothing,
}

/// What a session asks to be done when its heartbeat is checked.
#[derive(Clone, Copy, Debug, PartialEq, Eq, Structural)]
pub enum HeartbeatAction {
    /// The peer is alive: ping it again.
    Ping,
    /// The peer fell silent: leave the match held, if any, and close.
    Timeout(Option<Membership>),
}

/// The decisions of one client connection: which match it plays in and
/// when it was last heard from.
#[derive(Clone, Copy, Debug, PartialEq, Eq, Structural)]
pub struct WsClientSession {
    pub membership: Option<Membership>,
    /// When the peer last answered a ping, in milliseconds.
    pub last_seen: u64,
}

/// Whether more than the timeout has passed since `last_seen`.
pub open spec fn timed_out(last_seen: u64, now: u64) -> bool {
    now - last_seen > CLIENT_TIMEOUT_MS
}

/// What a heartbeat check does: past the timeout the session gives up its
/// match and asks to be closed.
pub open spec fn heartbeat_step(s: WsClientSession, now: u64) -> (WsClientSession, HeartbeatAction) {
    if timed_out(s.last_seen, now) {
        (WsClientSession { membership: None, ..s }, HeartbeatAction::Timeout(s.membership))
    } else {
        (s, HeartbeatAction::Ping)
    }
}

/// What a command does to a session and what it asks for. A session in no
/// match has nothing to stop or steer. A `/connect` from a session that
/// already holds a slot first gives that slot up, so that no slot is left
/// held by a session that has moved on.
pub open spec fn command_step(s: WsClientSession, c: Command) -> (WsClientSession, SessionAction) {
    match c {
        Command::Connect(requested) => (
            WsClientSession { membership: None, ..s },
            SessionAction::Join { requested, leave: s.membership },
        ),
        Command::Stop => match s.membership {
            Some(m) => (WsClientSession { membership: None, ..s }, SessionAction::Leave(m)),
            None => (s, SessionAction::Nothing),
        },
        Command::Direction(Some(d)) => match s.membership {
            Some(m) => (s, SessionAction::Steer(m, d)),
            None => (s, SessionAction::Nothing),
        },
        Command::Direction(None) => (s, SessionAction::Nothing),
        Command::Unrecognized => (s, SessionAction::Unrecognized),
    }
}

/// When a session times out while it holds a slot, the disconnect it asks
/// for vacates that slot, and removes the match when it was the only player.
pub proof fn lemma_timeout_vacates_slot(s: WsClientSession, now: u64, rooms: Map<usize, RoomView>)
    requires
        registry_wf(rooms),
        timed_out(s.last_seen, now),
        s.membership matches Some(m) && rooms.contains_key(m.match_id) && rooms[m.match_id].seats(
            m.player_id,
        ),
    ensures
        ({
            let m = s.membership.unwrap();
            let (after, _) = registry_disconnect(rooms, m.match_id, m.player_id);
            &&& heartbeat_step(s, now).1 == HeartbeatAction::Timeout(Some(m))
            &&& heartbeat_step(s, now).0.membership.is_none()
            &&& after.contains_key(m.match_id) ==> !after[m.match_id].seats(m.player_id)
            &&& seated(rooms[m.match_id]) == seq![m.player_id] ==> !after.contains_key(m.match_id)
            &&& registry_wf(after)
        }),
{
    let m = s.membership.unwrap();
    let r = rooms[m.match_id];
    if seated(r) == seq![m.player_id] {
        if r.player1.is_some() && r.player2.is_some() {
            assert(seated(r).len() == 2);
        }
    }
}

impl WsClientSession {
    /// A session opened at `now`, in no match yet.
    pub fn new(now: u64) -> (r: WsClientSession)
        ensures
            r.membership.is_none(),
            r.last_seen == now,
    {
        WsClientSession { membership: None, last_seen: now }
    }

    /// The peer answered a ping at `now`.
    pub fn pong(&mut self, now: u64)
        ensures
            *final(self) == (WsClientSession { last_seen: now, ..*old(self) }),
    {
        self.last_seen = now;
    }

    /// The heartbeat check at `now`.
    pub fn heartbeat(&mut self, now: u64) -> (r: HeartbeatAction)
        ensures
            (*final(self), r) == heartbeat_step(*old(self), now),
    {
        if now > self.last_seen && now - self.last_seen > CLIENT_TIMEOUT_MS {
            let held = self.membership;
            self.membership = None;
            HeartbeatAction::Timeout(held)
        } else {
            HeartbeatAction::Ping
        }
    }

    /// Decides what a command asks for.
    pub fn handle_command(&mut self, command: Command) -> (r: SessionAction)
        ensures
            (*final(self), r) == command_step(*old(self), command),
    {
        match command {
            Command::Connect(requested) => {
                let leave = self.membership;
                self.membership = None;
                SessionAction::Join { requested, leave }
            },
            Command::Stop => match self.membership {
                Some(m) => {
                    self.membership = None;
                    SessionAction::Leave(m)
                },
                None => SessionAction::Nothing,
            },
            Command::Direction(Some(d)) => match self.membership {
                Some(m) => SessionAction::Steer(m, d),
                None => SessionAction::Nothing,
            },
            Command::Direction(None) => SessionAction::Nothing,
            Command::Unrecognized => SessionAction::Unrecognized,
        }
    }

    /// Reads a text frame and decides what it asks for.
    pub fn handle_text(&mut self, text: &[u8]) -> (r: SessionAction)
        ensures
            (*final(self), r) == command_step(*old(self), command_of(text@)),
    {
        let command = parse_command(text);
        self.handle_command(command)
    }

    /// The registry seated this session.
    pub fn joined(&mut self, c: ConnectGameServerResult)
        ensures
            *final(self) == (WsClientSession {
                membership: Some(Membership { match_id: c.match_id, player_id: c.player_id }),
                ..*old(self)
            }),
    {
        self.membership = Some(Membership { match_id: c.match_id, player_id: c.player_id });
    }

    /// The connection is closing: the match held, if any, is to be left first.
    pub fn closing(&mut self) -> (r: Option<Membership>)
        ensures
            r == old(self).membership,
            final(self).membership.is_none(),
            final(self).last_seen == old(self).last_seen,
    {
        let held = self.membership;
        self.membership = None;
        held
    }
}

} // verus!
