use vstd::prelude::*;

use std::collections::HashMap;

use crate::game::{Direction, Game};
use crate::room::{
    new_room, room_join, room_leave, room_tick, room_turn, seated, GameSession, JoinError, Left,
    PlayerId, RoomView,
};

verus! {

broadcast use vstd::std_specs::hash::group_hash_axioms;

#[derive(Clone, Copy, Debug, PartialEq, Eq, Structural)]
pub enum ConnectError {
    /// The named match already seats two players.
    MatchFull,
    /// The named match has handed out every player identifier it can.
    PlayerIdsExhausted,
}

#[derive(Clone, Copy, Debug, PartialEq, Eq, Structural)]
pub struct ConnectGameServerResult {
    pub match_id: usize,
    pub player_id: PlayerId,
    /// Whether this join filled the match, so that its tick loop begins.
    pub started: bool,
}

/// The registry of live matches, keyed by match identifier.
pub struct GameServer {
    pub game_sessions: HashMap<usize, GameSession>,
}

pub open spec fn join_error(e: JoinError) -> ConnectError {
    match e {
        JoinError::MatchFull => ConnectError::MatchFull,
        JoinError::PlayerIdsExhausted => ConnectError::PlayerIdsExhausted,
    }
}

/// Every registered match is well formed, is filed under its own
/// identifier, and seats at least one player.
pub open spec fn registry_wf(m: Map<usize, RoomView>) -> bool {
    forall|k: usize| #[trigger]
        m.contains_key(k) ==> m[k].wf() && m[k].id == k && !m[k].is_empty()
}

/// The identifier `k` places after `fresh`, wrapping past the largest.
pub open spec fn candidate(fresh: usize, k: int) -> usize {
    if fresh + k <= usize::MAX {
        (fresh + k) as usize
    } else {
        (fresh + k - usize::MAX - 1) as usize
    }
}

/// The first identifier from `candidate(fresh, k)` on that names no match.
pub open spec fn probe(m: Map<usize, RoomView>, fresh: usize, k: int) -> usize
    decreases usize::MAX + 1 - k,
{
    if k > usize::MAX || !m.contains_key(candidate(fresh, k)) {
        candidate(fresh, k)
    } else {
        probe(m, fresh, k + 1)
    }
}

proof fn lemma_candidates_distinct(fresh: usize, j: int, k: int)
    requires
        0 <= j < k <= usize::MAX,
    ensures
        candidate(fresh, j) != candidate(fresh, k),
{
}

/// What a connect does to the registry. A named match is joined, and created
/// first if unknown; without a name, a new match is created under the first
/// identifier from `fresh` on that names no match.
pub open spec fn registry_connect(
    m: Map<usize, RoomView>,
    requested: Option<usize>,
    fresh: usize,
) -> (Map<usize, RoomView>, Result<ConnectGameServerResult, ConnectError>) {
    let id = match requested {
        Some(i) => i,
        None => probe(m, fresh, 0),
    };
    let room = if m.contains_key(id) {
        m[id]
    } else {
        new_room(id)
    };
    let (n, res) = room_join(room);
    match res {
        Ok(j) => (
            m.insert(id, n),
            Ok(ConnectGameServerResult { match_id: id, player_id: j.player_id, started: j.started }),
        ),
        Err(e) => (m, Err(join_error(e))),
    }
}

/// What a disconnect does to the registry: the player leaves the named
/// match, and a match left empty is removed. An unknown match is no error.
pub open spec fn registry_disconnect(m: Map<usize, RoomView>, id: usize, p: PlayerId) -> (
    Map<usize, RoomView>,
    Option<Left>,
) {
    if !m.contains_key(id) {
        (m, None)
    } else {
        let (n, l) = room_leave(m[id], p);
        if n.is_empty() {
            (m.remove(id), Some(l))
        } else {
            (m.insert(id, n), Some(l))
        }
    }
}

pub open spec fn registry_turn(m: Map<usize, RoomView>, id: usize, p: PlayerId, d: Direction) -> Map<
    usize,
    RoomView,
> {
    if m.contains_key(id) {
        m.insert(id, room_turn(m[id], p, d))
    } else {
        m
    }
}

pub open spec fn registry_tick(m: Map<usize, RoomView>, id: usize) -> Map<usize, RoomView> {
    if m.contains_key(id) {
        m.insert(id, room_tick(m[id]))
    } else {
        m
    }
}

/// Relies on rand::random: an identifier drawn at random; nothing is known
/// of its value.
#[verifier::external_body]
fn random_id() -> (r: usize) {
    rand::random::<usize>()
}

/// Connects that all name one new identifier create exactly one match under
/// it, leave every other match as it was, seat two distinct players, and
/// the third is refused as the match is full.
pub proof fn lemma_one_match_per_id(
    m: Map<usize, RoomView>,
    id: usize,
    f1: usize,
    f2: usize,
    f3: usize,
)
    requires
        registry_wf(m),
        !m.contains_key(id),
    ensures
        ({
            let (m1, r1) = registry_connect(m, Some(id), f1);
            let (m2, r2) = registry_connect(m1, Some(id), f2);
            let (m3, r3) = registry_connect(m2, Some(id), f3);
            &&& r1 matches Ok(c1) && c1.match_id == id && !c1.started
            &&& r2 matches Ok(c2) && c2.match_id == id && c2.started
            &&& r1.unwrap().player_id != r2.unwrap().player_id
            &&& r3 == Err::<ConnectGameServerResult, ConnectError>(ConnectError::MatchFull)
            &&& m3 == m2
            &&& m3.contains_key(id)
            &&& m3.remove(id) == m
            &&& m3[id].is_active()
            &&& m3[id].seats(r1.unwrap().player_id)
            &&& m3[id].seats(r2.unwrap().player_id)
        }),
{
    let (m1, r1) = registry_connect(m, Some(id), f1);
    let (m2, r2) = registry_connect(m1, Some(id), f2);
    assert(m2.remove(id) =~= m);
}

/// A disconnect removes a registered match exactly when the leave empties
/// it, and leaves every other match as it was.
pub proof fn lemma_removed_iff_empty(m: Map<usize, RoomView>, id: usize, p: PlayerId)
    requires
        registry_wf(m),
        m.contains_key(id),
    ensures
        ({
            let (after, _) = registry_disconnect(m, id, p);
            &&& !after.contains_key(id) <==> room_leave(m[id], p).0.is_empty()
            &&& after.remove(id) == m.remove(id)
        }),
{
    let (after, _) = registry_disconnect(m, id, p);
    assert(after.remove(id) =~= m.remove(id));
}

/// `n` connects in a row, all naming `id`: the registry after them and the
/// result of each.
pub open spec fn connect_many(m: Map<usize, RoomView>, id: usize, n: nat) -> (
    Map<usize, RoomView>,
    Seq<Result<ConnectGameServerResult, ConnectError>>,
)
    decreases n,
{
    if n == 0 {
        (m, Seq::empty())
    } else {
        let (before, results) = connect_many(m, id, (n - 1) as nat);
        let (after, r) = registry_connect(before, Some(id), 0);
        (after, results.push(r))
    }
}

/// However many connects name one new identifier, one match is created
/// under it and nothing else changes; the first two are seated in it, and
/// every later one is refused as the match is full.
pub proof fn lemma_connects_to_one_id(m: Map<usize, RoomView>, id: usize, n: nat)
    requires
        registry_wf(m),
        !m.contains_key(id),
    ensures
        ({
            let (after, results) = connect_many(m, id, n);
            &&& results.len() == n
            &&& n >= 1 ==> after.contains_key(id) && after.remove(id) == m
            &&& n >= 2 ==> after == connect_many(m, id, 2).0 && after[id].is_active()
            &&& forall|i: int| 0 <= i < n && i < 2 ==> (#[trigger] results[i] matches Ok(c)
                && c.match_id == id)
            &&& forall|i: int| 2 <= i < n ==> #[trigger] results[i] == Err::<
                ConnectGameServerResult,
                ConnectError,
            >(ConnectError::MatchFull)
        }),
    decreases n,
{
    reveal_with_fuel(connect_many, 3);
    if n > 0 {
        lemma_connects_to_one_id(m, id, (n - 1) as nat);
        lemma_one_match_per_id(m, id, 0, 0, 0);
        let (before, results) = connect_many(m, id, (n - 1) as nat);
        let (after, r) = registry_connect(before, Some(id), 0);
        assert(connect_many(m, id, n) == (after, results.push(r)));
        assert forall|i: int| 0 <= i < n - 1 implies #[trigger] results.push(r)[i] == results[i] by {}
        if n == 1 {
            assert(after.remove(id) =~= m);
        } else if n == 2 {
            assert(after.remove(id) =~= m);
        } else {
            assert(before == connect_many(m, id, 2).0);
            assert(before[id].is_active());
            assert(r == Err::<ConnectGameServerResult, ConnectError>(ConnectError::MatchFull));
            assert(after == before);
        }
    }
}

impl GameServer {
    /// The matches, seen through their views.
    pub open spec fn rooms(&self) -> Map<usize, RoomView> {
        Map::new(|k: usize| self.game_sessions@.contains_key(k), |k: usize| self.game_sessions@[k]@)
    }

    pub open spec fn wf(&self) -> bool {
        registry_wf(self.rooms())
    }

    pub fn new() -> (r: GameServer)
        ensures
            r.rooms() == Map::<usize, RoomView>::empty(),
            r.wf(),
    {
        let r = GameServer { game_sessions: HashMap::new() };
        proof {
            assert(r.rooms() =~= Map::<usize, RoomView>::empty());
        }
        r
    }

    proof fn lemma_rooms_insert(old_s: &GameServer, new_s: &GameServer, id: usize, g: GameSession)
        requires
            new_s.game_sessions@ == old_s.game_sessions@.insert(id, g),
        ensures
            new_s.rooms() == old_s.rooms().insert(id, g@),
    {
        assert(new_s.rooms() =~= old_s.rooms().insert(id, g@));
    }

    /// Joins the match named `requested`, creating it if unknown, or creates
    /// a new match when no match is named: under `fresh` if that names no
    /// match, else under the next identifier after it that names none.
    pub fn connect_with(&mut self, requested: Option<usize>, fresh: usize) -> (r: Result<
        ConnectGameServerResult,
        ConnectError,
    >)
        requires
            old(self).wf(),
        ensures
            (final(self).rooms(), r) == registry_connect(old(self).rooms(), requested, fresh),
            final(self).wf(),
            requested.is_none() ==> (r matches Ok(c) && !old(self).rooms().contains_key(c.match_id)
                && final(self).rooms().dom() == old(self).rooms().dom().insert(c.match_id)
                && !c.started),
    {
        let ghost before = *self;
        let id = match requested {
            Some(i) => i,
            None => {
                let n = self.game_sessions.len();
                let mut k: usize = 0;
                let mut c: usize = fresh;
                let ghost mut tried: Set<usize> = Set::empty();
                while self.game_sessions.contains_key(&c)
                    invariant
                        *self == before,
                        k <= n,
                        n == self.game_sessions@.dom().len(),
                        c == candidate(fresh, k as int),
                        probe(self.rooms(), fresh, 0) == probe(self.rooms(), fresh, k as int),
                        tried.finite(),
                        tried.len() == k,
                        tried.subset_of(self.game_sessions@.dom()),
                        forall|x: usize| #[trigger]
                            tried.contains(x) ==> exists|j: int|
                                0 <= j < k && x == #[trigger] candidate(fresh, j),
                    decreases n - k,
                {
                    proof {
                        assert(self.rooms().contains_key(c));
                        if tried.contains(c) {
                            let j = choose|j: int| 0 <= j < k && c == #[trigger] candidate(fresh, j);
                            lemma_candidates_distinct(fresh, j, k as int);
                        }
                        let grown = tried.insert(c);
                        vstd::set_lib::lemma_len_subset(grown, self.game_sessions@.dom());
                        assert forall|x: usize| #[trigger] grown.contains(x) implies exists|j: int|
                            0 <= j < k + 1 && x == #[trigger] candidate(fresh, j) by {
                            if x == c {
                                assert(x == candidate(fresh, k as int));
                            } else {
                                let j = choose|j: int| 0 <= j < k && x == #[trigger] candidate(fresh, j);
                                assert(0 <= j < k + 1 && x == candidate(fresh, j));
                            }
                        }
                        tried = grown;
                    }
                    k = k + 1;
                    c = if c < usize::MAX {
                        c + 1
                    } else {
                        0
                    };
                }
                proof {
                    assert(!self.rooms().contains_key(c));
                }
                c
            },
        };
        let (mut room, existed) = match self.game_sessions.remove(&id) {
            Some(g) => {
                proof {
                    assert(before.rooms().contains_key(id));
                }
                (g, true)
            },
            None => (GameSession::new(id), false),
        };
        match room.join() {
            Ok(j) => {
                self.game_sessions.insert(id, room);
                proof {
                    assert(self.game_sessions@ =~= before.game_sessions@.insert(id, room));
                    GameServer::lemma_rooms_insert(&before, self, id, room);
                }
                Ok(ConnectGameServerResult { match_id: id, player_id: j.player_id, started: j.started })
            },
            Err(e) => {
                if existed {
                    self.game_sessions.insert(id, room);
                    proof {
                        assert(self.game_sessions@ =~= before.game_sessions@.insert(id, room));
                        GameServer::lemma_rooms_insert(&before, self, id, room);
                        assert(self.rooms() =~= before.rooms());
                    }
                } else {
                    proof {
                        assert(self.game_sessions@ =~= before.game_sessions@);
                        assert(self.rooms() =~= before.rooms());
                    }
                }
                let err = match e {
                    JoinError::MatchFull => ConnectError::MatchFull,
                    JoinError::PlayerIdsExhausted => ConnectError::PlayerIdsExhausted,
                };
                Err(err)
            },
        }
    }

    /// Joins the match named `requested`, creating it if unknown, or creates
    /// a new match under a randomly drawn identifier when none is named.
    pub fn connect(&mut self, requested: Option<usize>) -> (r: Result<ConnectGameServerResult, ConnectError>)
        requires
            old(self).wf(),
        ensures
            final(self).wf(),
            exists|fresh: usize|
                (final(self).rooms(), r) == registry_connect(old(self).rooms(), requested, fresh),
            requested.is_none() ==> (r matches Ok(c) && !old(self).rooms().contains_key(c.match_id)
                && final(self).rooms().dom() == old(self).rooms().dom().insert(c.match_id)
                && !c.started),
            requested matches Some(i) ==> (final(self).rooms(), r) == registry_connect(
                old(self).rooms(),
                requested,
                i,
            ),
    {
        let fresh = match requested {
            Some(i) => i,
            None => random_id(),
        };
        self.connect_with(requested, fresh)
    }

    /// The player leaves the named match; a match left empty is removed.
    /// Unknown matches and unseated players change nothing.
    pub fn disconnect(&mut self, match_id: usize, player: PlayerId) -> (r: Option<Left>)
        requires
            old(self).wf(),
        ensures
            (final(self).rooms(), r) == registry_disconnect(old(self).rooms(), match_id, player),
            final(self).wf(),
    {
        let ghost before = *self;
        match self.game_sessions.remove(&match_id) {
            None => {
                proof {
                    assert(self.rooms() =~= before.rooms());
                }
                None
            },
            Some(g) => {
                proof {
                    assert(before.rooms().contains_key(match_id));
                    assert(g@ == before.rooms()[match_id]);
                }
                let mut room = g;
                let left = room.leave(player);
                if left.empty {
                    proof {
                        assert(self.rooms() =~= before.rooms().remove(match_id));
                    }
                } else {
                    self.game_sessions.insert(match_id, room);
                    proof {
                        assert(self.game_sessions@ =~= before.game_sessions@.insert(match_id, room));
                        GameServer::lemma_rooms_insert(&before, self, match_id, room);
                    }
                }
                Some(left)
            },
        }
    }

    /// Steers the snake of `player` in the named match; ignored when either
    /// is unknown.
    pub fn change_direction(&mut self, match_id: usize, player: PlayerId, direction: Direction)
        requires
            old(self).wf(),
        ensures
            final(self).rooms() == registry_turn(old(self).rooms(), match_id, player, direction),
            final(self).wf(),
    {
        let ghost before = *self;
        match self.game_sessions.remove(&match_id) {
            None => {
                proof {
                    assert(self.rooms() =~= before.rooms());
                }
            },
            Some(g) => {
                proof {
                    assert(before.rooms().contains_key(match_id));
                    assert(g@ == before.rooms()[match_id]);
                }
                let mut room = g;
                room.change_direction(player, direction);
                self.game_sessions.insert(match_id, room);
                proof {
                    assert(self.game_sessions@ =~= before.game_sessions@.insert(match_id, room));
                    GameServer::lemma_rooms_insert(&before, self, match_id, room);
                }
            },
        }
    }

    /// One firing of the named match's tick loop. While the match is active,
    /// its game advances and the new state comes back, to be sent to each
    /// player; otherwise nothing changes and nothing comes back.
    pub fn tick(&mut self, match_id: usize) -> (r: Option<Game>)
        requires
            old(self).wf(),
        ensures
            final(self).rooms() == registry_tick(old(self).rooms(), match_id),
            final(self).wf(),
            r.is_some() <==> (old(self).rooms().contains_key(match_id) && old(
                self,
            ).rooms()[match_id].is_active()),
            r matches Some(g) ==> g@ == final(self).rooms()[match_id].game && g.wf(),
    {
        let ghost before = *self;
        match self.game_sessions.remove(&match_id) {
            None => {
                proof {
                    assert(self.rooms() =~= before.rooms());
                }
                None
            },
            Some(g) => {
                proof {
                    assert(before.rooms().contains_key(match_id));
                    assert(g@ == before.rooms()[match_id]);
                }
                let mut room = g;
                let advanced = room.tick();
                let state = if advanced {
                    Some(room.game.snapshot())
                } else {
                    None
                };
                self.game_sessions.insert(match_id, room);
                proof {
                    assert(self.game_sessions@ =~= before.game_sessions@.insert(match_id, room));
                    GameServer::lemma_rooms_insert(&before, self, match_id, room);
                }
                state
            },
        }
    }

    /// The players seated in the named match, in slot order; empty for an
    /// unknown match.
    pub fn occupants(&self, match_id: usize) -> (r: Vec<PlayerId>)
        ensures
            self.rooms().contains_key(match_id) ==> r@ == seated(self.rooms()[match_id]),
            !self.rooms().contains_key(match_id) ==> r@.len() == 0,
    {
        match self.game_sessions.get(&match_id) {
            Some(g) => g.occupants(),
            None => Vec::new(),
        }
    }

    /// Whether a match is registered under `match_id`.
    pub fn contains(&self, match_id: usize) -> (r: bool)
        ensures
            r == self.rooms().contains_key(match_id),
    {
        self.game_sessions.contains_key(&match_id)
    }

    /// The number of registered matches.
    pub fn len(&self) -> (r: usize)
        ensures
            r == self.rooms().dom().len(),
    {
        proof {
            assert(self.rooms().dom() =~= self.game_sessions@.dom());
        }
        self.game_sessions.len()
    }
}

} // verus!
