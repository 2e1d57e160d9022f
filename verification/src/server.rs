//! The authoritative server's game state: the counter that hands out client
//! identifiers, the tick counter, and the table of connected players.
//!
//! The network side (accepting WebSockets, decoding and sending messages,
//! the 20 Hz timer) drives this state: each event it sees becomes one call
//! here, and what the call returns is what it sends.
use vstd::prelude::*;
use std::collections::HashMap;
use vstd::std_specs::hash::spec_hash_map_iter;
use vstd::std_specs::iter::IteratorSpec;
use crate::arena::{
    in_arena, lemma_in_arena_can_move, lemma_moved_in_arena, lemma_one_input_one_step,
    lemma_player_state_fields, moved, player_state, spawned, Player,
};
use crate::counter::{
    count_after, lemma_count_after_is_wrapping_offset, lemma_counts_distinct, next_count,
    wrapping_offset,
};
use crate::protocol::{C2s, ClientId, Input, PlayerState, S2c, Snapshot};

verus! {

broadcast use vstd::std_specs::hash::group_hash_axioms;

/// The abstract state of the server.
pub struct ServerView {
    /// The identifier handed to the most recently connected client.
    pub next_id: u32,
    /// The number of the last snapshot sent.
    pub tick: u32,
    /// The connected players, by client identifier.
    pub players: Map<ClientId, Player>,
}

impl ServerView {
    /// Every player stands inside the arena.
    pub open spec fn wf(self) -> bool {
        &&& self.players.dom().finite()
        &&& forall|id: ClientId| #[trigger] self.players.contains_key(id) ==> in_arena(self.players[id])
    }

    /// The state after a client connects: it gets the next identifier and
    /// a freshly spawned player.
    pub open spec fn connected(self) -> ServerView {
        let id = next_count(self.next_id);
        ServerView { next_id: id, tick: self.tick, players: self.players.insert(id, spawned()) }
    }

    /// The state after `k` clients connect one after another.
    pub open spec fn connected_times(self, k: nat) -> ServerView
        decreases k,
    {
        if k == 0 {
            self
        } else {
            self.connected_times((k - 1) as nat).connected()
        }
    }

    /// The state after a message from client `from`: an input moves that
    /// client's player; a message from a client without a player changes nothing.
    pub open spec fn received(self, from: ClientId, msg: C2s) -> ServerView {
        match msg {
            C2s::Input(input) => if self.players.contains_key(from) {
                ServerView {
                    players: self.players.insert(from, moved(self.players[from], input)),
                    ..self
                }
            } else {
                self
            },
        }
    }

    /// The state after client `id` disconnects: its player is gone.
    pub open spec fn disconnected(self, id: ClientId) -> ServerView {
        ServerView { players: self.players.remove(id), ..self }
    }

    /// The state after one tick of the game loop.
    pub open spec fn ticked(self) -> ServerView {
        ServerView { tick: next_count(self.tick), ..self }
    }
}

/// `states` reports each player of `players` exactly once, in some order,
/// with its identifier, position, health and last input sequence number.
pub open spec fn reports(states: Seq<PlayerState>, players: Map<ClientId, Player>) -> bool {
    &&& states.len() == players.dom().len()
    &&& forall|i: int|
        0 <= i < states.len() ==> {
            &&& players.contains_key(#[trigger] states[i].id)
            &&& states[i] == player_state(states[i].id, players[states[i].id])
        }
    &&& forall|i: int, j: int|
        0 <= i < j < states.len() ==> #[trigger] states[i].id != #[trigger] states[j].id
    &&& forall|id: ClientId|
        #[trigger] players.contains_key(id) ==> exists|i: int|
            0 <= i < states.len() && #[trigger] states[i].id == id
}

/// A listing that holds one entry per key of `m`, each with the key's
/// value and no entry twice, is reported exactly by `states` when the two
/// agree position by position.
proof fn lemma_listing_reports(
    states: Seq<PlayerState>,
    m: Map<ClientId, Player>,
    v: Seq<(&ClientId, &Player)>,
)
    requires
        m.dom().finite(),
        v.len() == m.dom().len(),
        v.len() == states.len(),
        v.no_duplicates(),
        forall|i: int| 0 <= i < v.len() ==> m.contains_key(*v[i].0) && m[*v[i].0] == *v[i].1,
        forall|k: ClientId| #[trigger] m.contains_key(k) ==> v.contains((&k, &m[k])),
        forall|i: int| 0 <= i < v.len() ==> #[trigger] states[i] == player_state(*v[i].0, *v[i].1),
    ensures
        reports(states, m),
{
    assert forall|i: int, j: int|
        0 <= i < j < states.len() implies #[trigger] states[i].id != #[trigger] states[j].id by {
        if states[i].id == states[j].id {
            assert(v[i] == v[j]);
        }
    }
    assert forall|id: ClientId| #[trigger] m.contains_key(id) implies exists|i: int|
        0 <= i < states.len() && #[trigger] states[i].id == id by {
        let i = v.index_of((&id, &m[id]));
        assert(v[i] == (&id, &m[id]));
        assert(states[i].id == id);
    }
}

/// The server's game state.
pub struct ServerState {
    next_id: u32,
    tick: u32,
    players: HashMap<ClientId, Player>,
}

impl ServerState {
    /// Every player of a live server stands inside the arena.
    #[verifier::type_invariant]
    spec fn inv(self) -> bool {
        self@.wf()
    }
}

impl View for ServerState {
    type V = ServerView;

    closed spec fn view(&self) -> ServerView {
        ServerView { next_id: self.next_id, tick: self.tick, players: self.players@ }
    }
}

impl ServerState {
    /// A server with no players, whose first client will get identifier 1.
    pub fn new() -> (s: ServerState)
        ensures
            s@ == (ServerView { next_id: 0, tick: 0, players: Map::empty() }),
            s@.wf(),
    {
        ServerState { next_id: 0, tick: 0, players: HashMap::new() }
    }

    /// Registers a new client: hands it the next identifier (wrapping after
    /// `u32::MAX`), spawns its player, and returns the identifier together
    /// with the welcome message to send it.
    pub fn connect(&mut self) -> (r: (ClientId, S2c))
        ensures
            final(self)@ == old(self)@.connected(),
            final(self)@.wf(),
            r.0 == next_count(old(self)@.next_id),
            r.1 == (S2c::Welcome { client_id: r.0 }),
            r.0 == (if old(self)@.next_id == 0xffff_ffff { 0 } else { old(self)@.next_id + 1 }),
            final(self)@.next_id == r.0,
            final(self)@.tick == old(self)@.tick,
            final(self)@.players.contains_key(r.0),
            final(self)@.players[r.0] == (Player { x_mm: 0, y_mm: 0, hp: 100, last_input_seq: 0 }),
            final(self)@.players.dom() == old(self)@.players.dom().insert(r.0),
            forall|k: ClientId|
                k != r.0 && #[trigger] old(self)@.players.contains_key(k) ==> final(self)@.players[k]
                    == old(self)@.players[k],
    {
        proof {
            use_type_invariant(&*self);
        }
        let id = self.next_id.wrapping_add(1);
        self.next_id = id;
        let mut players: HashMap<ClientId, Player> = HashMap::new();
        std::mem::swap(&mut players, &mut self.players);
        players.insert(id, Player::spawn());
        self.players = players;
        proof {
            use_type_invariant(&*self);
        }
        (id, S2c::Welcome { client_id: id })
    }

    /// Applies a message received from client `from`.
    pub fn receive(&mut self, from: ClientId, msg: C2s)
        ensures
            final(self)@ == old(self)@.received(from, msg),
            final(self)@.wf(),
            final(self)@.next_id == old(self)@.next_id,
            final(self)@.tick == old(self)@.tick,
            final(self)@.players.dom() == old(self)@.players.dom(),
            forall|k: ClientId|
                k != from && #[trigger] old(self)@.players.contains_key(k) ==> final(self)@.players[k]
                    == old(self)@.players[k],
            !old(self)@.players.contains_key(from) ==> final(self)@ == old(self)@,
            old(self)@.players.contains_key(from) ==> match msg {
                C2s::Input(i) => ({
                    let sx: int = if i.right && !i.left { 80 } else if i.left && !i.right { -80 } else { 0 };
                    let sy: int = if i.down && !i.up { 80 } else if i.up && !i.down { -80 } else { 0 };
                    let tx: int = old(self)@.players[from].x_mm + sx;
                    let ty: int = old(self)@.players[from].y_mm + sy;
                    &&& final(self)@.players[from].x_mm == (if tx < -5000 { -5000 } else if tx > 5000 { 5000 } else { tx })
                    &&& final(self)@.players[from].y_mm == (if ty < -3000 { -3000 } else if ty > 3000 { 3000 } else { ty })
                    &&& final(self)@.players[from].hp == old(self)@.players[from].hp
                    &&& final(self)@.players[from].last_input_seq == i.seq
                }),
            },
    {
        proof {
            use_type_invariant(&*self);
        }
        match msg {
            C2s::Input(input) => {
                match self.players.get(&from) {
                    Some(p) => {
                        let mut p: Player = *p;
                        proof {
                            lemma_in_arena_can_move(p, input);
                        }
                        p.apply_input(&input);
                        proof {
                            lemma_moved_in_arena(self@.players[from], input);
                        }
                        let mut players: HashMap<ClientId, Player> = HashMap::new();
                        std::mem::swap(&mut players, &mut self.players);
                        players.insert(from, p);
                        self.players = players;
                    },
                    None => {},
                }
            },
        }
        proof {
            use_type_invariant(&*self);
        }
    }

    /// Removes client `id` and its player.
    pub fn disconnect(&mut self, id: ClientId)
        ensures
            final(self)@ == old(self)@.disconnected(id),
            final(self)@.wf(),
            !final(self)@.players.contains_key(id),
            final(self)@.players.dom() == old(self)@.players.dom().remove(id),
            forall|k: ClientId|
                k != id && #[trigger] old(self)@.players.contains_key(k) ==> final(self)@.players[k]
                    == old(self)@.players[k],
            final(self)@.next_id == old(self)@.next_id,
            final(self)@.tick == old(self)@.tick,
    {
        proof {
            use_type_invariant(&*self);
        }
        let mut players: HashMap<ClientId, Player> = HashMap::new();
        std::mem::swap(&mut players, &mut self.players);
        players.remove(&id);
        self.players = players;
        proof {
            use_type_invariant(&*self);
        }
    }

    /// Advances the tick counter (wrapping after `u32::MAX`) and returns the
    /// snapshot to broadcast: the new tick and every connected player.
    pub fn tick(&mut self) -> (msg: S2c)
        ensures
            final(self)@ == old(self)@.ticked(),
            final(self)@.wf(),
            msg matches S2c::Snapshot(s) && s.tick == final(self)@.tick
                && reports(s.players@, old(self)@.players),
            final(self)@.tick == (if old(self)@.tick == 0xffff_ffff { 0 } else { old(self)@.tick + 1 }),
            final(self)@.players == old(self)@.players,
            final(self)@.next_id == old(self)@.next_id,
    {
        proof {
            use_type_invariant(&*self);
        }
        self.tick = self.tick.wrapping_add(1);
        let mut states: Vec<PlayerState> = Vec::new();
        for entry in it: self.players.iter()
            invariant
                it.seq() == spec_hash_map_iter(&self.players).remaining(),
                states@.len() == it.index(),
                forall|i: int|
                    0 <= i < it.index() ==> #[trigger] states@[i] == player_state(
                        *it.seq()[i].0,
                        *it.seq()[i].1,
                    ),
        {
            let (id, p) = entry;
            states.push(p.to_state(*id));
        }
        proof {
            lemma_listing_reports(states@, self.players@, spec_hash_map_iter(&self.players).remaining());
        }
        S2c::Snapshot(Snapshot { tick: self.tick, players: states })
    }
}

/// Every event keeps every player inside the arena: connecting, a message
/// from any client, disconnecting and a tick all preserve the invariant.
pub proof fn lemma_events_keep_players_in_arena(v: ServerView, from: ClientId, msg: C2s)
    requires
        v.wf(),
    ensures
        v.connected().wf(),
        v.received(from, msg).wf(),
        v.disconnected(from).wf(),
        v.ticked().wf(),
{
    match msg {
        C2s::Input(input) => {
            if v.players.contains_key(from) {
                lemma_moved_in_arena(v.players[from], input);
            }
        },
    }
}

/// A client that connects and then disconnects leaves the player table as
/// it found it, provided the identifier it was given was not in use.
pub proof fn lemma_connect_then_disconnect(v: ServerView)
    requires
        !v.players.contains_key(next_count(v.next_id)),
    ensures
        v.connected().disconnected(next_count(v.next_id)).players == v.players,
{
    assert(v.connected().disconnected(next_count(v.next_id)).players =~= v.players);
}

/// A message from a client that has no player changes nothing.
pub proof fn lemma_unknown_sender_ignored(v: ServerView, from: ClientId, msg: C2s)
    requires
        !v.players.contains_key(from),
    ensures
        v.received(from, msg) == v,
{
}

/// A message from one client never changes another client's player, nor
/// the set of connected clients, nor the counters.
pub proof fn lemma_input_moves_only_sender(v: ServerView, from: ClientId, msg: C2s, other: ClientId)
    requires
        other != from,
    ensures
        v.received(from, msg).players.dom() == v.players.dom(),
        v.players.contains_key(other) ==> v.received(from, msg).players[other] == v.players[other],
        v.received(from, msg).next_id == v.next_id,
        v.received(from, msg).tick == v.tick,
{
    match msg {
        C2s::Input(input) => {
            if v.players.contains_key(from) {
                assert(v.received(from, msg).players.dom() =~= v.players.dom());
            }
        },
    }
}

/// A tick advances the tick counter by one (to 0 after `u32::MAX`) and
/// leaves the players and the identifier counter alone.
pub proof fn lemma_tick_keeps_players(v: ServerView)
    ensures
        v.ticked().players == v.players,
        v.ticked().next_id == v.next_id,
        v.ticked().tick == (if v.tick == 0xffff_ffff { 0 } else { v.tick + 1 }),
{
}

/// The identifier counter and the player table after `k` connects from `v`:
/// the `j`-th connect hands out `count_after(v.next_id, j)`, and every
/// identifier handed out has a player.
proof fn lemma_connected_times_step(v: ServerView, k: nat)
    ensures
        v.connected_times(k).next_id == count_after(v.next_id, k),
        v.connected_times(k).tick == v.tick,
        forall|j: nat|
            1 <= j <= k ==> #[trigger] v.connected_times(k).players.contains_key(
                count_after(v.next_id, j),
            ),
        k < 0x1_0000_0000 ==> forall|j: nat|
            1 <= j <= k ==> #[trigger] v.connected_times(k).players[count_after(v.next_id, j)]
                == spawned(),
        forall|id: ClientId| #[trigger]
            v.players.contains_key(id) ==> v.connected_times(k).players.contains_key(id),
    decreases k,
{
    if k > 0 {
        let km = (k - 1) as nat;
        lemma_connected_times_step(v, km);
        let prev = v.connected_times(km);
        assert(v.connected_times(k) == prev.connected());
        assert forall|j: nat|
            1 <= j <= k implies #[trigger] v.connected_times(k).players.contains_key(
                count_after(v.next_id, j),
            ) by {
            if j < k {
                assert(prev.players.contains_key(count_after(v.next_id, j)));
            }
        }
        if k < 0x1_0000_0000 {
            assert forall|j: nat|
                1 <= j <= k implies #[trigger] v.connected_times(k).players[count_after(
                    v.next_id,
                    j,
                )] == spawned() by {
                if j < k {
                    lemma_counts_distinct(v.next_id, j, k);
                    assert(prev.players[count_after(v.next_id, j)] == spawned());
                }
            }
        }
    }
}

/// `k` clients that connect one after another from identifier counter `n`
/// get the identifiers `n.wrapping_add(1)`, ..., `n.wrapping_add(k)`: the
/// `j`-th connect returns `n.wrapping_add(j)` (it returns the counter it
/// leaves behind). Each of them then has a freshly spawned player, and, for
/// fewer than 2^32 clients, the identifiers are pairwise distinct.
pub proof fn lemma_k_clients_get_distinct_ids(v: ServerView, k: nat)
    ensures
        forall|j: nat|
            1 <= j <= k ==> #[trigger] v.connected_times(j).next_id == wrapping_offset(
                v.next_id,
                j,
            ),
        forall|j: nat|
            1 <= j <= k ==> #[trigger] v.connected_times(k).players.contains_key(
                wrapping_offset(v.next_id, j),
            ),
        k < 0x1_0000_0000 ==> forall|j: nat|
            1 <= j <= k ==> #[trigger] v.connected_times(k).players[wrapping_offset(
                v.next_id,
                j,
            )] == spawned(),
        k < 0x1_0000_0000 ==> forall|i: nat, j: nat|
            1 <= i < j <= k ==> #[trigger] wrapping_offset(v.next_id, i) != #[trigger] wrapping_offset(
                v.next_id,
                j,
            ),
        v.connected_times(k).tick == v.tick,
{
    lemma_connected_times_step(v, k);
    assert forall|j: nat|
        1 <= j <= k implies #[trigger] v.connected_times(j).next_id == wrapping_offset(
            v.next_id,
            j,
        ) by {
        lemma_connected_times_step(v, j);
        lemma_count_after_is_wrapping_offset(v.next_id, j);
    }
    assert forall|j: nat|
        1 <= j <= k implies #[trigger] v.connected_times(k).players.contains_key(
            wrapping_offset(v.next_id, j),
        ) by {
        lemma_count_after_is_wrapping_offset(v.next_id, j);
        assert(v.connected_times(k).players.contains_key(count_after(v.next_id, j)));
    }
    if k < 0x1_0000_0000 {
        assert forall|j: nat|
            1 <= j <= k implies #[trigger] v.connected_times(k).players[wrapping_offset(
                v.next_id,
                j,
            )] == spawned() by {
            lemma_count_after_is_wrapping_offset(v.next_id, j);
            assert(v.connected_times(k).players[count_after(v.next_id, j)] == spawned());
        }
        assert forall|i: nat, j: nat|
            1 <= i < j <= k implies #[trigger] wrapping_offset(v.next_id, i)
                != #[trigger] wrapping_offset(v.next_id, j) by {
            lemma_counts_distinct(v.next_id, i, j);
            lemma_count_after_is_wrapping_offset(v.next_id, i);
            lemma_count_after_is_wrapping_offset(v.next_id, j);
        }
    }
}

/// Connecting hands out the identifier after the last one (0 after
/// `u32::MAX`), gives it a player at the origin with 100 health and no input
/// recorded, and leaves every other player and the tick counter alone.
pub proof fn lemma_connect_effect(v: ServerView)
    ensures
        v.connected().next_id == (if v.next_id == 0xffff_ffff { 0 } else { v.next_id + 1 }),
        v.connected().tick == v.tick,
        v.connected().players.contains_key(v.connected().next_id),
        v.connected().players[v.connected().next_id] == (Player {
            x_mm: 0,
            y_mm: 0,
            hp: 100,
            last_input_seq: 0,
        }),
        v.connected().players.dom() == v.players.dom().insert(v.connected().next_id),
        forall|k: ClientId|
            k != v.connected().next_id && #[trigger] v.players.contains_key(k)
                ==> v.connected().players[k] == v.players[k],
{
    assert(v.connected().players.dom() =~= v.players.dom().insert(v.connected().next_id));
}

/// A message from a client with a player moves exactly that player by one
/// step of its input (see the arena rules), records the input's sequence
/// number and keeps its health; every other player, the set of connected
/// clients and both counters stay as they were. A message from a client
/// without a player changes nothing.
pub proof fn lemma_receive_effect(v: ServerView, from: ClientId, i: Input)
    ensures
        v.received(from, C2s::Input(i)).next_id == v.next_id,
        v.received(from, C2s::Input(i)).tick == v.tick,
        v.received(from, C2s::Input(i)).players.dom() == v.players.dom(),
        forall|k: ClientId|
            k != from && #[trigger] v.players.contains_key(k) ==> v.received(
                from,
                C2s::Input(i),
            ).players[k] == v.players[k],
        !v.players.contains_key(from) ==> v.received(from, C2s::Input(i)) == v,
        v.players.contains_key(from) ==> ({
            let sx: int = if i.right && !i.left { 80 } else if i.left && !i.right { -80 } else { 0 };
            let sy: int = if i.down && !i.up { 80 } else if i.up && !i.down { -80 } else { 0 };
            let tx: int = v.players[from].x_mm + sx;
            let ty: int = v.players[from].y_mm + sy;
            &&& v.received(from, C2s::Input(i)).players[from].x_mm == (if tx < -5000 { -5000 } else if tx > 5000 { 5000 } else { tx })
            &&& v.received(from, C2s::Input(i)).players[from].y_mm == (if ty < -3000 { -3000 } else if ty > 3000 { 3000 } else { ty })
            &&& v.received(from, C2s::Input(i)).players[from].hp == v.players[from].hp
            &&& v.received(from, C2s::Input(i)).players[from].last_input_seq == i.seq
        }),
{
    if v.players.contains_key(from) {
        lemma_one_input_one_step(v.players[from], i);
        assert(v.received(from, C2s::Input(i)).players.dom() =~= v.players.dom());
    }
}

/// Disconnecting client `id` removes exactly its player: `id` has no player
/// afterwards, and every other client keeps its entry unchanged; the
/// counters stay as they were.
pub proof fn lemma_disconnect_effect(v: ServerView, id: ClientId)
    ensures
        !v.disconnected(id).players.contains_key(id),
        v.disconnected(id).players.dom() == v.players.dom().remove(id),
        forall|k: ClientId|
            k != id && #[trigger] v.players.contains_key(k) ==> v.disconnected(id).players.contains_key(k)
                && v.disconnected(id).players[k] == v.players[k],
        v.disconnected(id).next_id == v.next_id,
        v.disconnected(id).tick == v.tick,
{
    assert(v.disconnected(id).players.dom() =~= v.players.dom().remove(id));
}

/// A snapshot listing reports every connected player exactly once, each
/// entry with that player's identifier, position, health and last input
/// sequence number.
pub proof fn lemma_reports_fields(states: Seq<PlayerState>, m: Map<ClientId, Player>)
    requires
        reports(states, m),
    ensures
        states.len() == m.dom().len(),
        forall|i: int|
            0 <= i < states.len() ==> {
                &&& m.contains_key(#[trigger] states[i].id)
                &&& states[i].x_mm == m[states[i].id].x_mm
                &&& states[i].y_mm == m[states[i].id].y_mm
                &&& states[i].hp == m[states[i].id].hp
                &&& states[i].last_input_seq == m[states[i].id].last_input_seq
            },
        forall|i: int, j: int|
            0 <= i < j < states.len() ==> #[trigger] states[i].id != #[trigger] states[j].id,
        forall|id: ClientId|
            #[trigger] m.contains_key(id) ==> exists|i: int|
                0 <= i < states.len() && #[trigger] states[i].id == id,
{
    assert forall|i: int| 0 <= i < states.len() implies {
        &&& m.contains_key(#[trigger] states[i].id)
        &&& states[i].x_mm == m[states[i].id].x_mm
        &&& states[i].y_mm == m[states[i].id].y_mm
        &&& states[i].hp == m[states[i].id].hp
        &&& states[i].last_input_seq == m[states[i].id].last_input_seq
    } by {
        lemma_player_state_fields(states[i].id, m[states[i].id]);
    }
}

} // verus!
