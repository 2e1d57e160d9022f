//! The browser client's session state: which controls are held, the input
//! sequence counter, the identifier the server assigned, and the last
//! snapshot received.
//!
//! The page glue (event listeners, the WebSocket, the canvas) feeds events
//! in and reads what to send and draw.
use vstd::prelude::*;
use crate::arena::{clamp, moved, Player, HALF_H_MM, HALF_W_MM, SPEED_MM_PER_INPUT};
use crate::protocol::{C2s, ClientId, Input, S2c, Snapshot};
use crate::counter::{
    count_after, lemma_count_after_is_wrapping_offset, lemma_counts_distinct, next_count,
    wrapping_offset,
};
use vstd::utf8::{encode_scalar, encode_utf8, encode_utf8_decode_utf8};

verus! {

/// A movement direction bound to a key.
#[derive(Debug, Clone, Copy, PartialEq, Eq, Structural)]
pub enum Direction {
    Up,
    Down,
    Left,
    Right,
}

/// The direction a key (given by its `KeyboardEvent.key` name) controls:
/// W, S, A and D, in either case, move up, down, left and right; every other
/// key controls none.
pub open spec fn key_direction(key: Seq<char>) -> Option<Direction> {
    if key == seq!['w'] || key == seq!['W'] {
        Some(Direction::Up)
    } else if key == seq!['s'] || key == seq!['S'] {
        Some(Direction::Down)
    } else if key == seq!['a'] || key == seq!['A'] {
        Some(Direction::Left)
    } else if key == seq!['d'] || key == seq!['D'] {
        Some(Direction::Right)
    } else {
        None
    }
}

/// A one-character ASCII name is exactly the text whose UTF-8 encoding is
/// that character's single byte.
proof fn lemma_single_ascii_char(key: Seq<char>, c: char)
    requires
        (c as u32) < 0x80,
    ensures
        (key == seq![c]) <==> (encode_utf8(key) == seq![(c as u32) as u8]),
{
    let v = c as u32;
    assert(v & 0x7F == v) by (bit_vector)
        requires
            v < 0x80,
    ;
    assert(seq![c].drop_first() =~= Seq::<char>::empty());
    assert(encode_utf8(Seq::<char>::empty()) == Seq::<u8>::empty());
    assert(encode_scalar(v) == seq![v as u8]);
    assert(encode_utf8(seq![c]) == encode_scalar(v) + encode_utf8(seq![c].drop_first()));
    assert(encode_utf8(seq![c]) =~= seq![v as u8]);
    encode_utf8_decode_utf8(key);
    encode_utf8_decode_utf8(seq![c]);
}

/// The eight key names that control a direction, each against its byte.
proof fn lemma_direction_key_bytes(key: Seq<char>)
    ensures
        (key == seq!['w']) <==> (encode_utf8(key) == seq![0x77u8]),
        (key == seq!['W']) <==> (encode_utf8(key) == seq![0x57u8]),
        (key == seq!['s']) <==> (encode_utf8(key) == seq![0x73u8]),
        (key == seq!['S']) <==> (encode_utf8(key) == seq![0x53u8]),
        (key == seq!['a']) <==> (encode_utf8(key) == seq![0x61u8]),
        (key == seq!['A']) <==> (encode_utf8(key) == seq![0x41u8]),
        (key == seq!['d']) <==> (encode_utf8(key) == seq![0x64u8]),
        (key == seq!['D']) <==> (encode_utf8(key) == seq![0x44u8]),
{
    lemma_single_ascii_char(key, 'w');
    lemma_single_ascii_char(key, 'W');
    lemma_single_ascii_char(key, 's');
    lemma_single_ascii_char(key, 'S');
    lemma_single_ascii_char(key, 'a');
    lemma_single_ascii_char(key, 'A');
    lemma_single_ascii_char(key, 'd');
    lemma_single_ascii_char(key, 'D');
}

/// The controls a client currently holds.
#[derive(Debug, Clone, Copy, PartialEq, Eq, Structural)]
pub struct InputState {
    pub up: bool,
    pub down: bool,
    pub left: bool,
    pub right: bool,
    pub shoot: bool,
    /// Aim direction, quantized.
    pub aim_x: i16,
    pub aim_y: i16,
}

/// No control held, aim at the centre.
pub open spec fn idle_input() -> InputState {
    InputState { up: false, down: false, left: false, right: false, shoot: false, aim_x: 0, aim_y: 0 }
}

/// `s` with the flag of direction `d` set to `held`.
pub open spec fn with_direction(s: InputState, d: Direction, held: bool) -> InputState {
    match d {
        Direction::Up => InputState { up: held, ..s },
        Direction::Down => InputState { down: held, ..s },
        Direction::Left => InputState { left: held, ..s },
        Direction::Right => InputState { right: held, ..s },
    }
}

/// `s` after a key named by `key` goes down (`held`) or up (`!held`):
/// the flag of the direction it controls follows it; a key that controls no
/// direction changes nothing.
pub open spec fn after_key(s: InputState, key: Seq<char>, held: bool) -> InputState {
    match key_direction(key) {
        Some(d) => with_direction(s, d, held),
        None => s,
    }
}

/// The input message that reports controls `s` under sequence number `seq`.
pub open spec fn input_message(seq: u32, s: InputState) -> C2s {
    C2s::Input(
        Input {
            seq,
            up: s.up,
            down: s.down,
            left: s.left,
            right: s.right,
            aim_x: s.aim_x,
            aim_y: s.aim_y,
            shoot: s.shoot,
        },
    )
}

/// The direction the key named by `key` controls, if any.
pub fn direction_of_key(key: &str) -> (d: Option<Direction>)
    ensures
        d == key_direction(key@),
        d == Some(Direction::Up) <==> (key@.len() == 1 && (key@[0] == 'w' || key@[0] == 'W')),
        d == Some(Direction::Down) <==> (key@.len() == 1 && (key@[0] == 's' || key@[0] == 'S')),
        d == Some(Direction::Left) <==> (key@.len() == 1 && (key@[0] == 'a' || key@[0] == 'A')),
        d == Some(Direction::Right) <==> (key@.len() == 1 && (key@[0] == 'd' || key@[0] == 'D')),
{
    let bytes = key.as_bytes();
    proof {
        lemma_direction_key_bytes(key@);
        lemma_key_direction_table(key@);
    }
    if bytes.len() != 1 {
        return None;
    }
    let b = bytes[0];
    proof {
        assert(bytes@ =~= seq![b]);
    }
    // ASCII: 0x77 `w`, 0x57 `W`, 0x73 `s`, 0x53 `S`, 0x61 `a`, 0x41 `A`,
    // 0x64 `d`, 0x44 `D`.
    if b == 0x77 || b == 0x57 {
        Some(Direction::Up)
    } else if b == 0x73 || b == 0x53 {
        Some(Direction::Down)
    } else if b == 0x61 || b == 0x41 {
        Some(Direction::Left)
    } else if b == 0x64 || b == 0x44 {
        Some(Direction::Right)
    } else {
        None
    }
}

impl Default for InputState {
    /// No control held, aim at the centre.
    fn default() -> (s: InputState)
        ensures
            s == idle_input(),
            !s.up && !s.down && !s.left && !s.right && !s.shoot,
            s.aim_x == 0 && s.aim_y == 0,
    {
        InputState { up: false, down: false, left: false, right: false, shoot: false, aim_x: 0, aim_y: 0 }
    }
}

impl InputState {
    /// Records a key going down (`held`) or up (`!held`).
    pub fn key_event(&mut self, key: &str, held: bool)
        ensures
            *final(self) == after_key(*old(self), key@, held),
            final(self).up == (if (key@.len() == 1 && (key@[0] == 'w' || key@[0] == 'W')) { held } else { old(self).up }),
            final(self).down == (if (key@.len() == 1 && (key@[0] == 's' || key@[0] == 'S')) { held } else { old(self).down }),
            final(self).left == (if (key@.len() == 1 && (key@[0] == 'a' || key@[0] == 'A')) { held } else { old(self).left }),
            final(self).right == (if (key@.len() == 1 && (key@[0] == 'd' || key@[0] == 'D')) { held } else { old(self).right }),
            final(self).shoot == old(self).shoot,
            final(self).aim_x == old(self).aim_x,
            final(self).aim_y == old(self).aim_y,
    {
        proof {
            lemma_key_direction_table(key@);
        }
        match direction_of_key(key) {
            Some(Direction::Up) => self.up = held,
            Some(Direction::Down) => self.down = held,
            Some(Direction::Left) => self.left = held,
            Some(Direction::Right) => self.right = held,
            None => {},
        }
    }
}

/// The client's view of the game.
pub struct ClientSession {
    /// Sequence number of the last input sent.
    pub seq: u32,
    /// The controls currently held.
    pub input: InputState,
    /// The identifier the server assigned, once welcomed.
    pub me: Option<ClientId>,
    /// The most recent snapshot received.
    pub last_snapshot: Option<Snapshot>,
}

impl ClientSession {
    /// A session that has sent nothing, holds no control and has heard
    /// nothing from the server.
    pub fn new() -> (s: ClientSession)
        ensures
            s.seq == 0,
            s.input == idle_input(),
            !s.input.up && !s.input.down && !s.input.left && !s.input.right && !s.input.shoot,
            s.input.aim_x == 0 && s.input.aim_y == 0,
            s.me is None,
            s.last_snapshot is None,
    {
        ClientSession { seq: 0, input: InputState::default(), me: None, last_snapshot: None }
    }

    /// Takes the next sequence number (wrapping after `u32::MAX`) and returns
    /// the input message that reports the controls held now.
    pub fn next_input(&mut self) -> (msg: C2s)
        ensures
            final(self).seq == next_count(old(self).seq),
            final(self).seq == seq_after_sends(old(self).seq, 1),
            final(self).input == old(self).input,
            final(self).me == old(self).me,
            final(self).last_snapshot == old(self).last_snapshot,
            msg == input_message(final(self).seq, old(self).input),
            final(self).seq == (if old(self).seq == 0xffff_ffff { 0 } else { old(self).seq + 1 }),
            msg matches C2s::Input(i) && {
                &&& i.seq == final(self).seq
                &&& i.up == old(self).input.up
                &&& i.down == old(self).input.down
                &&& i.left == old(self).input.left
                &&& i.right == old(self).input.right
                &&& i.aim_x == old(self).input.aim_x
                &&& i.aim_y == old(self).input.aim_y
                &&& i.shoot == old(self).input.shoot
            },
    {
        proof {
            assert(count_after(old(self).seq, 0) == old(self).seq);
        }
        self.seq = self.seq.wrapping_add(1);
        let inp = self.input;
        C2s::Input(
            Input {
                seq: self.seq,
                up: inp.up,
                down: inp.down,
                left: inp.left,
                right: inp.right,
                aim_x: inp.aim_x,
                aim_y: inp.aim_y,
                shoot: inp.shoot,
            },
        )
    }

    /// Takes in a message from the server: a welcome records the assigned
    /// identifier and is returned, so the page can announce it; a snapshot
    /// replaces the last one.
    pub fn on_message(&mut self, msg: S2c) -> (welcomed: Option<ClientId>)
        ensures
            final(self).seq == old(self).seq,
            final(self).input == old(self).input,
            match msg {
                S2c::Welcome { client_id } => {
                    &&& welcomed == Some(client_id)
                    &&& final(self).me == Some(client_id)
                    &&& final(self).last_snapshot == old(self).last_snapshot
                },
                S2c::Snapshot(s) => {
                    &&& welcomed is None
                    &&& final(self).me == old(self).me
                    &&& final(self).last_snapshot == Some(s)
                },
            },
    {
        match msg {
            S2c::Welcome { client_id } => {
                self.me = Some(client_id);
                Some(client_id)
            },
            S2c::Snapshot(s) => {
                self.last_snapshot = Some(s);
                None
            },
        }
    }

    /// Whether `id` is the identifier the server assigned to this client.
    pub fn is_me(&self, id: ClientId) -> (r: bool)
        ensures
            r == (self.me == Some(id)),
    {
        match self.me {
            Some(me) => me == id,
            None => false,
        }
    }
}

/// A key that controls no direction leaves the controls as they are, down
/// or up.
pub proof fn lemma_unbound_key_ignored(s: InputState, key: Seq<char>, held: bool)
    requires
        key_direction(key) is None,
    ensures
        after_key(s, key, held) == s,
{
}

/// Pressing and then releasing a key leaves the controls as releasing it
/// alone would; when its direction was not held before, the controls are
/// back where they started.
pub proof fn lemma_press_then_release(s: InputState, key: Seq<char>)
    ensures
        after_key(after_key(s, key, true), key, false) == after_key(s, key, false),
        after_key(s, key, false) == s <==> match key_direction(key) {
            Some(Direction::Up) => !s.up,
            Some(Direction::Down) => !s.down,
            Some(Direction::Left) => !s.left,
            Some(Direction::Right) => !s.right,
            None => true,
        },
{
}

/// A key event only touches the flag of the direction that key controls:
/// the other flags, shooting and aim are kept.
pub proof fn lemma_key_touches_one_flag(s: InputState, key: Seq<char>, held: bool)
    ensures
        after_key(s, key, held).shoot == s.shoot,
        after_key(s, key, held).aim_x == s.aim_x,
        after_key(s, key, held).aim_y == s.aim_y,
        key_direction(key) != Some(Direction::Up) ==> after_key(s, key, held).up == s.up,
        key_direction(key) != Some(Direction::Down) ==> after_key(s, key, held).down == s.down,
        key_direction(key) != Some(Direction::Left) ==> after_key(s, key, held).left == s.left,
        key_direction(key) != Some(Direction::Right) ==> after_key(s, key, held).right == s.right,
        key_direction(key) is Some ==> match key_direction(key) {
            Some(Direction::Up) => after_key(s, key, held).up == held,
            Some(Direction::Down) => after_key(s, key, held).down == held,
            Some(Direction::Left) => after_key(s, key, held).left == held,
            Some(Direction::Right) => after_key(s, key, held).right == held,
            None => true,
        },
{
}

/// The step, in units of one move along x and y, that holding direction `d` asks for.
pub open spec fn direction_step(d: Direction) -> (int, int) {
    match d {
        Direction::Up => (0, -1),
        Direction::Down => (0, 1),
        Direction::Left => (-1, 0),
        Direction::Right => (1, 0),
    }
}

/// Holding a single movement key makes the server move the player one step
/// in that key's direction, clamped to the arena: the input the client sends
/// after that key goes down from idle controls is exactly such a move.
pub proof fn lemma_single_key_moves_player(p: Player, key: Seq<char>, seq: u32)
    requires
        key_direction(key) is Some,
    ensures
        ({
            let step = direction_step(key_direction(key)->Some_0);
            match input_message(seq, after_key(idle_input(), key, true)) {
                C2s::Input(i) => moved(p, i) == Player {
                    x_mm: clamp(p.x_mm + step.0 * SPEED_MM_PER_INPUT, -HALF_W_MM as int, HALF_W_MM as int) as i32,
                    y_mm: clamp(p.y_mm + step.1 * SPEED_MM_PER_INPUT, -HALF_H_MM as int, HALF_H_MM as int) as i32,
                    hp: p.hp,
                    last_input_seq: seq,
                },
            }
        }),
{
}

/// The session's sequence number after `k` calls of `next_input` from
/// sequence number `seq` (each call takes the next count).
pub open spec fn seq_after_sends(seq: u32, k: nat) -> u32 {
    count_after(seq, k)
}

/// `k` consecutive calls of `next_input` from sequence number `s`, with the
/// controls unchanged, send messages whose sequence numbers are
/// `s.wrapping_add(1)`, ..., `s.wrapping_add(k)` in order: the `j`-th call
/// leaves `seq_after_sends(s, j)` behind and sends the controls under it.
/// For fewer than 2^32 sends, no number repeats.
pub proof fn lemma_k_inputs_carry_consecutive_seqs(s: u32, input: InputState, k: nat)
    ensures
        forall|j: nat|
            1 <= j <= k ==> #[trigger] seq_after_sends(s, j) == next_count(
                seq_after_sends(s, (j - 1) as nat),
            ),
        forall|j: nat|
            1 <= j <= k ==> (input_message(#[trigger] seq_after_sends(s, j), input) matches C2s::Input(
                i,
            ) && i.seq == wrapping_offset(s, j)),
        k < 0x1_0000_0000 ==> forall|i: nat, j: nat|
            1 <= i < j <= k ==> #[trigger] seq_after_sends(s, i) != #[trigger] seq_after_sends(
                s,
                j,
            ),
{
    assert forall|j: nat|
        1 <= j <= k implies (input_message(#[trigger] seq_after_sends(s, j), input) matches C2s::Input(
            i,
        ) && i.seq == wrapping_offset(s, j)) by {
        lemma_count_after_is_wrapping_offset(s, j);
    }
    if k < 0x1_0000_0000 {
        assert forall|i: nat, j: nat|
            1 <= i < j <= k implies #[trigger] seq_after_sends(s, i) != #[trigger] seq_after_sends(
                s,
                j,
            ) by {
            lemma_counts_distinct(s, i, j);
        }
    }
}

/// The key table: a key controls a direction exactly when its name is a
/// single character among W, S, A and D, in either case; W is up, S down,
/// A left and D right.
pub proof fn lemma_key_direction_table(key: Seq<char>)
    ensures
        key_direction(key) == Some(Direction::Up) <==> (key.len() == 1 && (key[0] == 'w' || key[0] == 'W')),
        key_direction(key) == Some(Direction::Down) <==> (key.len() == 1 && (key[0] == 's' || key[0] == 'S')),
        key_direction(key) == Some(Direction::Left) <==> (key.len() == 1 && (key[0] == 'a' || key[0] == 'A')),
        key_direction(key) == Some(Direction::Right) <==> (key.len() == 1 && (key[0] == 'd' || key[0] == 'D')),
        key_direction(key) is None <==> !((key.len() == 1 && (key[0] == 'w' || key[0] == 'W')) || (key.len() == 1 && (key[0] == 's' || key[0] == 'S')) || (key.len() == 1 && (key[0] == 'a' || key[0] == 'A')) || (key.len() == 1 && (key[0] == 'd' || key[0] == 'D'))),
{
    assert((key == seq!['w']) <==> (key.len() == 1 && key[0] == 'w')) by {
        if key.len() == 1 && key[0] == 'w' {
            assert(key =~= seq!['w']);
        }
    }
    assert((key == seq!['W']) <==> (key.len() == 1 && key[0] == 'W')) by {
        if key.len() == 1 && key[0] == 'W' {
            assert(key =~= seq!['W']);
        }
    }
    assert((key == seq!['s']) <==> (key.len() == 1 && key[0] == 's')) by {
        if key.len() == 1 && key[0] == 's' {
            assert(key =~= seq!['s']);
        }
    }
    assert((key == seq!['S']) <==> (key.len() == 1 && key[0] == 'S')) by {
        if key.len() == 1 && key[0] == 'S' {
            assert(key =~= seq!['S']);
        }
    }
    assert((key == seq!['a']) <==> (key.len() == 1 && key[0] == 'a')) by {
        if key.len() == 1 && key[0] == 'a' {
            assert(key =~= seq!['a']);
        }
    }
    assert((key == seq!['A']) <==> (key.len() == 1 && key[0] == 'A')) by {
        if key.len() == 1 && key[0] == 'A' {
            assert(key =~= seq!['A']);
        }
    }
    assert((key == seq!['d']) <==> (key.len() == 1 && key[0] == 'd')) by {
        if key.len() == 1 && key[0] == 'd' {
            assert(key =~= seq!['d']);
        }
    }
    assert((key == seq!['D']) <==> (key.len() == 1 && key[0] == 'D')) by {
        if key.len() == 1 && key[0] == 'D' {
            assert(key =~= seq!['D']);
        }
    }
}

/// The input message for controls `s` carries exactly the given sequence
/// number and each of the controls' fields, whichever keys are held.
pub proof fn lemma_input_message_fields(seq: u32, s: InputState)
    ensures
        input_message(seq, s) matches C2s::Input(i) && {
            &&& i.seq == seq
            &&& i.up == s.up
            &&& i.down == s.down
            &&& i.left == s.left
            &&& i.right == s.right
            &&& i.aim_x == s.aim_x
            &&& i.aim_y == s.aim_y
            &&& i.shoot == s.shoot
        },
{
}

/// Idle controls hold no key, do not shoot and aim at the centre.
pub proof fn lemma_idle_input_fields()
    ensures
        !idle_input().up && !idle_input().down && !idle_input().left && !idle_input().right,
        !idle_input().shoot,
        idle_input().aim_x == 0 && idle_input().aim_y == 0,
{
}

} // verus!
