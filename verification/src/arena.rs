//! Arena rules: how one input moves a player, and the arena's bounds.
//!
//! Positions are in millimeters, with the world origin at the arena's
//! centre. The arena matches what the client draws: 1000x600 pixels at
//! 10 mm per pixel.
use vstd::prelude::*;
use crate::protocol::{ClientId, Input, PlayerState};

verus! {

/// Distance a player moves along an axis for one input that pushes that way.
pub const SPEED_MM_PER_INPUT: i32 = 80;

/// Half the arena's width: x stays within `-HALF_W_MM..=HALF_W_MM`.
pub const HALF_W_MM: i32 = 5000;

/// Half the arena's height: y stays within `-HALF_H_MM..=HALF_H_MM`.
pub const HALF_H_MM: i32 = 3000;

/// Health of a player that has just joined.
pub const SPAWN_HP: u16 = 100;

/// The server's record of one player.
#[derive(Debug, Clone, Copy, PartialEq, Eq, Structural)]
pub struct Player {
    pub x_mm: i32,
    pub y_mm: i32,
    pub hp: u16,
    /// Sequence number of the last input the server applied for this player.
    pub last_input_seq: u32,
}

/// Direction along one axis: -1 when only the negative key is held, +1 when
/// only the positive key is held, 0 when neither or both are.
pub open spec fn axis(neg: bool, pos: bool) -> int {
    (if pos { 1int } else { 0int }) - (if neg { 1int } else { 0int })
}

/// `v` brought into `lo..=hi`.
pub open spec fn clamp(v: int, lo: int, hi: int) -> int {
    if v < lo {
        lo
    } else if v > hi {
        hi
    } else {
        v
    }
}

/// Whether a player stands inside the arena.
pub open spec fn in_arena(p: Player) -> bool {
    &&& -HALF_W_MM <= p.x_mm <= HALF_W_MM
    &&& -HALF_H_MM <= p.y_mm <= HALF_H_MM
}

/// The player a client gets when it joins: at the origin, with full health.
pub open spec fn spawned() -> Player {
    Player { x_mm: 0, y_mm: 0, hp: SPAWN_HP, last_input_seq: 0 }
}

/// The x coordinate after one input, before it is brought back into the arena.
pub open spec fn raw_x(p: Player, input: Input) -> int {
    p.x_mm + axis(input.left, input.right) * SPEED_MM_PER_INPUT
}

/// The y coordinate after one input, before it is brought back into the arena.
/// Up is towards negative y.
pub open spec fn raw_y(p: Player, input: Input) -> int {
    p.y_mm + axis(input.up, input.down) * SPEED_MM_PER_INPUT
}

/// Whether one input can be applied to `p` without leaving the range of `i32`.
pub open spec fn can_move(p: Player, input: Input) -> bool {
    &&& i32::MIN <= raw_x(p, input) <= i32::MAX
    &&& i32::MIN <= raw_y(p, input) <= i32::MAX
}

/// The player after the server applies one input: each axis moves one step
/// in the pressed direction and is clamped to the arena; health is kept and
/// the input's sequence number is recorded.
pub open spec fn moved(p: Player, input: Input) -> Player {
    Player {
        x_mm: clamp(raw_x(p, input), -HALF_W_MM as int, HALF_W_MM as int) as i32,
        y_mm: clamp(raw_y(p, input), -HALF_H_MM as int, HALF_H_MM as int) as i32,
        hp: p.hp,
        last_input_seq: input.seq,
    }
}

/// The snapshot entry that reports player `p` under identifier `id`.
pub open spec fn player_state(id: ClientId, p: Player) -> PlayerState {
    PlayerState { id, x_mm: p.x_mm, y_mm: p.y_mm, hp: p.hp, last_input_seq: p.last_input_seq }
}

/// Direction along one axis from the two keys that push along it.
pub fn axis_step(neg: bool, pos: bool) -> (d: i32)
    ensures
        d == axis(neg, pos),
        d == (if pos && !neg {
            1i32
        } else if neg && !pos {
            -1i32
        } else {
            0i32
        }),
{
    let mut d: i32 = 0;
    if neg {
        d -= 1;
    }
    if pos {
        d += 1;
    }
    d
}

/// `v` brought into `lo..=hi`.
pub fn clamp_i32(v: i32, lo: i32, hi: i32) -> (r: i32)
    requires
        lo <= hi,
    ensures
        r == clamp(v as int, lo as int, hi as int),
        lo <= r <= hi,
        lo <= v <= hi ==> r == v,
        v < lo ==> r == lo,
        v > hi ==> r == hi,
{
    if v < lo {
        lo
    } else if v > hi {
        hi
    } else {
        v
    }
}

impl Player {
    /// A newly joined player: at the origin, with full health.
    pub fn spawn() -> (p: Player)
        ensures
            p == spawned(),
            p.x_mm == 0 && p.y_mm == 0,
            p.hp == 100,
            p.last_input_seq == 0,
    {
        Player { x_mm: 0, y_mm: 0, hp: SPAWN_HP, last_input_seq: 0 }
    }

    /// Applies one input: moves one step along each axis whose keys push one
    /// way, clamps the position to the arena and records the input's
    /// sequence number.
    pub fn apply_input(&mut self, input: &Input)
        requires
            can_move(*old(self), *input),
        ensures
            *final(self) == moved(*old(self), *input),
            ({
                let sx: int = if input.right && !input.left { 80 } else if input.left && !input.right { -80 } else { 0 };
                let sy: int = if input.down && !input.up { 80 } else if input.up && !input.down { -80 } else { 0 };
                let tx: int = old(self).x_mm + sx;
                let ty: int = old(self).y_mm + sy;
                &&& final(self).x_mm == (if tx < -5000 { -5000 } else if tx > 5000 { 5000 } else { tx })
                &&& final(self).y_mm == (if ty < -3000 { -3000 } else if ty > 3000 { 3000 } else { ty })
                &&& final(self).hp == old(self).hp
                &&& final(self).last_input_seq == input.seq
            }),
    {
        let dx = axis_step(input.left, input.right);
        let dy = axis_step(input.up, input.down);
        let x = self.x_mm + dx * SPEED_MM_PER_INPUT;
        let y = self.y_mm + dy * SPEED_MM_PER_INPUT;
        self.x_mm = clamp_i32(x, -HALF_W_MM, HALF_W_MM);
        self.y_mm = clamp_i32(y, -HALF_H_MM, HALF_H_MM);
        self.last_input_seq = input.seq;
    }

    /// This player's entry in a snapshot, under identifier `id`.
    pub fn to_state(&self, id: ClientId) -> (s: PlayerState)
        ensures
            s == player_state(id, *self),
            s.id == id,
            s.x_mm == self.x_mm && s.y_mm == self.y_mm,
            s.hp == self.hp,
            s.last_input_seq == self.last_input_seq,
    {
        PlayerState {
            id,
            x_mm: self.x_mm,
            y_mm: self.y_mm,
            hp: self.hp,
            last_input_seq: self.last_input_seq,
        }
    }
}

/// A player inside the arena can always take another input: the step
/// cannot leave the range of `i32`.
pub proof fn lemma_in_arena_can_move(p: Player, input: Input)
    requires
        in_arena(p),
    ensures
        can_move(p, input),
{
}

/// Whatever the input, the player it moves ends inside the arena.
pub proof fn lemma_moved_in_arena(p: Player, input: Input)
    ensures
        in_arena(moved(p, input)),
{
}

/// An input that presses no direction key, or both keys of each axis,
/// leaves a player inside the arena where it stands.
pub proof fn lemma_idle_input_keeps_position(p: Player, input: Input)
    requires
        in_arena(p),
        input.left == input.right,
        input.up == input.down,
    ensures
        moved(p, input).x_mm == p.x_mm,
        moved(p, input).y_mm == p.y_mm,
{
}

/// Pushing against a wall keeps the player on that wall.
pub proof fn lemma_wall_stops_player(p: Player, input: Input)
    requires
        in_arena(p),
        p.x_mm == HALF_W_MM,
        input.right && !input.left,
    ensures
        moved(p, input).x_mm == HALF_W_MM,
{
}

/// A move never changes health.
pub proof fn lemma_move_keeps_health(p: Player, input: Input)
    ensures
        moved(p, input).hp == p.hp,
{
}

/// One input moves a player exactly one step: along x, 80 mm right when
/// only right is held, 80 mm left when only left is held, not at all
/// otherwise; along y likewise with down positive and up negative; then each
/// coordinate is brought back into -5000..=5000 and -3000..=3000. Health is
/// kept, and the input's sequence number is recorded whatever keys it holds.
pub proof fn lemma_one_input_one_step(p: Player, input: Input)
    ensures
        ({
            let sx: int = if input.right && !input.left { 80 } else if input.left && !input.right { -80 } else { 0 };
            let sy: int = if input.down && !input.up { 80 } else if input.up && !input.down { -80 } else { 0 };
            let tx: int = p.x_mm + sx;
            let ty: int = p.y_mm + sy;
            &&& moved(p, input).x_mm == (if tx < -5000 { -5000 } else if tx > 5000 { 5000 } else { tx })
            &&& moved(p, input).y_mm == (if ty < -3000 { -3000 } else if ty > 3000 { 3000 } else { ty })
            &&& moved(p, input).hp == p.hp
            &&& moved(p, input).last_input_seq == input.seq
        }),
{
}

/// A newly joined player stands at the origin with 100 health and has no
/// input recorded.
pub proof fn lemma_spawned_values()
    ensures
        spawned().x_mm == 0,
        spawned().y_mm == 0,
        spawned().hp == 100,
        spawned().last_input_seq == 0,
{
}

/// A snapshot entry carries the identifier it is given and the player's
/// position, health and last input sequence number.
pub proof fn lemma_player_state_fields(id: ClientId, p: Player)
    ensures
        player_state(id, p).id == id,
        player_state(id, p).x_mm == p.x_mm,
        player_state(id, p).y_mm == p.y_mm,
        player_state(id, p).hp == p.hp,
        player_state(id, p).last_input_seq == p.last_input_seq,
{
}

/// The arena is -5000..=5000 mm across and -3000..=3000 mm high.
pub proof fn lemma_arena_bounds(p: Player)
    ensures
        in_arena(p) <==> (-5000 <= p.x_mm <= 5000 && -3000 <= p.y_mm <= 3000),
{
}

} // verus!
