use shooter::arena::{
    axis_step, clamp_i32, Player, HALF_H_MM, HALF_W_MM, SPAWN_HP, SPEED_MM_PER_INPUT,
};
use shooter::protocol::Input;

fn input(seq: u32, up: bool, down: bool, left: bool, right: bool) -> Input {
    Input { seq, up, down, left, right, aim_x: 0, aim_y: 0, shoot: false }
}

#[test]
fn axis_step_covers_all_key_pairs() {
    assert_eq!(axis_step(false, false), 0);
    assert_eq!(axis_step(true, false), -1);
    assert_eq!(axis_step(false, true), 1);
    assert_eq!(axis_step(true, true), 0);
}

#[test]
fn clamp_keeps_values_in_range() {
    assert_eq!(clamp_i32(7, -5, 5), 5);
    assert_eq!(clamp_i32(-7, -5, 5), -5);
    assert_eq!(clamp_i32(3, -5, 5), 3);
    assert_eq!(clamp_i32(5, 5, 5), 5);
}

#[test]
fn spawn_is_at_origin_with_full_health() {
    let p = Player::spawn();
    assert_eq!(p, Player { x_mm: 0, y_mm: 0, hp: 100, last_input_seq: 0 });
    assert_eq!(SPAWN_HP, 100);
}

#[test]
fn one_input_moves_one_step() {
    let mut p = Player::spawn();
    p.apply_input(&input(1, false, false, false, true));
    assert_eq!((p.x_mm, p.y_mm), (80, 0));
    p.apply_input(&input(2, true, false, true, false));
    assert_eq!((p.x_mm, p.y_mm), (0, -80));
    p.apply_input(&input(3, false, true, false, false));
    assert_eq!((p.x_mm, p.y_mm), (0, 0));
    assert_eq!(p.last_input_seq, 3);
    assert_eq!(p.hp, 100);
    assert_eq!(SPEED_MM_PER_INPUT, 80);
}

#[test]
fn opposite_keys_cancel() {
    let mut p = Player { x_mm: 120, y_mm: -40, hp: 100, last_input_seq: 0 };
    p.apply_input(&input(9, true, true, true, true));
    assert_eq!((p.x_mm, p.y_mm), (120, -40));
    assert_eq!(p.last_input_seq, 9);
}

#[test]
fn walls_stop_the_player() {
    let mut p = Player { x_mm: 4990, y_mm: -2990, hp: 100, last_input_seq: 0 };
    p.apply_input(&input(1, true, false, false, true));
    assert_eq!((p.x_mm, p.y_mm), (HALF_W_MM, -HALF_H_MM));
    p.apply_input(&input(2, true, false, false, true));
    assert_eq!((p.x_mm, p.y_mm), (5000, -3000));
    let mut q = Player { x_mm: -5000, y_mm: 3000, hp: 100, last_input_seq: 0 };
    q.apply_input(&input(3, false, true, true, false));
    assert_eq!((q.x_mm, q.y_mm), (-5000, 3000));
}

#[test]
fn many_inputs_end_on_the_wall() {
    let mut p = Player::spawn();
    for seq in 0..200u32 {
        p.apply_input(&input(seq, false, true, false, true));
    }
    assert_eq!((p.x_mm, p.y_mm), (5000, 3000));
}

#[test]
fn player_outside_the_arena_is_clamped_back() {
    let mut p = Player { x_mm: 9000, y_mm: -9000, hp: 7, last_input_seq: 0 };
    p.apply_input(&input(1, false, false, false, false));
    assert_eq!((p.x_mm, p.y_mm, p.hp), (5000, -3000, 7));
}

#[test]
fn to_state_reports_every_field() {
    let p = Player { x_mm: -12, y_mm: 34, hp: 55, last_input_seq: 66 };
    let s = p.to_state(8);
    assert_eq!((s.id, s.x_mm, s.y_mm, s.hp, s.last_input_seq), (8, -12, 34, 55, 66));
}
