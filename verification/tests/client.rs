use shooter::client::{direction_of_key, ClientSession, Direction, InputState};
use shooter::protocol::{C2s, Input, PlayerState, S2c, Snapshot};
use shooter::server::ServerState;

#[test]
fn movement_keys_in_either_case() {
    assert_eq!(direction_of_key("w"), Some(Direction::Up));
    assert_eq!(direction_of_key("W"), Some(Direction::Up));
    assert_eq!(direction_of_key("s"), Some(Direction::Down));
    assert_eq!(direction_of_key("S"), Some(Direction::Down));
    assert_eq!(direction_of_key("a"), Some(Direction::Left));
    assert_eq!(direction_of_key("A"), Some(Direction::Left));
    assert_eq!(direction_of_key("d"), Some(Direction::Right));
    assert_eq!(direction_of_key("D"), Some(Direction::Right));
}

#[test]
fn other_keys_control_nothing() {
    for key in ["", "x", "ArrowUp", "ww", "Shift", " ", "é", "ẅ"] {
        assert_eq!(direction_of_key(key), None, "{key}");
    }
}

#[test]
fn default_input_is_idle() {
    let s = InputState::default();
    assert_eq!(
        s,
        InputState { up: false, down: false, left: false, right: false, shoot: false, aim_x: 0, aim_y: 0 }
    );
}

#[test]
fn key_down_and_up_follow_the_key() {
    let mut s = InputState::default();
    s.key_event("w", true);
    s.key_event("D", true);
    assert!(s.up && s.right && !s.down && !s.left);
    s.key_event("W", false);
    assert!(!s.up && s.right);
    s.key_event("ArrowLeft", true);
    assert!(!s.left);
    s.key_event("d", false);
    assert_eq!(s, InputState::default());
}

#[test]
fn press_then_release_restores_idle_controls() {
    let mut s = InputState { shoot: true, aim_x: 5, aim_y: -6, ..InputState::default() };
    let before = s;
    for key in ["a", "S", "q"] {
        s.key_event(key, true);
        s.key_event(key, false);
    }
    assert_eq!(s, before);
}

#[test]
fn inputs_carry_consecutive_sequence_numbers() {
    let mut c = ClientSession::new();
    c.input.key_event("a", true);
    c.input.shoot = true;
    c.input.aim_x = 100;
    c.input.aim_y = -200;
    let first = c.next_input();
    let second = c.next_input();
    let expected = |seq| {
        C2s::Input(Input { seq, up: false, down: false, left: true, right: false, aim_x: 100, aim_y: -200, shoot: true })
    };
    assert_eq!(first, expected(1));
    assert_eq!(second, expected(2));
    assert_eq!(c.seq, 2);
}

#[test]
fn sequence_number_wraps() {
    let mut c = ClientSession::new();
    c.seq = u32::MAX;
    match c.next_input() {
        C2s::Input(i) => assert_eq!(i.seq, 0),
    }
    assert_eq!(c.seq, 0);
}

#[test]
fn welcome_records_the_id() {
    let mut c = ClientSession::new();
    assert!(!c.is_me(7));
    assert_eq!(c.on_message(S2c::Welcome { client_id: 7 }), Some(7));
    assert_eq!(c.me, Some(7));
    assert!(c.is_me(7));
    assert!(!c.is_me(8));
    assert!(c.last_snapshot.is_none());
}

#[test]
fn snapshot_replaces_the_last_one() {
    let mut c = ClientSession::new();
    let p = PlayerState { id: 3, x_mm: 10, y_mm: -20, hp: 100, last_input_seq: 4 };
    let first = Snapshot { tick: 1, players: vec![p] };
    let second = Snapshot { tick: 2, players: vec![] };
    assert_eq!(c.on_message(S2c::Snapshot(first.clone())), None);
    assert_eq!(c.last_snapshot, Some(first));
    assert_eq!(c.on_message(S2c::Snapshot(second.clone())), None);
    assert_eq!(c.last_snapshot, Some(second));
    assert_eq!(c.me, None);
    assert_eq!(c.seq, 0);
}

#[test]
fn held_key_moves_the_player_on_the_server() {
    let mut server = ServerState::new();
    let (id, welcome) = server.connect();
    let mut c = ClientSession::new();
    assert_eq!(c.on_message(welcome), Some(id));
    c.input.key_event("d", true);
    let msg = c.next_input();
    server.receive(id, msg);
    match server.tick() {
        S2c::Snapshot(s) => {
            assert_eq!(s.players, vec![PlayerState { id, x_mm: 80, y_mm: 0, hp: 100, last_input_seq: 1 }]);
            assert_eq!(c.on_message(S2c::Snapshot(s.clone())), None);
            assert_eq!(c.last_snapshot, Some(s));
        }
        other => panic!("expected a snapshot, got {:?}", other),
    }
    assert!(c.is_me(id));
}

#[test]
fn consecutive_sends_wrap_without_gaps() {
    let mut c = ClientSession::new();
    c.seq = u32::MAX - 2;
    let seqs: Vec<u32> = (0..5)
        .map(|_| match c.next_input() {
            C2s::Input(i) => i.seq,
        })
        .collect();
    assert_eq!(seqs, vec![u32::MAX - 1, u32::MAX, 0, 1, 2]);
}
