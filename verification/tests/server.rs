use shooter::arena::Player;
use shooter::protocol::{C2s, ClientId, Input, PlayerState, S2c};
use shooter::server::ServerState;

fn input(seq: u32, up: bool, down: bool, left: bool, right: bool) -> C2s {
    C2s::Input(Input { seq, up, down, left, right, aim_x: 3, aim_y: -4, shoot: true })
}

fn snapshot(s: &mut ServerState) -> (u32, Vec<PlayerState>) {
    match s.tick() {
        S2c::Snapshot(snap) => {
            let mut players = snap.players;
            players.sort_by_key(|p| p.id);
            (snap.tick, players)
        }
        other => panic!("expected a snapshot, got {:?}", other),
    }
}

fn state(id: ClientId, x_mm: i32, y_mm: i32, last_input_seq: u32) -> PlayerState {
    PlayerState { id, x_mm, y_mm, hp: 100, last_input_seq }
}

#[test]
fn clients_get_consecutive_ids_and_a_welcome() {
    let mut s = ServerState::new();
    let (a, wa) = s.connect();
    let (b, wb) = s.connect();
    assert_eq!((a, b), (1, 2));
    assert_eq!(wa, S2c::Welcome { client_id: 1 });
    assert_eq!(wb, S2c::Welcome { client_id: 2 });
}

#[test]
fn empty_server_snapshot() {
    let mut s = ServerState::new();
    assert_eq!(snapshot(&mut s), (1, vec![]));
    assert_eq!(snapshot(&mut s), (2, vec![]));
}

#[test]
fn snapshot_lists_every_player_once() {
    let mut s = ServerState::new();
    for _ in 0..5 {
        s.connect();
    }
    let (tick, players) = snapshot(&mut s);
    assert_eq!(tick, 1);
    assert_eq!(players, (1..=5).map(|id| state(id, 0, 0, 0)).collect::<Vec<_>>());
}

#[test]
fn input_moves_only_its_sender() {
    let mut s = ServerState::new();
    let (a, _) = s.connect();
    let (b, _) = s.connect();
    s.receive(a, input(11, false, false, false, true));
    s.receive(a, input(12, true, false, false, false));
    let (_, players) = snapshot(&mut s);
    assert_eq!(players, vec![state(a, 80, -80, 12), state(b, 0, 0, 0)]);
}

#[test]
fn input_from_unknown_client_is_ignored() {
    let mut s = ServerState::new();
    let (a, _) = s.connect();
    s.receive(42, input(1, false, false, false, true));
    let (_, players) = snapshot(&mut s);
    assert_eq!(players, vec![state(a, 0, 0, 0)]);
}

#[test]
fn players_stay_in_the_arena() {
    let mut s = ServerState::new();
    let (a, _) = s.connect();
    for seq in 0..100u32 {
        s.receive(a, input(seq, true, false, true, false));
    }
    let (_, players) = snapshot(&mut s);
    assert_eq!(players, vec![state(a, -5000, -3000, 99)]);
}

#[test]
fn connect_then_disconnect_restores_the_table() {
    let mut s = ServerState::new();
    let (a, _) = s.connect();
    s.receive(a, input(5, false, true, false, false));
    let before = snapshot(&mut s).1;
    let (b, _) = s.connect();
    s.disconnect(b);
    let after = snapshot(&mut s).1;
    assert_eq!(before, after);
    assert_eq!(after, vec![state(a, 0, 80, 5)]);
}

#[test]
fn disconnected_client_is_gone_and_ids_are_not_reused() {
    let mut s = ServerState::new();
    let (a, _) = s.connect();
    s.disconnect(a);
    s.disconnect(a);
    assert_eq!(snapshot(&mut s).1, vec![]);
    let (b, _) = s.connect();
    assert_eq!(b, 2);
    s.receive(a, input(1, false, false, false, true));
    assert_eq!(snapshot(&mut s).1, vec![state(b, 0, 0, 0)]);
}

#[test]
fn tick_counts_up() {
    let mut s = ServerState::new();
    for expected in 1..=10u32 {
        assert_eq!(snapshot(&mut s).0, expected);
    }
}

#[test]
fn snapshot_reports_player_fields() {
    let p = Player::spawn();
    let mut s = ServerState::new();
    let (a, _) = s.connect();
    let (_, players) = snapshot(&mut s);
    assert_eq!(players, vec![p.to_state(a)]);
}

#[test]
fn many_clients_get_distinct_consecutive_ids() {
    let mut s = ServerState::new();
    let ids: Vec<ClientId> = (0..50).map(|_| s.connect().0).collect();
    assert_eq!(ids, (1..=50).collect::<Vec<ClientId>>());
    let (_, players) = snapshot(&mut s);
    assert_eq!(players.len(), 50);
}
