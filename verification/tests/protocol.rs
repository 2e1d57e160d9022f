use shooter::protocol::{C2s, ClientId, Input, PlayerState, S2c, Snapshot};

#[test]
fn messages_compare_by_value() {
    let i = Input { seq: 1, up: true, down: false, left: false, right: true, aim_x: -3, aim_y: 4, shoot: true };
    assert_eq!(C2s::Input(i), C2s::Input(i));
    assert_ne!(C2s::Input(i), C2s::Input(Input { seq: 2, ..i }));
    let id: ClientId = 9;
    let snap = Snapshot {
        tick: 5,
        players: vec![PlayerState { id, x_mm: 1, y_mm: 2, hp: 3, last_input_seq: 4 }],
    };
    assert_eq!(S2c::Snapshot(snap.clone()), S2c::Snapshot(snap));
    assert_ne!(S2c::Welcome { client_id: 1 }, S2c::Welcome { client_id: 2 });
}
