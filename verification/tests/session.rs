use shooter::protocol::{C2s, Input, S2c};
use shooter::server::ServerState;
use shooter::session::{session_event, SessionEvent, SessionStep};

fn right(seq: u32) -> C2s {
    C2s::Input(Input { seq, up: false, down: false, left: false, right: true, aim_x: 0, aim_y: 0, shoot: false })
}

fn players(s: &mut ServerState) -> Vec<(u32, i32)> {
    match s.tick() {
        S2c::Snapshot(snap) => {
            let mut v: Vec<(u32, i32)> = snap.players.iter().map(|p| (p.id, p.x_mm)).collect();
            v.sort();
            v
        }
        other => panic!("expected a snapshot, got {:?}", other),
    }
}

#[test]
fn session_event_table() {
    let mut s = ServerState::new();
    let (id, _) = s.connect();
    assert_eq!(session_event(&mut s, id, SessionEvent::Sent), SessionStep::Continue);
    assert_eq!(session_event(&mut s, id, SessionEvent::OtherFrame), SessionStep::Continue);
    assert_eq!(session_event(&mut s, id, SessionEvent::Malformed), SessionStep::ReportMalformed);
    assert_eq!(session_event(&mut s, id, SessionEvent::SendFailed), SessionStep::End);
    assert_eq!(session_event(&mut s, id, SessionEvent::QueueClosed), SessionStep::End);
    assert_eq!(session_event(&mut s, id, SessionEvent::CloseFrame), SessionStep::End);
    assert_eq!(session_event(&mut s, id, SessionEvent::ReceiveEnded), SessionStep::End);
    assert_eq!(players(&mut s), vec![(id, 0)]);
}

#[test]
fn received_message_is_applied() {
    let mut s = ServerState::new();
    let (a, _) = s.connect();
    let (b, _) = s.connect();
    assert_eq!(session_event(&mut s, b, SessionEvent::Received(right(1))), SessionStep::Continue);
    assert_eq!(players(&mut s), vec![(a, 0), (b, 80)]);
}
