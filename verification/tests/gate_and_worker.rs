use chessnet::connection_state::ConnectionState;
use chessnet::gate::{is_local_turn, should_listen, PeerRole};
use chessnet::worker::{next_action, on_read_event, on_write_result, ReadEvent, WorkerAction,
    WorkerStatus};

#[test]
fn gate_turn_one_host_does_not_listen() {
    assert_eq!(should_listen(1, PeerRole::Host), false);
}

#[test]
fn gate_turn_one_client_listens() {
    assert_eq!(should_listen(1, PeerRole::Client), true);
}

#[test]
fn gate_turn_two_host_listens() {
    assert_eq!(should_listen(2, PeerRole::Host), true);
}

#[test]
fn gate_turn_two_client_does_not_listen() {
    assert_eq!(should_listen(2, PeerRole::Client), false);
}

#[test]
fn gate_is_xor_of_parity_and_role() {
    for turn in 0..10usize {
        for role in [PeerRole::Host, PeerRole::Client] {
            let odd = turn % 2 == 1;
            assert_eq!(should_listen(turn, role), odd != (role == PeerRole::Host));
            assert_eq!(is_local_turn(turn, role), !should_listen(turn, role));
        }
    }
}

#[test]
fn fresh_state_is_disconnected_with_empty_queues() {
    let s = ConnectionState::new();
    assert!(!s.connected);
    assert!(!s.is_host);
    assert_eq!(s.turn, 0);
    assert!(s.outgoing.is_empty());
    assert!(s.incoming.is_empty());
}

#[test]
fn server_accept_sets_turn_to_one() {
    let mut s = ConnectionState::new();
    s.is_host = true;
    s.on_server_accept();
    assert!(s.connected);
    assert_eq!(s.turn, 1);
}

#[test]
fn client_connect_keeps_turn() {
    let mut s = ConnectionState::new();
    s.on_client_connect();
    assert!(s.connected);
    assert_eq!(s.turn, 0);
}

#[test]
fn worker_drains_before_listening() {
    let mut s = ConnectionState::new();
    s.is_host = false;
    s.set_turn(1);
    s.submit_local_move(52, 36);
    let a = next_action(WorkerStatus::Running, &mut s);
    match a {
        WorkerAction::Write(m) => assert_eq!(m, "52 36"),
        _ => panic!("expected a write while the outgoing queue is non-empty"),
    }
    // queue now empty; turn 1 as client allows listening
    let a = next_action(WorkerStatus::Running, &mut s);
    assert!(matches!(a, WorkerAction::Listen));
}

#[test]
fn worker_idles_on_own_turn() {
    let mut s = ConnectionState::new();
    s.is_host = true;
    s.set_turn(1);
    let a = next_action(WorkerStatus::Running, &mut s);
    assert!(matches!(a, WorkerAction::Idle));
}

#[test]
fn failed_write_requeues_in_order() {
    let mut s = ConnectionState::new();
    s.submit_local_move(12, 28);
    s.submit_local_move(52, 36);
    let first = match next_action(WorkerStatus::Running, &mut s) {
        WorkerAction::Write(m) => m,
        _ => panic!("expected a write"),
    };
    assert_eq!(first, "12 28");
    // the write fails: the message must return to the front of the queue
    on_write_result(&mut s, first, false);
    let retry = match next_action(WorkerStatus::Running, &mut s) {
        WorkerAction::Write(m) => m,
        _ => panic!("expected a retry of the failed write"),
    };
    assert_eq!(retry, "12 28");
    on_write_result(&mut s, retry, true);
    let second = match next_action(WorkerStatus::Running, &mut s) {
        WorkerAction::Write(m) => m,
        _ => panic!("expected the second message"),
    };
    assert_eq!(second, "52 36");
}

#[test]
fn clean_close_terminates_and_stops_reading() {
    let mut s = ConnectionState::new();
    let st = on_read_event(&mut s, ReadEvent::Closed);
    assert_eq!(st, WorkerStatus::Disconnected);
    // a terminated worker never attempts another read
    let a = next_action(st, &mut s);
    assert!(matches!(a, WorkerAction::Stop));
}

#[test]
fn read_error_terminates() {
    let mut s = ConnectionState::new();
    let st = on_read_event(&mut s, ReadEvent::Failed);
    assert_eq!(st, WorkerStatus::Disconnected);
}

#[test]
fn would_block_is_ignored() {
    let mut s = ConnectionState::new();
    let st = on_read_event(&mut s, ReadEvent::WouldBlock);
    assert_eq!(st, WorkerStatus::Running);
    assert!(s.incoming.is_empty());
}

#[test]
fn received_line_is_trimmed_and_enqueued() {
    let mut s = ConnectionState::new();
    let st = on_read_event(&mut s, ReadEvent::Line(String::from(" 12 28 \r\n")));
    assert_eq!(st, WorkerStatus::Running);
    assert_eq!(s.incoming.pop_front(), Some(String::from("12 28")));
}

#[test]
fn blank_line_is_dropped() {
    let mut s = ConnectionState::new();
    let st = on_read_event(&mut s, ReadEvent::Line(String::from(" \t\r\n")));
    assert_eq!(st, WorkerStatus::Running);
    assert!(s.incoming.is_empty());
}

#[test]
fn malformed_line_does_not_terminate_worker() {
    let mut s = ConnectionState::new();
    let st = on_read_event(&mut s, ReadEvent::Line(String::from("castle kingside\n")));
    assert_eq!(st, WorkerStatus::Running);
    // the consumer drops it without producing a move
    assert_eq!(s.poll_move(), None);
    assert!(s.incoming.is_empty());
}

#[test]
fn poll_move_parses_oldest_line() {
    let mut s = ConnectionState::new();
    on_read_event(&mut s, ReadEvent::Line(String::from("12 28\n")));
    on_read_event(&mut s, ReadEvent::Line(String::from("52 36\n")));
    assert_eq!(s.poll_move(), Some((12, 28)));
    assert_eq!(s.poll_move(), Some((52, 36)));
    assert_eq!(s.poll_move(), None);
}
