use chessnet::loopback::LoopbackPair;

#[test]
fn fifo_order_across_the_pair() {
    let mut pair = LoopbackPair::new();
    pair.establish();
    // host queues three moves
    pair.host_submit(12, 28);
    pair.host_submit(52, 36);
    pair.host_submit(62, 20);
    pair.drain_host();
    // the client's game has started: turn 1, so the client listens
    pair.client.set_turn(1);
    pair.deliver_to_client();
    // the peer's incoming queue yields the same values, in the same order
    assert_eq!(pair.client.incoming.pop_front(), Some(String::from("12 28")));
    assert_eq!(pair.client.incoming.pop_front(), Some(String::from("52 36")));
    assert_eq!(pair.client.incoming.pop_front(), Some(String::from("62 20")));
    assert_eq!(pair.client.incoming.pop_front(), None);
}

#[test]
fn no_self_echo_on_loopback() {
    let mut pair = LoopbackPair::new();
    pair.establish();
    pair.host.set_turn(2);
    pair.client.set_turn(1);
    pair.host_submit(12, 28);
    pair.client_submit(52, 36);
    pair.drain_host();
    pair.drain_client();
    pair.deliver_to_client();
    pair.deliver_to_host();
    // each side's incoming queue holds only what the peer wrote,
    // never what the side itself queued
    let mut client_got = Vec::new();
    while let Some(m) = pair.client.incoming.pop_front() {
        client_got.push(m);
    }
    let mut host_got = Vec::new();
    while let Some(m) = pair.host.incoming.pop_front() {
        host_got.push(m);
    }
    assert_eq!(client_got, vec![String::from("12 28")]);
    assert_eq!(host_got, vec![String::from("52 36")]);
    assert!(!client_got.contains(&String::from("52 36")));
    assert!(!host_got.contains(&String::from("12 28")));
}

#[test]
fn end_to_end_scenario() {
    // a full first exchange of a networked game, sockets modeled by the
    // loopback wire
    let mut pair = LoopbackPair::new();
    pair.establish();
    // the host accepted: it owns the first move
    assert_eq!(pair.host.turn, 1);
    assert!(pair.host.connected);
    assert!(pair.client.connected);
    // host plays and queues its move; its worker is not gated to listen
    pair.host_submit(12, 28);
    pair.drain_host();
    // the client's game is at turn 1 as well, so its worker listens
    pair.client.set_turn(1);
    pair.deliver_to_client();
    let got = pair.client_poll();
    assert_eq!(got, Some((12, 28)));
    // the client applies the move and both game layers advance the turn
    pair.client.set_turn(2);
    pair.host.set_turn(2);
    // now the client moves and the host listens
    pair.client_submit(52, 36);
    pair.drain_client();
    pair.deliver_to_host();
    assert_eq!(pair.host_poll(), Some((52, 36)));
    assert_eq!(pair.host_poll(), None);
}

#[test]
fn gate_blocks_delivery_on_own_turn() {
    let mut pair = LoopbackPair::new();
    pair.establish();
    pair.host_submit(12, 28);
    pair.drain_host();
    // at turn 2 the client may move, so its worker must not read
    pair.client.set_turn(2);
    pair.deliver_to_client();
    assert!(pair.client.incoming.is_empty());
    // once the turn passes back, the line is read
    pair.client.set_turn(3);
    pair.deliver_to_client();
    assert_eq!(pair.client_poll(), Some((12, 28)));
}
