use relay::bus::{Bus, RecvOutcome};
use relay::message::{Message, MAX_MESSAGE_SIZE};
use relay::registry::Registry;
use relay::session::{CloseReason, ReadEvent, RecvEvent, Session, SessionState};

fn msg(origin: u128, payload: &[u8]) -> Message {
    Message { origin, payload: payload.to_vec() }
}

#[test]
fn message_duplicate_is_identical() {
    let m = msg(7, b"hello");
    let d = m.duplicate();
    assert_eq!(d.origin, 7);
    assert_eq!(d.payload, b"hello".to_vec());
}

#[test]
fn registry_register_and_count() {
    let mut reg = Registry::new();
    assert_eq!(reg.count(), 0);
    reg.register(1);
    reg.register(2);
    assert_eq!(reg.count(), 2);
}

#[test]
fn registry_deregister_is_idempotent() {
    let mut reg = Registry::new();
    reg.register(1);
    reg.register(2);
    reg.deregister(1);
    assert_eq!(reg.count(), 1);
    reg.deregister(1);
    assert_eq!(reg.count(), 1);
    reg.deregister(3);
    assert_eq!(reg.count(), 1);
}

#[test]
fn publish_with_no_subscribers_is_discarded() {
    let mut bus = Bus::new(16);
    let delivered = bus.publish(msg(1, b"nobody hears this"));
    assert_eq!(delivered, 0);
}

#[test]
fn subscription_starts_from_now() {
    let mut bus = Bus::new(16);
    bus.publish(msg(1, b"before"));
    let s = bus.subscribe();
    assert!(matches!(bus.receive(s), RecvOutcome::Pending));
    bus.publish(msg(1, b"after"));
    match bus.receive(s) {
        RecvOutcome::Msg(m) => assert_eq!(m.payload, b"after".to_vec()),
        _ => panic!("expected the message published after subscribing"),
    }
}

#[test]
fn deliveries_arrive_in_publish_order() {
    let mut bus = Bus::new(16);
    let s = bus.subscribe();
    bus.publish(msg(1, b"m1"));
    bus.publish(msg(1, b"m2"));
    bus.publish(msg(1, b"m3"));
    for expected in [b"m1", b"m2", b"m3"] {
        match bus.receive(s) {
            RecvOutcome::Msg(m) => assert_eq!(m.payload, expected.to_vec()),
            _ => panic!("expected an in-order delivery"),
        }
    }
    assert!(matches!(bus.receive(s), RecvOutcome::Pending));
}

#[test]
fn overflow_drops_oldest_and_reports_lag() {
    let mut bus = Bus::new(2);
    let s = bus.subscribe();
    bus.publish(msg(1, b"a"));
    bus.publish(msg(1, b"b"));
    bus.publish(msg(1, b"c"));
    assert!(matches!(bus.receive(s), RecvOutcome::Lagged));
    match bus.receive(s) {
        RecvOutcome::Msg(m) => assert_eq!(m.payload, b"b".to_vec()),
        _ => panic!("expected the oldest retained message"),
    }
    match bus.receive(s) {
        RecvOutcome::Msg(m) => assert_eq!(m.payload, b"c".to_vec()),
        _ => panic!("expected the newest message"),
    }
}

#[test]
fn lag_of_one_subscriber_leaves_others_untouched() {
    let mut bus = Bus::new(2);
    let slow = bus.subscribe();
    let fast = bus.subscribe();
    bus.publish(msg(1, b"x"));
    match bus.receive(fast) {
        RecvOutcome::Msg(m) => assert_eq!(m.payload, b"x".to_vec()),
        _ => panic!("expected a delivery"),
    }
    bus.publish(msg(1, b"y"));
    bus.publish(msg(1, b"z"));
    // The slow subscriber never drained: its backlog overflowed, the oldest
    // message was dropped for it alone, and it is told so.
    assert!(matches!(bus.receive(slow), RecvOutcome::Lagged));
    // The fast subscriber, which kept draining, missed nothing.
    match bus.receive(fast) {
        RecvOutcome::Msg(m) => assert_eq!(m.payload, b"y".to_vec()),
        _ => panic!("expected a delivery"),
    }
    match bus.receive(fast) {
        RecvOutcome::Msg(m) => assert_eq!(m.payload, b"z".to_vec()),
        _ => panic!("expected a delivery"),
    }
}

#[test]
fn unsubscribe_does_not_disturb_others() {
    let mut bus = Bus::new(16);
    let a = bus.subscribe();
    let b = bus.subscribe();
    bus.publish(msg(9, b"one"));
    bus.unsubscribe(a);
    bus.publish(msg(9, b"two"));
    for expected in [b"one", b"two"] {
        match bus.receive(b) {
            RecvOutcome::Msg(m) => assert_eq!(m.payload, expected.to_vec()),
            _ => panic!("expected deliveries to the remaining subscriber"),
        }
    }
}

#[test]
fn enroll_registers_a_new_identity_and_turns_a_registered_one_away() {
    let mut reg = Registry::new();
    let s = Session::enroll(&mut reg, 7).expect("an unregistered identity is enrolled");
    assert_eq!(s.id, 7);
    assert_eq!(s.state, SessionState::Active);
    assert_eq!(reg.count(), 1);
    // The same identity again: a collision is turned away, registering nothing.
    assert!(Session::enroll(&mut reg, 7).is_none());
    assert_eq!(reg.count(), 1);
    let t = Session::enroll(&mut reg, 8).expect("a different identity is enrolled");
    assert_eq!(t.id, 8);
    assert_eq!(reg.count(), 2);
}

#[test]
fn accept_registers_a_fresh_identity() {
    let mut reg = Registry::new();
    let a = Session::accept(&mut reg).expect("a fresh identity registers");
    assert_eq!(a.state, SessionState::Active);
    assert_eq!(reg.count(), 1);
    assert!(reg.contains(a.id));
    let b = Session::accept(&mut reg).expect("a fresh identity registers");
    assert_eq!(reg.count(), 2);
    assert_ne!(a.id, b.id);
}

#[test]
fn session_registers_then_deregisters_exactly_once() {
    let mut reg = Registry::new();
    let mut s = Session::new(42);
    assert_eq!(s.state, SessionState::Connecting);
    s.start(&mut reg);
    assert_eq!(s.state, SessionState::Active);
    assert_eq!(reg.count(), 1);
    let none = s.handle_read(ReadEvent::PeerClosed);
    assert!(none.is_none());
    assert_eq!(s.state, SessionState::Closing(CloseReason::PeerClosed));
    let reason = s.finish(&mut reg);
    assert_eq!(reason, CloseReason::PeerClosed);
    assert_eq!(s.state, SessionState::Closed);
    assert_eq!(reg.count(), 0);
}

#[test]
fn read_under_the_bound_is_published_intact() {
    let mut reg = Registry::new();
    let mut s = Session::new(5);
    s.start(&mut reg);
    let bytes = vec![0xabu8; MAX_MESSAGE_SIZE - 1];
    let out = s.handle_read(ReadEvent::Data(bytes.clone()));
    let m = out.expect("a payload one byte under the bound is forwarded");
    assert_eq!(m.origin, 5);
    assert_eq!(m.payload, bytes);
    assert_eq!(s.state, SessionState::Active);
}

#[test]
fn read_at_the_bound_closes_without_forwarding() {
    let mut reg = Registry::new();
    let mut s = Session::new(5);
    s.start(&mut reg);
    let out = s.handle_read(ReadEvent::Data(vec![0u8; MAX_MESSAGE_SIZE]));
    assert!(out.is_none());
    assert_eq!(s.state, SessionState::Closing(CloseReason::Oversize));
}

#[test]
fn read_error_is_fatal() {
    let mut reg = Registry::new();
    let mut s = Session::new(5);
    s.start(&mut reg);
    assert!(s.handle_read(ReadEvent::Failed).is_none());
    assert_eq!(s.state, SessionState::Closing(CloseReason::ReadFailed));
}

#[test]
fn own_echo_is_suppressed() {
    let mut reg = Registry::new();
    let mut s = Session::new(5);
    s.start(&mut reg);
    let out = s.handle_recv(RecvEvent::Delivery(msg(5, b"mine")));
    assert!(out.is_none());
    assert_eq!(s.state, SessionState::Active);
}

#[test]
fn foreign_delivery_is_written_byte_for_byte() {
    let mut reg = Registry::new();
    let mut s = Session::new(5);
    s.start(&mut reg);
    let out = s.handle_recv(RecvEvent::Delivery(msg(6, b"theirs")));
    assert_eq!(out, Some(b"theirs".to_vec()));
    assert_eq!(s.state, SessionState::Active);
}

#[test]
fn lag_is_fatal_for_the_session() {
    let mut reg = Registry::new();
    let mut s = Session::new(5);
    s.start(&mut reg);
    assert!(s.handle_recv(RecvEvent::Lagged).is_none());
    assert_eq!(s.state, SessionState::Closing(CloseReason::Lagged));
}

#[test]
fn bus_teardown_is_fatal_for_the_session() {
    let mut reg = Registry::new();
    let mut s = Session::new(5);
    s.start(&mut reg);
    assert!(s.handle_recv(RecvEvent::BusClosed).is_none());
    assert_eq!(s.state, SessionState::Closing(CloseReason::BusClosed));
}

#[test]
fn failed_write_is_fatal_for_the_session() {
    let mut reg = Registry::new();
    let mut s = Session::new(5);
    s.start(&mut reg);
    s.write_failed();
    assert_eq!(s.state, SessionState::Closing(CloseReason::WriteFailed));
}

#[test]
fn ping_reaches_b_not_a_and_disconnect_leaves_b_working() {
    let mut reg = Registry::new();
    let mut bus = Bus::new(16);

    let mut a = Session::new(1);
    a.start(&mut reg);
    let a_sub = bus.subscribe();
    let mut b = Session::new(2);
    b.start(&mut reg);
    let b_sub = bus.subscribe();
    assert_eq!(reg.count(), 2);

    // A sends "ping".
    let m = a.handle_read(ReadEvent::Data(b"ping".to_vec())).expect("under the bound");
    bus.publish(m);

    // B's socket receives exactly the bytes `ping`.
    match bus.receive(b_sub) {
        RecvOutcome::Msg(d) => {
            assert_eq!(b.handle_recv(RecvEvent::Delivery(d)), Some(b"ping".to_vec()));
        }
        _ => panic!("expected A's message on B's subscription"),
    }

    // A's own socket receives nothing from this exchange.
    match bus.receive(a_sub) {
        RecvOutcome::Msg(d) => {
            assert_eq!(a.handle_recv(RecvEvent::Delivery(d)), None);
        }
        _ => panic!("expected A's own message on A's subscription"),
    }
    assert!(matches!(bus.receive(a_sub), RecvOutcome::Pending));

    // A disconnects: the registry count drops by one.
    a.handle_read(ReadEvent::PeerClosed);
    bus.unsubscribe(a_sub);
    a.finish(&mut reg);
    assert_eq!(reg.count(), 1);

    // B remains connected and functional.
    assert_eq!(b.state, SessionState::Active);
    bus.publish(msg(3, b"still here"));
    match bus.receive(b_sub) {
        RecvOutcome::Msg(d) => assert_eq!(d.payload, b"still here".to_vec()),
        _ => panic!("expected B to keep receiving"),
    }
}

#[test]
fn fan_out_reaches_every_other_client() {
    let mut reg = Registry::new();
    let mut bus = Bus::new(16);
    let n: u128 = 4;
    let mut sessions = Vec::new();
    let mut subs = Vec::new();
    for id in 0..n {
        let mut s = Session::new(id);
        s.start(&mut reg);
        sessions.push(s);
        subs.push(bus.subscribe());
    }
    // Client 2 publishes.
    let m = sessions[2]
        .handle_read(ReadEvent::Data(b"broadcast".to_vec()))
        .expect("under the bound");
    let delivered = bus.publish(m);
    assert_eq!(delivered, n as usize);
    for (i, s) in sessions.iter_mut().enumerate() {
        match bus.receive(subs[i]) {
            RecvOutcome::Msg(d) => {
                let written = s.handle_recv(RecvEvent::Delivery(d));
                if i == 2 {
                    assert_eq!(written, None);
                } else {
                    assert_eq!(written, Some(b"broadcast".to_vec()));
                }
            }
            _ => panic!("every live subscription gets the message"),
        }
    }
}
