use sync_hub::codec::frame_line;
use sync_hub::hub::Hub;
use sync_hub::msg::Message;
use sync_hub::store::Store;
use sync_hub::store::StoreConfig;
use sync_hub::worker::apply_line;
use sync_hub::worker::control_message;
use sync_hub::worker::poller_message;

fn fresh_store() -> Store {
    Store::initialize(StoreConfig {
        name: b"worker".to_vec(),
        count: 0,
    })
}

/// Drain a session's broadcast subscription into a worker's store, the way
/// the session task and the worker client loop do: frame each message,
/// hand the line over, decode and apply. Returns the lines forwarded.
fn deliver_all(hub: &mut Hub, sid: usize, store: &mut Store) -> Vec<Vec<u8>> {
    let mut lines = Vec::new();
    while let Some(m) = hub.session_recv(sid) {
        let frame = frame_line(&m);
        apply_line(store, &frame).expect("hub frames must decode");
        lines.push(frame);
    }
    lines
}

#[test]
fn poller_value_reaches_worker() {
    let mut hub = Hub::new(3);
    let sid = hub.attach();
    let mut store = fresh_store();

    hub.publish(poller_message(b"https://example.com/x.jpg".to_vec()));
    let lines = deliver_all(&mut hub, sid, &mut store);

    assert_eq!(lines.len(), 1);
    assert_eq!(store.value(), &b"https://example.com/x.jpg".to_vec());
}

#[test]
fn control_trigger_increments_every_worker() {
    let mut hub = Hub::new(3);
    let sid_a = hub.attach();
    let sid_b = hub.attach();
    let mut store_a = fresh_store();
    let mut store_b = fresh_store();

    // worker A's control trigger fires once: the message goes upstream ...
    let upstream = frame_line(&control_message());
    hub.session_inbound(sid_a, &upstream)
        .expect("a framed message is well-formed");

    // ... and comes back to everyone, the originating worker included.
    deliver_all(&mut hub, sid_a, &mut store_a);
    deliver_all(&mut hub, sid_b, &mut store_b);

    assert_eq!(store_a.counter(), 1);
    assert_eq!(store_b.counter(), 1);
}

#[test]
fn closed_session_leaves_the_rest_serving() {
    let mut hub = Hub::new(8);
    let sid_a = hub.attach();
    let sid_b = hub.attach();
    let sid_c = hub.attach();
    let mut store_a = fresh_store();
    let mut store_c = fresh_store();

    hub.session_closed(sid_b);

    hub.publish(poller_message(b"after the close".to_vec()));
    deliver_all(&mut hub, sid_a, &mut store_a);
    deliver_all(&mut hub, sid_c, &mut store_c);

    assert!(hub.is_accepting());
    assert!(!hub.session_alive(sid_b));
    assert!(hub.session_alive(sid_a));
    assert!(hub.session_alive(sid_c));
    assert_eq!(store_a.value(), &b"after the close".to_vec());
    assert_eq!(store_c.value(), &b"after the close".to_vec());
}

#[test]
fn malformed_line_terminates_only_that_session() {
    let mut hub = Hub::new(8);
    let sid_a = hub.attach();
    let sid_b = hub.attach();
    let mut store_b = fresh_store();

    assert!(hub.session_inbound(sid_a, b"not a message\n").is_err());

    // that session is gone; nothing was published for anyone
    assert!(!hub.session_alive(sid_a));
    assert!(hub.session_alive(sid_b));
    assert!(hub.session_recv(sid_b).is_none());

    // the other session and the broadcast stream keep working
    let upstream = frame_line(&control_message());
    hub.session_inbound(sid_b, &upstream)
        .expect("a framed message is well-formed");
    deliver_all(&mut hub, sid_b, &mut store_b);
    assert_eq!(store_b.counter(), 1);
}

#[test]
fn lag_drops_oldest_and_keeps_order() {
    let mut hub = Hub::new(2);
    let sid = hub.attach();
    let mut store = fresh_store();

    hub.publish(poller_message(b"one".to_vec()));
    hub.publish(poller_message(b"two".to_vec()));
    hub.publish(poller_message(b"three".to_vec()));

    // the buffer retains two messages: the lagging session skips the
    // contiguous prefix it lost and sees the rest in publication order
    let lines = deliver_all(&mut hub, sid, &mut store);
    assert_eq!(
        lines,
        vec![b"NewValue two\n".to_vec(), b"NewValue three\n".to_vec()]
    );
    assert_eq!(store.value(), &b"three".to_vec());
}

#[test]
fn broadcast_order_is_publication_order() {
    let mut hub = Hub::new(16);
    let sid = hub.attach();
    let mut store = fresh_store();

    hub.publish(Message::IncrementCounter);
    hub.publish(poller_message(b"mid".to_vec()));
    hub.publish(Message::IncrementCounter);

    let lines = deliver_all(&mut hub, sid, &mut store);
    assert_eq!(
        lines,
        vec![
            b"IncrementCounter\n".to_vec(),
            b"NewValue mid\n".to_vec(),
            b"IncrementCounter\n".to_vec(),
        ]
    );
    assert_eq!(store.counter(), 2);
    assert_eq!(store.value(), &b"mid".to_vec());
}

#[test]
fn fresh_subscription_sees_only_later_messages() {
    let mut hub = Hub::new(8);
    hub.publish(poller_message(b"early".to_vec()));

    let sid = hub.attach();
    let mut store = fresh_store();
    assert!(hub.session_recv(sid).is_none());

    hub.publish(poller_message(b"late".to_vec()));
    deliver_all(&mut hub, sid, &mut store);
    assert_eq!(store.value(), &b"late".to_vec());
}

#[test]
fn accept_failure_stops_accepting_but_not_sessions() {
    let mut hub = Hub::new(4);
    let sid = hub.attach();
    let mut store = fresh_store();

    hub.accept_failed();
    assert!(!hub.is_accepting());

    hub.publish(poller_message(b"still served".to_vec()));
    deliver_all(&mut hub, sid, &mut store);
    assert_eq!(store.value(), &b"still served".to_vec());
}
