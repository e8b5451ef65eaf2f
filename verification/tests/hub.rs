use chat_server::event::{Delivery, Event, Outcome, SessionId};
use chat_server::hub::{Hub, Stage};

fn texts_for(deliveries: &[Delivery], id: SessionId) -> Vec<String> {
    let mut texts = Vec::new();
    for delivery in deliveries {
        if delivery.to == id {
            texts.push(delivery.text.clone());
        }
    }
    texts
}

fn delivery(to: SessionId, text: &str) -> Delivery {
    Delivery { to, text: text.to_string() }
}

fn silent() -> Outcome {
    Outcome { log: Vec::new(), deliveries: Vec::new() }
}

#[test]
fn new_hub_is_empty() {
    let hub = Hub::new(32);
    assert_eq!(hub.threshold(), 32);
    assert_eq!(hub.num_clients(), 0);
    assert_eq!(hub.remaining(), 32);
    assert_eq!(hub.stage(), Stage::Empty);
    assert!(!hub.is_ready());
    assert_eq!(hub.clients(), Vec::<SessionId>::new());
}

#[test]
fn connect_appends_and_reports_remaining() {
    let mut hub = Hub::new(3);
    let first = hub.connect("A", 10);
    assert_eq!(first.log, vec!["A connected (2 remain)".to_string()]);
    assert!(first.deliveries.is_empty());
    assert_eq!(hub.clients(), vec![10]);
    assert_eq!(hub.stage(), Stage::Filling);
    let second = hub.connect("B", 11);
    assert_eq!(second.log, vec!["B connected (1 remain)".to_string()]);
    assert!(second.deliveries.is_empty());
    assert_eq!(hub.clients(), vec![10, 11]);
    assert_eq!(hub.num_clients(), 2);
    assert_eq!(hub.remaining(), 1);
    assert!(hub.is_connected(10));
    assert!(hub.is_connected(11));
    assert!(!hub.is_connected(12));
}

#[test]
fn quorum_announces_ready_to_everyone() {
    let mut hub = Hub::new(3);
    hub.connect("A", 1);
    hub.connect("B", 2);
    let third = hub.connect("C", 3);
    assert_eq!(
        third.log,
        vec![
            "C connected (0 remain)".to_string(),
            "All clients connected".to_string(),
            "Starting benchmark by sending 'ready' message".to_string(),
        ]
    );
    assert_eq!(
        third.deliveries,
        vec![delivery(1, "ready"), delivery(2, "ready"), delivery(3, "ready")]
    );
    assert!(hub.is_ready());
    assert_eq!(hub.stage(), Stage::Ready);
}

#[test]
fn quorum_of_one_announces_on_first_connect() {
    let mut hub = Hub::new(1);
    let out = hub.connect("solo", 5);
    assert_eq!(out.deliveries, vec![delivery(5, "ready")]);
    assert_eq!(out.log.len(), 3);
    assert_eq!(out.log[0], "solo connected (0 remain)");
}

#[test]
fn ready_is_not_announced_above_the_quorum() {
    let mut hub = Hub::new(2);
    hub.connect("A", 1);
    hub.connect("B", 2);
    let third = hub.connect("C", 3);
    assert!(third.deliveries.is_empty());
    assert_eq!(third.log, vec!["C connected (0 remain)".to_string()]);
    assert_eq!(hub.remaining(), 0);
    assert_eq!(hub.num_clients(), 3);
}

#[test]
fn ready_is_not_announced_again_after_regrowth() {
    let mut hub = Hub::new(2);
    let mut announcements = 0;
    for (name, id) in [("A", 1), ("B", 2)] {
        if !hub.connect(name, id).deliveries.is_empty() {
            announcements += 1;
        }
    }
    assert_eq!(announcements, 1);
    hub.disconnect(2);
    assert_eq!(hub.num_clients(), 1);
    assert_eq!(hub.stage(), Stage::Ready);
    let again = hub.connect("C", 3);
    assert_eq!(hub.num_clients(), 2);
    assert!(again.deliveries.is_empty());
    assert_eq!(again.log, vec!["C connected (0 remain)".to_string()]);
    hub.disconnect(1);
    hub.disconnect(3);
    assert_eq!(hub.num_clients(), 0);
    assert_eq!(hub.stage(), Stage::Ready);
    assert!(hub.connect("D", 4).deliveries.is_empty());
    assert!(hub.connect("E", 5).deliveries.is_empty());
}

#[test]
fn ready_waits_for_the_quorum_after_early_leavers() {
    let mut hub = Hub::new(2);
    assert!(hub.connect("A", 1).deliveries.is_empty());
    hub.disconnect(1);
    assert_eq!(hub.stage(), Stage::Empty);
    assert!(hub.connect("B", 2).deliveries.is_empty());
    assert_eq!(hub.stage(), Stage::Filling);
    let out = hub.connect("C", 3);
    assert_eq!(out.deliveries, vec![delivery(2, "ready"), delivery(3, "ready")]);
}

#[test]
fn duplicate_connect_changes_nothing() {
    let mut hub = Hub::new(3);
    hub.connect("A", 1);
    hub.connect("B", 2);
    let out = hub.connect("A again", 1);
    assert_eq!(out, silent());
    assert_eq!(hub.clients(), vec![1, 2]);
    assert!(!hub.is_ready());
    let third = hub.connect("C", 3);
    assert_eq!(third.deliveries.len(), 3);
}

#[test]
fn disconnect_removes_only_that_session() {
    let mut hub = Hub::new(5);
    hub.connect("A", 1);
    hub.connect("B", 2);
    hub.connect("C", 3);
    hub.disconnect(2);
    assert_eq!(hub.clients(), vec![1, 3]);
    assert!(!hub.is_connected(2));
    assert_eq!(hub.remaining(), 3);
}

#[test]
fn disconnect_of_absent_session_is_a_no_op() {
    let mut hub = Hub::new(5);
    hub.disconnect(9);
    assert_eq!(hub.num_clients(), 0);
    hub.connect("A", 1);
    hub.connect("B", 2);
    hub.disconnect(9);
    assert_eq!(hub.clients(), vec![1, 2]);
    hub.disconnect(1);
    hub.disconnect(1);
    assert_eq!(hub.clients(), vec![2]);
    assert!(!hub.is_ready());
}

#[test]
fn registry_holds_connected_and_not_disconnected() {
    let mut hub = Hub::new(4);
    let events = vec![
        Event::Connect { name: "A".to_string(), id: 1 },
        Event::Connect { name: "B".to_string(), id: 2 },
        Event::Disconnect { id: 1 },
        Event::Connect { name: "C".to_string(), id: 3 },
        Event::Connect { name: "B".to_string(), id: 2 },
        Event::Disconnect { id: 7 },
        Event::Connect { name: "A".to_string(), id: 1 },
        Event::Disconnect { id: 3 },
    ];
    for event in events {
        hub.handle(event);
    }
    assert_eq!(hub.clients(), vec![2, 1]);
}

#[test]
fn broadcast_reaches_every_session_in_order() {
    let mut hub = Hub::new(9);
    hub.connect("A", 4);
    hub.connect("B", 2);
    hub.connect("C", 8);
    assert_eq!(
        hub.broadcast("hello"),
        vec![delivery(4, "hello"), delivery(2, "hello"), delivery(8, "hello")]
    );
}

#[test]
fn broadcast_of_empty_text_is_delivered() {
    let mut hub = Hub::new(9);
    hub.connect("A", 1);
    hub.connect("B", 2);
    assert_eq!(hub.broadcast(""), vec![delivery(1, ""), delivery(2, "")]);
}

#[test]
fn broadcast_without_sessions_delivers_nothing() {
    let hub = Hub::new(2);
    assert!(hub.broadcast("anyone?").is_empty());
    assert!(hub.ready().is_empty());
    assert!(hub.relay("A", "hi").is_empty());
}

#[test]
fn ready_delivers_the_control_message() {
    let mut hub = Hub::new(9);
    hub.connect("A", 1);
    assert_eq!(hub.ready(), vec![delivery(1, "ready")]);
    assert!(!hub.is_ready());
}

#[test]
fn relay_prefixes_the_sender_name() {
    let mut hub = Hub::new(9);
    hub.connect("A", 1);
    hub.connect("B", 2);
    let deliveries = hub.relay("A", "hi");
    assert_eq!(deliveries, vec![delivery(1, "A: hi"), delivery(2, "A: hi")]);
    assert_eq!(texts_for(&deliveries, 1), vec!["A: hi".to_string()]);
    assert_eq!(texts_for(&deliveries, 2), vec!["A: hi".to_string()]);
    assert_eq!(texts_for(&deliveries, 3), Vec::<String>::new());
}

#[test]
fn relay_leaves_the_text_as_it_is() {
    let mut hub = Hub::new(9);
    hub.connect("A", 1);
    let text = "  <b>x</b>: \"y\"\n\ttail  ";
    assert_eq!(hub.relay("A", text), vec![delivery(1, "A:   <b>x</b>: \"y\"\n\ttail  ")]);
    assert_eq!(hub.relay("A", ""), vec![delivery(1, "A: ")]);
    assert_eq!(hub.relay("żółw", "héllo ✓"), vec![delivery(1, "żółw: héllo ✓")]);
}

#[test]
fn handle_connect_matches_connect() {
    let mut by_event = Hub::new(2);
    let mut by_call = Hub::new(2);
    for (name, id) in [("A", 1), ("B", 2), ("C", 3)] {
        let left = by_event.handle(Event::Connect { name: name.to_string(), id });
        let right = by_call.connect(name, id);
        assert_eq!(left, right);
        assert_eq!(by_event.clients(), by_call.clients());
    }
}

#[test]
fn handle_disconnect_is_silent() {
    let mut hub = Hub::new(2);
    hub.connect("A", 1);
    assert_eq!(hub.handle(Event::Disconnect { id: 1 }), silent());
    assert_eq!(hub.num_clients(), 0);
    assert_eq!(hub.handle(Event::Disconnect { id: 1 }), silent());
}

#[test]
fn handle_broadcast_and_relay_deliver_without_logging() {
    let mut hub = Hub::new(5);
    hub.connect("A", 1);
    hub.connect("B", 2);
    let broadcast = hub.handle(Event::Broadcast { text: "note".to_string() });
    assert!(broadcast.log.is_empty());
    assert_eq!(broadcast.deliveries, vec![delivery(1, "note"), delivery(2, "note")]);
    let relay = hub.handle(Event::Relay { name: "B".to_string(), text: "yo".to_string() });
    assert!(relay.log.is_empty());
    assert_eq!(relay.deliveries, vec![delivery(1, "B: yo"), delivery(2, "B: yo")]);
    assert_eq!(hub.clients(), vec![1, 2]);
}

#[test]
fn relays_keep_the_order_of_their_sender() {
    let mut hub = Hub::new(5);
    hub.connect("A", 1);
    hub.connect("B", 2);
    let mut inbox_of_b = Vec::new();
    for text in ["one", "two", "three"] {
        let out = hub.handle(Event::Relay { name: "A".to_string(), text: text.to_string() });
        inbox_of_b.extend(texts_for(&out.deliveries, 2));
    }
    assert_eq!(inbox_of_b, vec!["A: one", "A: two", "A: three"]);
}

#[test]
fn events_and_outcomes_are_cloned_whole() {
    let events = vec![
        Event::Connect { name: "A".to_string(), id: 1 },
        Event::Disconnect { id: 2 },
        Event::Broadcast { text: "all".to_string() },
        Event::Relay { name: "B".to_string(), text: "hi".to_string() },
    ];
    for event in &events {
        assert_eq!(&event.clone(), event);
    }
    let mut hub = Hub::new(2);
    hub.connect("A", 1);
    let outcome = hub.connect("B", 2);
    assert_eq!(outcome.clone(), outcome);
    assert_eq!(outcome.deliveries[0].clone(), delivery(1, "ready"));
}
