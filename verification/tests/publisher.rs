use host_dispatch::event_aggregator::{
    dispose_event_aggregator, initialize_event_aggregator, AggregatorCell, Event, EventAggregator,
    PublishError,
};

/// A handle that cannot be copied, standing for a rooted host value.
#[derive(Debug, PartialEq, Eq)]
struct Handle(u32);

fn aggregator() -> EventAggregator<&'static str, Handle, Handle> {
    EventAggregator::new("channel", Handle(1), Handle(2))
}

fn log(message: &str) -> Event {
    Event::Log { message: message.to_string() }
}

#[test]
fn publishing_prepares_one_request_with_the_event_text() {
    let aggregator = aggregator();
    let request = aggregator.publish(log("started")).unwrap();
    assert_eq!(*request.channel, "channel");
    assert_eq!(*request.callback, Handle(1));
    assert_eq!(*request.receiver, Handle(2));
    assert_eq!(request.payload, "{\"type\":\"Log\",\"message\":\"started\"}");
}

#[test]
fn publishing_an_other_message_carries_code_and_description() {
    let aggregator = aggregator();
    let event = Event::OtherMessage { code: 404, description: "not found".to_string() };
    let request = aggregator.publish(event).unwrap();
    assert_eq!(
        request.payload,
        "{\"type\":\"OtherMessage\",\"code\":404,\"description\":\"not found\"}"
    );
}

#[test]
fn every_publish_gets_a_request_of_its_own() {
    let aggregator = aggregator();
    let mut payloads = Vec::new();
    for n in 0..5 {
        let request = aggregator.publish(log(&format!("event {}", n))).unwrap();
        payloads.push(request.payload);
    }
    let expected: Vec<String> = (0..5)
        .map(|n| format!("{{\"type\":\"Log\",\"message\":\"event {}\"}}", n))
        .collect();
    assert_eq!(payloads, expected);
}

#[test]
fn requests_in_flight_share_the_handles() {
    let aggregator = aggregator();
    let first = aggregator.publish(log("one")).unwrap();
    let second = aggregator.publish(log("two")).unwrap();
    assert!(std::sync::Arc::ptr_eq(&first.callback, &second.callback));
    assert!(std::sync::Arc::ptr_eq(&first.receiver, &second.receiver));
    assert!(std::ptr::eq(first.channel, second.channel));
}

#[test]
fn publishing_after_dispose_fails_and_prepares_nothing() {
    let mut aggregator = aggregator();
    assert!(!aggregator.is_disposed());
    aggregator.dispose();
    assert!(aggregator.is_disposed());
    assert_eq!(aggregator.publish(log("late")).err(), Some(PublishError::Disposed));
}

#[test]
fn every_publish_after_dispose_fails_the_same_way() {
    let mut aggregator = aggregator();
    assert!(aggregator.publish(log("before")).is_ok());
    aggregator.dispose();
    for n in 0..4 {
        let event = Event::OtherMessage { code: n, description: "late".to_string() };
        assert_eq!(aggregator.publish(event).err(), Some(PublishError::Disposed));
    }
}

#[test]
fn disposing_twice_is_disposing_once() {
    let mut aggregator = aggregator();
    aggregator.dispose();
    aggregator.dispose();
    assert!(aggregator.is_disposed());
    assert_eq!(aggregator.publish(log("late")).err(), Some(PublishError::Disposed));
}

#[test]
fn a_new_cell_holds_no_aggregator() {
    let cell: AggregatorCell<&'static str, Handle, Handle> = AggregatorCell::new();
    assert!(cell.get().is_none());
}

#[test]
fn initializing_fills_the_cell() {
    let mut cell = AggregatorCell::new();
    initialize_event_aggregator(&mut cell, "channel", Handle(1), Handle(2));
    let aggregator = EventAggregator::instance(&cell);
    assert!(!aggregator.is_disposed());
    let request = aggregator.publish(log("ready")).unwrap();
    assert_eq!(*request.channel, "channel");
    assert_eq!(*request.callback, Handle(1));
    assert_eq!(*request.receiver, Handle(2));
    assert_eq!(request.payload, "{\"type\":\"Log\",\"message\":\"ready\"}");
}

#[test]
fn a_filled_cell_keeps_its_aggregator() {
    let mut cell = AggregatorCell::new();
    assert!(cell.set(EventAggregator::new("first", Handle(1), Handle(2))).is_ok());
    let refused = cell.set(EventAggregator::new("second", Handle(3), Handle(4)));
    let handed_back = refused.err().unwrap();
    assert_eq!(*handed_back.publish(log("x")).unwrap().channel, "second");
    let request = cell.get().unwrap().publish(log("x")).unwrap();
    assert_eq!(*request.channel, "first");
    assert_eq!(*request.callback, Handle(1));
}

#[test]
fn disposing_through_the_cell_keeps_the_aggregator_in_it() {
    let mut cell = AggregatorCell::new();
    initialize_event_aggregator(&mut cell, "channel", Handle(1), Handle(2));
    dispose_event_aggregator(&mut cell);
    let aggregator = cell.get().unwrap();
    assert!(aggregator.is_disposed());
    assert_eq!(aggregator.publish(log("late")).err(), Some(PublishError::Disposed));
    dispose_event_aggregator(&mut cell);
    assert!(EventAggregator::instance(&cell).is_disposed());
}
