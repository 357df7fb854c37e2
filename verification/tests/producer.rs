use statusblocks::aggregator::TaggedResult;
use statusblocks::producer::{Action, Descriptor, Event, Phase, Producer, RegisterError};

fn descriptor(name: &str, interval: u32, limit: Option<u64>) -> Descriptor {
    Descriptor { name: name.to_string(), interval, fallback: "n/a".to_string(), limit }
}

fn publish(name: &str, value: &str) -> Action {
    Action::Publish(TaggedResult { name: name.to_string(), value: value.to_string() })
}

fn started(name: &str, interval: u32, limit: Option<u64>) -> Producer {
    let mut producer = Producer::new(descriptor(name, interval, limit)).unwrap();
    assert_eq!(producer.step(Event::Started), Action::Fetch);
    producer
}

#[test]
fn new_producer_waits_to_be_started() {
    let producer = Producer::new(descriptor("A", 7, Some(3))).unwrap();
    assert_eq!(producer.phase(), Phase::Idle);
    assert_eq!(producer.name(), "A");
    assert_eq!(producer.interval(), 7);
    assert_eq!(producer.remaining(), Some(3));
    assert!(producer.is_named(&"A".to_string()));
    assert!(!producer.is_named(&"B".to_string()));
}

#[test]
fn zero_interval_is_refused() {
    assert_eq!(Producer::new(descriptor("A", 0, None)).err(), Some(RegisterError::ZeroInterval));
}

#[test]
fn one_round_is_fetch_publish_sleep_fetch() {
    let mut producer = Producer::new(descriptor("A", 5, None)).unwrap();
    assert_eq!(producer.step(Event::Started), Action::Fetch);
    assert_eq!(producer.phase(), Phase::Fetching);
    assert_eq!(producer.step(Event::Fetched(Some("x".to_string()))), publish("A", "x"));
    assert_eq!(producer.phase(), Phase::Publishing);
    assert_eq!(producer.step(Event::Delivered), Action::Sleep(5));
    assert_eq!(producer.phase(), Phase::Sleeping);
    assert_eq!(producer.step(Event::Woke), Action::Fetch);
    assert_eq!(producer.phase(), Phase::Fetching);
}

#[test]
fn failed_fetch_publishes_the_fallback_and_goes_on() {
    let mut producer = started("A", 2, None);
    for _ in 0..50 {
        assert_eq!(producer.step(Event::Fetched(None)), publish("A", "n/a"));
        assert_eq!(producer.step(Event::Delivered), Action::Sleep(2));
        assert_eq!(producer.step(Event::Woke), Action::Fetch);
    }
    assert_eq!(producer.phase(), Phase::Fetching);
}

#[test]
fn a_failed_sample_does_not_stop_later_samples() {
    let mut producer = started("A", 1, None);
    assert_eq!(producer.step(Event::Fetched(None)), publish("A", "n/a"));
    assert_eq!(producer.step(Event::Delivered), Action::Sleep(1));
    assert_eq!(producer.step(Event::Woke), Action::Fetch);
    assert_eq!(producer.step(Event::Fetched(Some("ok".to_string()))), publish("A", "ok"));
}

#[test]
fn empty_text_is_published_as_it_is() {
    let mut producer = started("A", 1, None);
    assert_eq!(producer.step(Event::Fetched(Some(String::new()))), publish("A", ""));
}

#[test]
fn closed_channel_ends_the_loop() {
    let mut producer = started("A", 1, None);
    producer.step(Event::Fetched(Some("x".to_string())));
    assert_eq!(producer.step(Event::ChannelClosed), Action::Stop);
    assert_eq!(producer.phase(), Phase::Stopped);
    assert_eq!(producer.step(Event::Woke), Action::Stop);
    assert_eq!(producer.step(Event::Started), Action::Stop);
    assert_eq!(producer.phase(), Phase::Stopped);
}

#[test]
fn limit_ends_the_loop_after_that_many_deliveries() {
    let mut producer = started("A", 3, Some(2));
    assert_eq!(producer.step(Event::Fetched(Some("1".to_string()))), publish("A", "1"));
    assert_eq!(producer.step(Event::Delivered), Action::Sleep(3));
    assert_eq!(producer.remaining(), Some(1));
    assert_eq!(producer.step(Event::Woke), Action::Fetch);
    assert_eq!(producer.step(Event::Fetched(Some("2".to_string()))), publish("A", "2"));
    assert_eq!(producer.step(Event::Delivered), Action::Stop);
    assert_eq!(producer.remaining(), Some(0));
    assert_eq!(producer.phase(), Phase::Stopped);
}

#[test]
fn limit_of_zero_never_fetches() {
    let mut producer = Producer::new(descriptor("A", 1, Some(0))).unwrap();
    assert_eq!(producer.step(Event::Started), Action::Stop);
    assert_eq!(producer.phase(), Phase::Stopped);
}

#[test]
fn limit_of_one_publishes_once() {
    let mut producer = started("A", 1, Some(1));
    assert_eq!(producer.step(Event::Fetched(None)), publish("A", "n/a"));
    assert_eq!(producer.step(Event::Delivered), Action::Stop);
}

#[test]
fn event_out_of_turn_ends_the_loop() {
    let cases: Vec<(Vec<Event>, Event)> = vec![
        (vec![], Event::Woke),
        (vec![], Event::Delivered),
        (vec![], Event::Fetched(None)),
        (vec![Event::Started], Event::Started),
        (vec![Event::Started], Event::Woke),
        (vec![Event::Started], Event::Delivered),
        (vec![Event::Started, Event::Fetched(None)], Event::Fetched(None)),
        (vec![Event::Started, Event::Fetched(None)], Event::Woke),
        (vec![Event::Started, Event::Fetched(None), Event::Delivered], Event::Delivered),
        (vec![Event::Started, Event::Fetched(None), Event::Delivered], Event::ChannelClosed),
    ];
    for (before, stray) in cases {
        let mut producer = Producer::new(descriptor("A", 1, None)).unwrap();
        for event in before {
            assert_ne!(producer.step(event), Action::Stop);
        }
        assert_eq!(producer.step(stray), Action::Stop);
        assert_eq!(producer.phase(), Phase::Stopped);
    }
}

#[test]
fn no_event_changes_name_or_interval() {
    let mut producer = Producer::new(descriptor("A", 9, None)).unwrap();
    let events = [
        Event::Started,
        Event::Fetched(Some("x".to_string())),
        Event::Delivered,
        Event::Woke,
        Event::ChannelClosed,
        Event::Started,
    ];
    for event in events {
        producer.step(event);
        assert_eq!(producer.name(), "A");
        assert_eq!(producer.interval(), 9);
    }
}

#[test]
fn a_fetch_is_asked_for_only_after_the_last_one_was_reported() {
    let mut producer = Producer::new(descriptor("A", 1, None)).unwrap();
    let events = [
        Event::Started,
        Event::Fetched(None),
        Event::Delivered,
        Event::Woke,
        Event::Fetched(Some("x".to_string())),
        Event::Delivered,
        Event::Woke,
        Event::Woke,
        Event::Fetched(None),
    ];
    let mut asked = 0;
    let mut reported = 0;
    for event in events {
        if matches!(event, Event::Fetched(_)) {
            reported += 1;
        }
        if producer.step(event) == Action::Fetch {
            asked += 1;
        }
        assert!(asked <= reported + 1);
    }
    assert_eq!(asked, 3);
}
