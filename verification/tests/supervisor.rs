use statusblocks::aggregator::{Aggregator, TaggedResult};
use statusblocks::producer::{Action, Descriptor, Event, Phase, Producer, RegisterError};
use statusblocks::supervisor::Supervisor;

fn descriptor(name: &str, interval: u32) -> Descriptor {
    Descriptor { name: name.to_string(), interval, fallback: "-".to_string(), limit: None }
}

fn constant(name: &str, interval: u32, limit: u64) -> Descriptor {
    Descriptor { name: name.to_string(), interval, fallback: "-".to_string(), limit: Some(limit) }
}

#[test]
fn registration_gives_indices_in_order() {
    let mut supervisor = Supervisor::new();
    assert_eq!(supervisor.len(), 0);
    assert_eq!(supervisor.register(descriptor("A", 1)), Ok(0));
    assert_eq!(supervisor.register(descriptor("B", 2)), Ok(1));
    assert_eq!(supervisor.register(descriptor("C", 3)), Ok(2));
    assert_eq!(supervisor.len(), 3);
    assert_eq!(supervisor.index_of(&"B".to_string()), Some(1));
    assert_eq!(supervisor.index_of(&"D".to_string()), None);
    assert_eq!(supervisor.producer(2).map(Producer::name), Some("C"));
    assert_eq!(supervisor.producer(2).map(Producer::interval), Some(3));
    assert!(supervisor.producer(3).is_none());
}

#[test]
fn zero_interval_is_refused_and_changes_nothing() {
    let mut supervisor = Supervisor::new();
    supervisor.register(descriptor("A", 1)).unwrap();
    assert_eq!(supervisor.register(descriptor("B", 0)), Err(RegisterError::ZeroInterval));
    assert_eq!(supervisor.len(), 1);
    assert_eq!(supervisor.index_of(&"B".to_string()), None);
}

#[test]
fn taken_name_is_refused_and_changes_nothing() {
    let mut supervisor = Supervisor::new();
    supervisor.register(descriptor("A", 1)).unwrap();
    assert_eq!(supervisor.register(descriptor("A", 9)), Err(RegisterError::DuplicateName));
    assert_eq!(supervisor.len(), 1);
    assert_eq!(supervisor.producer(0).map(Producer::interval), Some(1));
}

#[test]
fn zero_interval_is_reported_before_a_taken_name() {
    let mut supervisor = Supervisor::new();
    supervisor.register(descriptor("A", 1)).unwrap();
    assert_eq!(supervisor.register(descriptor("A", 0)), Err(RegisterError::ZeroInterval));
}

#[test]
fn dispatch_to_an_unknown_index_does_nothing() {
    let mut supervisor = Supervisor::new();
    supervisor.register(descriptor("A", 1)).unwrap();
    assert_eq!(supervisor.dispatch(1, Event::Started), None);
    assert_eq!(supervisor.producer(0).map(Producer::phase), Some(Phase::Idle));
}

#[test]
fn dispatch_moves_one_producer_and_no_other() {
    let mut supervisor = Supervisor::new();
    supervisor.register(descriptor("A", 1)).unwrap();
    supervisor.register(descriptor("B", 2)).unwrap();
    assert_eq!(supervisor.dispatch(1, Event::Started), Some(Action::Fetch));
    assert_eq!(supervisor.producer(0).map(Producer::phase), Some(Phase::Idle));
    assert_eq!(supervisor.producer(1).map(Producer::phase), Some(Phase::Fetching));
    assert_eq!(supervisor.dispatch(1, Event::ChannelClosed), Some(Action::Stop));
    assert_eq!(supervisor.producer(0).map(Producer::phase), Some(Phase::Idle));
    assert_eq!(supervisor.dispatch(0, Event::Started), Some(Action::Fetch));
}

fn answers_of_first(steps: &[(usize, Event)]) -> Vec<Action> {
    let mut supervisor = Supervisor::new();
    supervisor.register(descriptor("fast", 1)).unwrap();
    supervisor.register(descriptor("slow", 1)).unwrap();
    let mut answers = Vec::new();
    for (id, event) in steps {
        let answer = supervisor.dispatch(*id, event.clone()).unwrap();
        if *id == 0 {
            answers.push(answer);
        }
    }
    answers
}

#[test]
fn a_stalled_producer_does_not_change_what_another_does() {
    let round = |id: usize, text: &str| {
        vec![
            (id, Event::Fetched(Some(text.to_string()))),
            (id, Event::Delivered),
            (id, Event::Woke),
        ]
    };
    // Alone: the fast producer goes through five rounds.
    let mut alone = vec![(0, Event::Started)];
    for n in 0..5 {
        alone.extend(round(0, &n.to_string()));
    }
    // Beside a producer whose single fetch returns only at the very end.
    let mut beside = vec![(1, Event::Started), (0, Event::Started)];
    for n in 0..5 {
        beside.extend(round(0, &n.to_string()));
    }
    beside.push((1, Event::Fetched(None)));
    // Beside a producer whose events fall between its own.
    let mut mixed = vec![(0, Event::Started), (1, Event::Started)];
    for n in 0..5 {
        for (k, step) in round(0, &n.to_string()).into_iter().enumerate() {
            mixed.push(step);
            mixed.push(round(1, "s")[k].clone());
        }
    }
    let baseline = answers_of_first(&alone);
    assert_eq!(baseline.len(), 16);
    assert_eq!(answers_of_first(&beside), baseline);
    assert_eq!(answers_of_first(&mixed), baseline);
}

#[test]
fn a_stopped_producer_leaves_the_others_running() {
    let mut supervisor = Supervisor::new();
    supervisor.register(descriptor("A", 1)).unwrap();
    supervisor.register(descriptor("B", 1)).unwrap();
    supervisor.dispatch(0, Event::Started);
    supervisor.dispatch(1, Event::Started);
    supervisor.dispatch(0, Event::Fetched(None));
    assert_eq!(supervisor.dispatch(0, Event::ChannelClosed), Some(Action::Stop));
    assert_eq!(
        supervisor.dispatch(1, Event::Fetched(Some("y".to_string()))),
        Some(Action::Publish(TaggedResult { name: "B".to_string(), value: "y".to_string() }))
    );
    assert_eq!(supervisor.dispatch(1, Event::Delivered), Some(Action::Sleep(1)));
}

// Runs the producers on a simulated clock: fetches and deliveries take no
// time, a sleep takes its length. Gives the line after every delivery.
fn simulate(mut supervisor: Supervisor, texts: &[&str], order: &[&str], until: u64) -> Vec<(u64, String)> {
    let mut aggregator =
        Aggregator::new(order.iter().map(|n| n.to_string()).collect(), "|".to_string());
    let mut wake_at: Vec<Option<u64>> = vec![Some(0); supervisor.len()];
    let mut first = vec![true; supervisor.len()];
    let mut lines = Vec::new();
    for now in 0..=until {
        for id in 0..supervisor.len() {
            if wake_at[id] != Some(now) {
                continue;
            }
            let event = if first[id] { Event::Started } else { Event::Woke };
            first[id] = false;
            wake_at[id] = None;
            if supervisor.dispatch(id, event) != Some(Action::Fetch) {
                continue;
            }
            let fetched = Event::Fetched(Some(texts[id].to_string()));
            if let Some(Action::Publish(result)) = supervisor.dispatch(id, fetched) {
                lines.push((now, aggregator.update(result)));
                if let Some(Action::Sleep(seconds)) = supervisor.dispatch(id, Event::Delivered) {
                    wake_at[id] = Some(now + seconds as u64);
                }
            }
        }
    }
    lines
}

#[test]
fn two_producers_on_their_own_intervals() {
    let mut supervisor = Supervisor::new();
    supervisor.register(descriptor("B", 2)).unwrap();
    supervisor.register(descriptor("A", 1)).unwrap();
    supervisor.register(descriptor("C", 3)).unwrap();
    let lines = simulate(supervisor, &["y", "x", "z"], &["A", "B"], 2);
    let expected: Vec<(u64, String)> = vec![
        (0, "|y".to_string()),
        (0, "x|y".to_string()),
        (0, "x|y".to_string()),
        (1, "x|y".to_string()),
        (2, "x|y".to_string()),
        (2, "x|y".to_string()),
    ];
    assert_eq!(lines, expected);
}

#[test]
fn publish_count_stays_within_one_of_the_run_in_intervals() {
    for interval in [1u32, 2, 3, 7, 10] {
        for until in [0u64, 1, 5, 9, 10, 11, 59, 60] {
            let mut supervisor = Supervisor::new();
            supervisor.register(descriptor("A", interval)).unwrap();
            let count = simulate(supervisor, &["x"], &["A"], until).len() as u64;
            let floor = until / interval as u64;
            let ceil = (until + interval as u64 - 1) / interval as u64;
            assert_eq!(count, floor + 1);
            assert!(count + 1 >= floor);
            assert!(count <= ceil + 1);
        }
    }
}

#[test]
fn limited_producer_stops_publishing() {
    let mut supervisor = Supervisor::new();
    supervisor.register(constant("A", 1, 3)).unwrap();
    let lines = simulate(supervisor, &["x"], &["A"], 20);
    assert_eq!(lines.len(), 3);
    assert_eq!(lines[2], (2, "x".to_string()));
}
