use scavnet::queue::TransmissionQueue;
use scavnet::transmission::Transmission;

fn on(frequency: u32, id: &str) -> Transmission {
    let mut transmission = Transmission::new(frequency);
    transmission.id = id.to_string();
    transmission
}

fn ids(queue: &TransmissionQueue) -> Vec<String> {
    queue.transmissions.iter().map(|t| t.id.clone()).collect()
}

#[test]
fn queue_keeps_arrival_order() {
    let mut queue = TransmissionQueue::new();
    assert!(queue.is_empty());
    assert!(TransmissionQueue::empty().is_empty());
    queue.add(on(10, "a"));
    queue.extend(vec![on(20, "b"), on(10, "c")]);
    queue.extend(Vec::new());
    assert!(!queue.is_empty());
    assert_eq!(ids(&queue), vec!["a", "b", "c"]);
}

#[test]
fn take_match_takes_the_first_on_the_frequency_and_only_one() {
    let mut queue = TransmissionQueue::new();
    queue.extend(vec![on(20, "b"), on(10, "a"), on(10, "c"), on(30, "d")]);
    assert!(queue.take_match(40).is_none());
    assert_eq!(ids(&queue), vec!["b", "a", "c", "d"]);
    assert_eq!(queue.take_match(10).unwrap().id, "a");
    assert_eq!(ids(&queue), vec!["b", "c", "d"]);
    assert_eq!(queue.take_match(10).unwrap().id, "c");
    assert!(queue.take_match(10).is_none());
    assert_eq!(ids(&queue), vec!["b", "d"]);
}

#[test]
fn get_queued_transmissions_empties_the_queue() {
    let mut queue = TransmissionQueue::new();
    assert!(queue.get_queued_transmissions().is_empty());
    queue.extend(vec![on(1, "x"), on(2, "y")]);
    let taken = queue.get_queued_transmissions();
    assert_eq!(taken.len(), 2);
    assert_eq!(taken[0].id, "x");
    assert_eq!(taken[1].id, "y");
    assert!(queue.is_empty());
}
