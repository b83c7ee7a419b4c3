use symphony_core::events_manager::EventsManager;
use symphony_core::messaging::ClientMessages;

fn sample_message() -> ClientMessages {
    ClientMessages::ListDir(0, "".to_string(), Ok(vec![]))
}

#[test]
fn rendezvous_delivers_exactly_once() {
    let mut em = EventsManager::new();
    em.listen_on("listDir".to_string(), 7);

    let delivered = em.deliver(&"listDir".to_string(), 7, sample_message());
    assert!(delivered);

    let first = em.poll(&"listDir".to_string(), 7);
    assert_eq!(first, Some(sample_message()));

    // The registration is gone with its one message.
    let second = em.poll(&"listDir".to_string(), 7);
    assert_eq!(second, None);
    let delivered_again = em.deliver(&"listDir".to_string(), 7, sample_message());
    assert!(!delivered_again);
}

#[test]
fn delivery_without_listener_is_dropped() {
    let mut em = EventsManager::new();
    assert!(!em.deliver(&"noone".to_string(), 1, sample_message()));
    assert_eq!(em.poll(&"noone".to_string(), 1), None);
}

#[test]
fn unlisten_is_idempotent() {
    let mut em = EventsManager::new();
    em.listen_on("evt".to_string(), 3);
    em.unlisten_from(&"evt".to_string(), 3);
    em.unlisten_from(&"evt".to_string(), 3);
    assert!(!em.deliver(&"evt".to_string(), 3, sample_message()));
}

#[test]
fn delivery_reaches_only_the_addressed_listener() {
    let mut em = EventsManager::new();
    em.listen_on("evt".to_string(), 1);
    em.listen_on("evt".to_string(), 2);

    assert!(em.deliver(&"evt".to_string(), 1, sample_message()));

    // The other listener under the same event name sees nothing.
    assert_eq!(em.poll(&"evt".to_string(), 2), None);
    assert_eq!(em.poll(&"evt".to_string(), 1), Some(sample_message()));
}

#[test]
fn full_slot_drops_the_second_message() {
    let mut em = EventsManager::new();
    em.listen_on("evt".to_string(), 9);
    assert!(em.deliver(&"evt".to_string(), 9, sample_message()));
    assert!(!em.deliver(&"evt".to_string(), 9, ClientMessages::ListExtensions(4)));
    assert_eq!(em.poll(&"evt".to_string(), 9), Some(sample_message()));
}

#[test]
fn listener_ids_are_independent_across_events() {
    let mut em = EventsManager::new();
    em.listen_on("a".to_string(), 5);
    em.listen_on("b".to_string(), 5);
    assert!(em.deliver(&"a".to_string(), 5, ClientMessages::GetState(1)));
    assert_eq!(em.poll(&"b".to_string(), 5), None);
    assert_eq!(em.poll(&"a".to_string(), 5), Some(ClientMessages::GetState(1)));
}
