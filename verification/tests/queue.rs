use snake::events::{find_matches, KeyEventQueue, KeyPress};

#[test]
fn drain_returns_events_in_arrival_order_and_empties() {
    let mut queue: KeyEventQueue<KeyPress> = KeyEventQueue::new();
    queue.add_event(KeyPress::Left);
    queue.add_event(KeyPress::Right);
    let drained = queue.get_all_events().unwrap();
    assert_eq!(drained, vec![KeyPress::Left, KeyPress::Right]);
    let again = queue.get_all_events().unwrap();
    assert!(again.is_empty());
}

#[test]
fn take_latest_keeps_only_the_newest_event() {
    let mut queue: KeyEventQueue<KeyPress> = KeyEventQueue::new();
    queue.add_event(KeyPress::Left);
    queue.add_event(KeyPress::Right);
    assert_eq!(queue.get_latest_event(), Some(KeyPress::Right));
    assert_eq!(queue.get_latest_event(), None);
}

#[test]
fn add_event_reports_the_queue_length() {
    let mut queue: KeyEventQueue<u8> = KeyEventQueue::new();
    assert_eq!(queue.add_event(7), 1);
    assert_eq!(queue.add_event(8), 2);
    assert_eq!(queue.add_event(9), 3);
}

#[test]
fn find_matches_groups_by_key_order() {
    let pressed = [KeyPress::Char('a'), KeyPress::Char('b'), KeyPress::Char('a')];
    let looked_for = [KeyPress::Char('b'), KeyPress::Char('a')];
    let found = find_matches(&pressed, &looked_for);
    assert_eq!(
        found,
        vec![KeyPress::Char('b'), KeyPress::Char('a'), KeyPress::Char('a')]
    );
}

#[test]
fn find_matches_with_no_hits_is_empty() {
    let pressed = [KeyPress::Up, KeyPress::Down];
    let looked_for = [KeyPress::Esc];
    assert!(find_matches(&pressed, &looked_for).is_empty());
}
