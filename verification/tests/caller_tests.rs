use dispatcher::caller::opening_with;
use dispatcher::caller::prepare_request;
use dispatcher::caller::reply_is_faithful;
use dispatcher::caller::stopwatch;
use dispatcher::caller::PAYLOAD_LIMIT;
use dispatcher::caller::PAYLOAD_MIN;
use dispatcher::caller::START_DELAY_LIMIT_SECS;
use dispatcher::work_item::WorkItem;

#[test]
fn limits_are_as_documented() {
    assert_eq!(START_DELAY_LIMIT_SECS, 5);
    assert_eq!(PAYLOAD_MIN, 1);
    assert_eq!(PAYLOAD_LIMIT, 10);
}

#[test]
fn opening_with_keeps_what_was_drawn() {
    let opening = opening_with(3, 4, 9);
    assert_eq!(opening.start_delay_secs, 4);
    assert_eq!(opening.request, WorkItem::new(3, 9));
}

#[test]
fn prepared_requests_stay_within_their_ranges() {
    for round in 0..500 {
        let opening = prepare_request(round);
        assert!(opening.start_delay_secs < 5);
        assert_eq!(opening.request.caller_id(), round);
        assert!(opening.request.payload() >= 1);
        assert!(opening.request.payload() < 10);
    }
}

#[test]
fn prepared_requests_are_drawn_not_fixed() {
    let first = prepare_request(0);
    let mut other_delay = false;
    let mut other_payload = false;
    for _ in 0..2000 {
        let next = prepare_request(0);
        if next.start_delay_secs != first.start_delay_secs {
            other_delay = true;
        }
        if next.request.payload() != first.request.payload() {
            other_payload = true;
        }
    }
    assert!(other_delay);
    assert!(other_payload);
}

#[test]
fn the_very_item_after_the_work_time_is_faithful() {
    assert!(reply_is_faithful(2, 5, &WorkItem::new(2, 5), 5));
    assert!(reply_is_faithful(2, 5, &WorkItem::new(2, 5), 6));
    assert!(reply_is_faithful(2, 0, &WorkItem::new(2, 0), 0));
}

#[test]
fn a_reply_that_came_too_soon_is_not_faithful() {
    assert!(!reply_is_faithful(2, 5, &WorkItem::new(2, 5), 4));
    assert!(!reply_is_faithful(2, 5, &WorkItem::new(2, 5), 0));
}

#[test]
fn another_item_is_not_faithful() {
    assert!(!reply_is_faithful(2, 5, &WorkItem::new(2, 6), 5));
    assert!(!reply_is_faithful(2, 5, &WorkItem::new(3, 5), 5));
    assert!(!reply_is_faithful(2, 5, &WorkItem::new(3, 6), 9));
}

#[test]
fn stopwatch_returns_what_the_closure_yields() {
    let (data, elapsed) = stopwatch(|| WorkItem::new(4, 2));
    assert_eq!(data, WorkItem::new(4, 2));
    assert!(elapsed.as_secs() < 10);
}

#[test]
fn stopwatch_times_a_receive() {
    let (tx, rx) = std::sync::mpsc::channel();
    assert_eq!(tx.send(WorkItem::new(1, 3)), Ok(()));
    let (data, elapsed) = stopwatch(|| match rx.recv() {
        Ok(item) => item,
        Err(error) => panic!("the reply channel was closed: {:?}", error),
    });
    assert_eq!(data, WorkItem::new(1, 3));
    assert!(elapsed.as_secs() < 10);
}
