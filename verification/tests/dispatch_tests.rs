use dispatcher::dispatch::Action;
use dispatcher::dispatch::DispatchLoop;
use dispatcher::dispatch::LoopState;
use dispatcher::error::DispatchError;
use dispatcher::registry::ReplyRegistry;
use dispatcher::work_item::WorkItem;

fn session(callers: Vec<(i32, u32)>) -> DispatchLoop<u32> {
    match ReplyRegistry::from_callers(callers) {
        Ok(registry) => DispatchLoop::new(registry),
        Err(error) => panic!("the session could not be built: {:?}", error),
    }
}

#[test]
fn new_loop_is_idle_and_holds_the_registry() {
    let dispatcher = session(vec![(0, 100), (1, 101)]);
    assert_eq!(dispatcher.state(), LoopState::Idle);
    assert_eq!(dispatcher.pending_callers(), 2);
    assert!(dispatcher.is_pending(0));
    assert!(dispatcher.is_pending(1));
    assert!(!dispatcher.is_pending(2));
}

#[test]
fn item_of_a_registered_caller_is_submitted() {
    let mut dispatcher = session(vec![(0, 100), (1, 101)]);
    let action = dispatcher.receive(Some(WorkItem::new(1, 6)));
    assert_eq!(action, Action::Submit { item: WorkItem::new(1, 6), reply_to: 101 });
    assert_eq!(dispatcher.state(), LoopState::Dispatching);
    assert!(!dispatcher.is_pending(1));
    assert!(dispatcher.is_pending(0));
    assert_eq!(dispatcher.pending_callers(), 1);
}

#[test]
fn submitted_returns_the_loop_to_idle() {
    let mut dispatcher = session(vec![(0, 100)]);
    let _ = dispatcher.receive(Some(WorkItem::new(0, 1)));
    assert_eq!(dispatcher.state(), LoopState::Dispatching);
    dispatcher.submitted();
    assert_eq!(dispatcher.state(), LoopState::Idle);
    assert_eq!(dispatcher.pending_callers(), 0);
}

#[test]
fn item_of_an_unknown_caller_is_rejected_and_the_loop_goes_on() {
    let mut dispatcher = session(vec![(0, 100)]);
    let action = dispatcher.receive(Some(WorkItem::new(9, 2)));
    assert_eq!(
        action,
        Action::Reject {
            item: WorkItem::new(9, 2),
            error: DispatchError::UnknownCaller { caller_id: 9 },
        }
    );
    assert_eq!(dispatcher.state(), LoopState::Idle);
    assert_eq!(dispatcher.pending_callers(), 1);
    let next = dispatcher.receive(Some(WorkItem::new(0, 3)));
    assert_eq!(next, Action::Submit { item: WorkItem::new(0, 3), reply_to: 100 });
}

#[test]
fn second_request_of_a_caller_is_rejected_and_others_are_served() {
    let mut dispatcher = session(vec![(0, 100), (1, 101)]);
    let first = dispatcher.receive(Some(WorkItem::new(0, 4)));
    assert_eq!(first, Action::Submit { item: WorkItem::new(0, 4), reply_to: 100 });
    dispatcher.submitted();
    let second = dispatcher.receive(Some(WorkItem::new(0, 5)));
    assert_eq!(
        second,
        Action::Reject {
            item: WorkItem::new(0, 5),
            error: DispatchError::UnknownCaller { caller_id: 0 },
        }
    );
    assert_eq!(dispatcher.state(), LoopState::Idle);
    let other = dispatcher.receive(Some(WorkItem::new(1, 6)));
    assert_eq!(other, Action::Submit { item: WorkItem::new(1, 6), reply_to: 101 });
}

#[test]
fn closed_queue_terminates_an_idle_loop() {
    let mut dispatcher = session(vec![(0, 100), (1, 101)]);
    let action = dispatcher.receive(None);
    assert_eq!(action, Action::Terminate);
    assert_eq!(dispatcher.state(), LoopState::Terminated);
    assert_eq!(dispatcher.pending_callers(), 2);
    assert!(dispatcher.is_pending(0));
    assert!(dispatcher.is_pending(1));
}

#[test]
fn closed_queue_terminates_a_loop_without_callers() {
    let mut dispatcher = session(vec![]);
    assert_eq!(dispatcher.receive(None), Action::Terminate);
    assert_eq!(dispatcher.state(), LoopState::Terminated);
}

#[test]
fn run_over_nothing_only_terminates() {
    let mut dispatcher = session(vec![(0, 100)]);
    let actions = dispatcher.run(vec![]);
    assert_eq!(actions, vec![Action::Terminate]);
    assert_eq!(dispatcher.state(), LoopState::Terminated);
    assert_eq!(dispatcher.pending_callers(), 1);
}

#[test]
fn run_submits_distinct_callers_in_arrival_order() {
    let mut dispatcher = session(vec![(0, 100), (1, 101), (2, 102), (3, 103)]);
    let actions = dispatcher.run(vec![
        WorkItem::new(2, 9),
        WorkItem::new(0, 1),
        WorkItem::new(3, 5),
        WorkItem::new(1, 5),
    ]);
    assert_eq!(
        actions,
        vec![
            Action::Submit { item: WorkItem::new(2, 9), reply_to: 102 },
            Action::Submit { item: WorkItem::new(0, 1), reply_to: 100 },
            Action::Submit { item: WorkItem::new(3, 5), reply_to: 103 },
            Action::Submit { item: WorkItem::new(1, 5), reply_to: 101 },
            Action::Terminate,
        ]
    );
    assert_eq!(dispatcher.state(), LoopState::Terminated);
    assert_eq!(dispatcher.pending_callers(), 0);
}

#[test]
fn run_rejects_repeats_and_strangers_and_serves_the_rest() {
    let mut dispatcher = session(vec![(0, 100), (1, 101), (2, 102)]);
    let actions = dispatcher.run(vec![
        WorkItem::new(1, 3),
        WorkItem::new(7, 2),
        WorkItem::new(1, 4),
        WorkItem::new(0, 8),
    ]);
    assert_eq!(
        actions,
        vec![
            Action::Submit { item: WorkItem::new(1, 3), reply_to: 101 },
            Action::Reject {
                item: WorkItem::new(7, 2),
                error: DispatchError::UnknownCaller { caller_id: 7 },
            },
            Action::Reject {
                item: WorkItem::new(1, 4),
                error: DispatchError::UnknownCaller { caller_id: 1 },
            },
            Action::Submit { item: WorkItem::new(0, 8), reply_to: 100 },
            Action::Terminate,
        ]
    );
    assert_eq!(dispatcher.pending_callers(), 1);
    assert!(dispatcher.is_pending(2));
    assert!(!dispatcher.is_pending(0));
    assert!(!dispatcher.is_pending(1));
}

#[test]
fn run_without_the_repeat_gives_the_same_actions_for_the_others() {
    let mut with_repeat = session(vec![(0, 100), (1, 101)]);
    let mut without = session(vec![(0, 100), (1, 101)]);
    let mut long = with_repeat.run(vec![
        WorkItem::new(0, 1),
        WorkItem::new(0, 2),
        WorkItem::new(1, 3),
    ]);
    let short = without.run(vec![WorkItem::new(0, 1), WorkItem::new(1, 3)]);
    let rejected = long.remove(1);
    assert_eq!(
        rejected,
        Action::Reject {
            item: WorkItem::new(0, 2),
            error: DispatchError::UnknownCaller { caller_id: 0 },
        }
    );
    assert_eq!(long, short);
    assert_eq!(with_repeat.pending_callers(), without.pending_callers());
}

#[test]
fn more_requests_than_workers_are_all_submitted_in_arrival_order() {
    let callers: Vec<(i32, u32)> = (0..10).map(|id: i32| (id, 100 + id as u32)).collect();
    let mut dispatcher = session(callers);
    let order: Vec<i32> = vec![9, 3, 0, 7, 1, 8, 2, 6, 4, 5];
    let inbound: Vec<WorkItem> = order.iter().map(|id| WorkItem::new(*id, 1)).collect();
    let actions = dispatcher.run(inbound);
    assert_eq!(actions.len(), 11);
    for (place, id) in order.iter().enumerate() {
        assert_eq!(
            actions[place],
            Action::Submit { item: WorkItem::new(*id, 1), reply_to: 100 + *id as u32 }
        );
    }
    assert_eq!(actions[10], Action::Terminate);
    assert_eq!(dispatcher.pending_callers(), 0);
}
