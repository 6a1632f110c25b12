use outbox::dispatch::{resolution, transfer_command, Dispatcher, Outcome, SpoolAction};
use outbox::intake::{
    accept_mail, listener_plan, serve, IntakeError, ListenerPlan, BODY_SIZE_LIMIT,
};
use outbox::ipc::{bus_scope, describe, queue, BusScope};
use outbox::message::{message_state, MessageState};
use outbox::recovery::recover;
use outbox::shutdown::{may_exit, shut_down, Coordinator};
use outbox::spool::{Spool, SpoolError};

fn ten_bytes() -> Vec<u8> {
    vec![b'S', b'u', b'b', b'j', b'e', b'c', b't', b':', b' ', b'x']
}

fn submit(spool: &mut Spool, dispatcher: &mut Dispatcher, payload: Vec<u8>) -> String {
    let before = spool.list_pending();
    let reply = serve(spool, dispatcher, "POST", "/queue", &vec![payload]).unwrap();
    assert_eq!(reply.status, 200);
    assert_eq!(reply.body, "queued");
    let after = spool.list_pending();
    assert_eq!(after.len(), before.len() + 1);
    let name = after.last().unwrap().clone();
    assert!(!before.contains(&name));
    name
}

#[test]
fn submitted_payload_is_spooled_then_removed_on_exit_zero() {
    let mut spool = Spool::new();
    let mut dispatcher = Dispatcher::new();
    let name = submit(&mut spool, &mut dispatcher, ten_bytes());
    assert_eq!(spool.read_pending(&name), Some(ten_bytes()));
    assert_eq!(dispatcher.waiting(), 1);

    let pulled = dispatcher.start_next().unwrap();
    assert_eq!(pulled, name);
    let command = transfer_command(None, &vec![], &pulled);
    assert_eq!(command.input, format!("pending/{name}"));
    let action = dispatcher.finish(Outcome::Exited(0)).unwrap();
    assert_eq!(action, SpoolAction::Remove { name: name.clone() });
    assert_eq!(action.apply(&mut spool), Ok(()));

    assert_eq!(spool.read_pending(&name), None);
    assert_eq!(spool.read_failed(&name), None);
    assert!(spool.list_pending().is_empty());
    assert!(spool.list_failed().is_empty());
    assert!(dispatcher.at_rest());
}

#[test]
fn submitted_payload_is_moved_to_failed_on_exit_one() {
    let mut spool = Spool::new();
    let mut dispatcher = Dispatcher::new();
    let name = submit(&mut spool, &mut dispatcher, ten_bytes());

    let pulled = dispatcher.start_next().unwrap();
    let action = dispatcher.finish(Outcome::Exited(1)).unwrap();
    assert_eq!(action, SpoolAction::Quarantine { name: pulled.clone() });
    assert_eq!(action.source(), format!("pending/{name}"));
    assert_eq!(action.target(), Some(format!("failed/{name}")));
    assert_eq!(action.apply(&mut spool), Ok(()));

    assert_eq!(spool.read_pending(&name), None);
    assert_eq!(spool.read_failed(&name), Some(ten_bytes()));
    assert_eq!(spool.list_failed(), vec![name]);
    assert!(spool.list_pending().is_empty());
}

#[test]
fn accepted_submission_adds_exactly_one_pending_file() {
    let mut spool = Spool::new();
    let mut dispatcher = Dispatcher::new();
    let first = submit(&mut spool, &mut dispatcher, vec![1, 2, 3]);
    let second = submit(&mut spool, &mut dispatcher, vec![4, 5]);
    assert_ne!(first, second);
    assert_eq!(spool.list_pending(), vec![first.clone(), second.clone()]);
    assert_eq!(spool.read_pending(&first), Some(vec![1, 2, 3]));
    assert_eq!(spool.read_pending(&second), Some(vec![4, 5]));
    assert_eq!(dispatcher.waiting(), 2);
    assert_eq!(dispatcher.start_next(), Some(first));
}

#[test]
fn empty_payload_is_accepted() {
    let mut spool = Spool::new();
    let mut dispatcher = Dispatcher::new();
    let reply = accept_mail(&mut spool, &mut dispatcher, &vec![]).unwrap();
    assert_eq!(reply.status, 200);
    let names = spool.list_pending();
    assert_eq!(names.len(), 1);
    assert_eq!(spool.read_pending(&names[0]), Some(vec![]));
}

#[test]
fn oversized_submission_is_rejected_and_leaves_no_file() {
    let mut spool = Spool::new();
    let mut dispatcher = Dispatcher::new();
    let chunks = vec![vec![7u8; BODY_SIZE_LIMIT], vec![7u8]];
    let reply = serve(&mut spool, &mut dispatcher, "POST", "/queue", &chunks);
    assert_eq!(reply, Err(IntakeError::TooLarge));
    assert!(spool.list_pending().is_empty());
    assert!(spool.list_failed().is_empty());
    assert_eq!(dispatcher.waiting(), 0);
}

#[test]
fn payload_of_exactly_the_limit_is_accepted() {
    let mut spool = Spool::new();
    let mut dispatcher = Dispatcher::new();
    let chunks = vec![vec![1u8; 100 * 1024 - 1], vec![2u8]];
    let reply = serve(&mut spool, &mut dispatcher, "POST", "/queue", &chunks).unwrap();
    assert_eq!(reply.status, 200);
    let names = spool.list_pending();
    let stored = spool.read_pending(&names[0]).unwrap();
    assert_eq!(stored.len(), 102400);
    assert_eq!(stored[102398], 1);
    assert_eq!(stored[102399], 2);
}

#[test]
fn other_routes_are_not_found_and_change_nothing() {
    let mut spool = Spool::new();
    let mut dispatcher = Dispatcher::new();
    for (method, path) in [("GET", "/queue"), ("POST", "/"), ("POST", "/queue/"), ("post", "/queue")] {
        let reply = serve(&mut spool, &mut dispatcher, method, path, &vec![vec![1]]).unwrap();
        assert_eq!(reply.status, 404);
        assert_eq!(reply.body, "not found");
    }
    assert!(spool.list_pending().is_empty());
    assert_eq!(dispatcher.waiting(), 0);
}

#[test]
fn restart_dispatches_every_pending_file() {
    let mut spool = Spool::new();
    for i in 0..5u8 {
        spool.write(vec![i]).unwrap();
    }
    let names = spool.list_pending();
    let mut dispatcher = Dispatcher::new();
    recover(&spool, &mut dispatcher);
    assert_eq!(dispatcher.waiting(), 5);
    let mut attempt = 0;
    while let Some(name) = dispatcher.start_next() {
        assert!(dispatcher.busy());
        assert_eq!(dispatcher.start_next(), None);
        let outcome = if attempt % 2 == 0 { Outcome::Exited(0) } else { Outcome::Exited(75) };
        let action = dispatcher.finish(outcome).unwrap();
        assert_eq!(action, resolution(name, outcome));
        action.apply(&mut spool).unwrap();
        attempt += 1;
    }
    assert_eq!(attempt, 5);
    assert!(spool.list_pending().is_empty());
    assert_eq!(spool.list_failed(), vec![names[1].clone(), names[3].clone()]);
    assert_eq!(spool.read_failed(&names[1]), Some(vec![1]));
    assert_eq!(spool.read_failed(&names[3]), Some(vec![3]));
    assert_eq!(spool.read_failed(&names[0]), None);
}

#[test]
fn failed_messages_are_never_picked_up_again() {
    let mut spool = Spool::new();
    let mut dispatcher = Dispatcher::new();
    let name = spool.write(vec![9, 9]).unwrap();
    spool.mark_failed(&name).unwrap();

    recover(&spool, &mut dispatcher);
    assert_eq!(dispatcher.waiting(), 0);
    assert_eq!(dispatcher.start_next(), None);

    let other = submit(&mut spool, &mut dispatcher, vec![1]);
    dispatcher.start_next().unwrap();
    dispatcher.finish(Outcome::Exited(0)).unwrap().apply(&mut spool).unwrap();
    assert_eq!(spool.read_failed(&name), Some(vec![9, 9]));
    assert_eq!(spool.read_pending(&name), None);
    assert_eq!(spool.read_pending(&other), None);
}

#[test]
fn a_message_is_queued_then_in_flight_then_delivered() {
    let mut spool = Spool::new();
    let mut dispatcher = Dispatcher::new();
    let name = submit(&mut spool, &mut dispatcher, ten_bytes());
    assert_eq!(message_state(&spool, &dispatcher, &name), MessageState::Queued);
    dispatcher.start_next().unwrap();
    assert!(dispatcher.is_in_flight(&name));
    assert_eq!(message_state(&spool, &dispatcher, &name), MessageState::InFlight);
    dispatcher.finish(Outcome::Exited(0)).unwrap().apply(&mut spool).unwrap();
    assert!(!dispatcher.is_in_flight(&name));
    assert_eq!(message_state(&spool, &dispatcher, &name), MessageState::Delivered);
}

#[test]
fn a_message_whose_command_did_not_run_is_failed() {
    let mut spool = Spool::new();
    let mut dispatcher = Dispatcher::new();
    let first = submit(&mut spool, &mut dispatcher, vec![1]);
    let second = submit(&mut spool, &mut dispatcher, vec![2]);
    dispatcher.start_next().unwrap();
    assert_eq!(message_state(&spool, &dispatcher, &second), MessageState::Queued);
    dispatcher.finish(Outcome::NotStarted).unwrap().apply(&mut spool).unwrap();
    assert_eq!(message_state(&spool, &dispatcher, &first), MessageState::Failed);
    assert!(spool.is_failed(&first));
    assert!(!spool.is_pending(&first));
    assert!(spool.is_pending(&second));
    dispatcher.start_next().unwrap();
    dispatcher.finish(Outcome::Killed).unwrap().apply(&mut spool).unwrap();
    assert_eq!(message_state(&spool, &dispatcher, &first), MessageState::Failed);
    assert_eq!(message_state(&spool, &dispatcher, &second), MessageState::Failed);
}

#[test]
fn a_call_of_the_endpoint_spools_and_announces() {
    let mut spool = Spool::new();
    let mut dispatcher = Dispatcher::new();
    assert_eq!(queue(&mut spool, &mut dispatcher, ten_bytes()), Ok(()));
    let names = spool.list_pending();
    assert_eq!(names.len(), 1);
    assert_eq!(spool.read_pending(&names[0]), Some(ten_bytes()));
    assert_eq!(dispatcher.start_next(), Some(names[0].clone()));
}

#[test]
fn the_bus_is_chosen_by_name() {
    assert_eq!(bus_scope(None), Some(BusScope::System));
    assert_eq!(bus_scope(Some("system")), Some(BusScope::System));
    assert_eq!(bus_scope(Some("session")), Some(BusScope::Session));
    assert_eq!(bus_scope(Some("Session")), None);
    assert_eq!(bus_scope(Some("")), None);
}

#[test]
fn spool_errors_are_described() {
    assert_eq!(describe(SpoolError::Collision), "spool file exists");
    assert_eq!(describe(SpoolError::Missing), "spool file is missing");
}

#[test]
fn the_socket_is_inherited_where_one_was_given() {
    assert_eq!(listener_plan(true), ListenerPlan::Inherited);
    assert_eq!(listener_plan(false), ListenerPlan::Bind { path: "outbox.sock".to_string() });
}

#[test]
fn after_cancellation_no_request_enters_and_those_inside_finish() {
    let mut coordinator = Coordinator::new();
    let mut dispatcher = Dispatcher::new();
    assert!(coordinator.enter());
    assert!(coordinator.enter());
    assert!(!coordinator.drained());
    dispatcher.notify("a".to_string());
    dispatcher.start_next().unwrap();
    shut_down(&mut coordinator, &mut dispatcher);
    assert!(coordinator.is_cancelled());
    assert!(dispatcher.is_stopped());
    assert!(!coordinator.enter());
    assert!(!may_exit(&coordinator, &dispatcher));
    coordinator.release();
    coordinator.release();
    assert!(coordinator.drained());
    assert!(!may_exit(&coordinator, &dispatcher));
    dispatcher.finish(Outcome::Exited(0)).unwrap();
    assert!(may_exit(&coordinator, &dispatcher));
    coordinator.release();
    assert!(coordinator.drained());
}

#[test]
fn before_cancellation_the_daemon_does_not_exit() {
    let mut coordinator = Coordinator::new();
    let dispatcher = Dispatcher::new();
    assert!(!coordinator.is_cancelled());
    assert!(!coordinator.drained());
    assert!(!may_exit(&coordinator, &dispatcher));
    coordinator.cancel();
    assert!(may_exit(&coordinator, &dispatcher));
}

#[test]
fn a_write_on_an_empty_spool_succeeds() {
    for _ in 0..50 {
        let mut spool = Spool::new();
        let name = spool.write(ten_bytes()).unwrap();
        assert_eq!(spool.list_pending(), vec![name.clone()]);
        assert_eq!(spool.read_pending(&name), Some(ten_bytes()));
    }
}

#[test]
fn a_write_beside_files_of_other_names_succeeds() {
    let mut spool = Spool::new();
    spool.write_named("note.txt".to_string(), vec![1]).unwrap();
    spool.write_named("_draft.eml".to_string(), vec![2]).unwrap();
    let name = spool.write(vec![3]).unwrap();
    assert_eq!(spool.list_pending().len(), 3);
    assert_eq!(spool.read_pending(&name), Some(vec![3]));
    assert_eq!(spool.read_pending("note.txt"), Some(vec![1]));
}
