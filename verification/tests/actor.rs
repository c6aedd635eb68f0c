use record_store::actor::{choose_lane, db_open, Delivery, Service};
use record_store::execute::{execute, Operation, Query};
use record_store::record::{Record, StoreError};
use record_store::transport::{Channels, Lane, SelectRequest, WriteRequest};

fn write(key: &str, value: i64) -> Operation {
    Operation::Write(Record::new(key, value))
}

fn read(key: &str) -> Operation {
    Operation::Read(Query::Key(key.to_string()))
}

#[test]
fn lanes_take_turns_while_both_hold_messages() {
    assert_eq!(choose_lane(2, 3, Lane::Read), Some(Lane::Write));
    assert_eq!(choose_lane(2, 3, Lane::Write), Some(Lane::Read));
    assert_eq!(choose_lane(1, 1, Lane::Write), Some(Lane::Read));
}

#[test]
fn the_only_lane_with_messages_is_served() {
    assert_eq!(choose_lane(4, 0, Lane::Read), Some(Lane::Read));
    assert_eq!(choose_lane(4, 0, Lane::Write), Some(Lane::Read));
    assert_eq!(choose_lane(0, 1, Lane::Read), Some(Lane::Write));
    assert_eq!(choose_lane(0, 1, Lane::Write), Some(Lane::Write));
}

#[test]
fn no_lane_is_served_when_both_are_empty() {
    assert_eq!(choose_lane(0, 0, Lane::Read), None);
    assert_eq!(choose_lane(0, 0, Lane::Write), None);
}

#[test]
fn opposite_lane_flips() {
    assert_eq!(Lane::Read.opposite(), Lane::Write);
    assert_eq!(Lane::Write.opposite(), Lane::Read);
}

#[test]
fn operations_travel_on_the_lane_of_their_kind() {
    assert_eq!(write("a", 1).lane(), Lane::Write);
    assert_eq!(read("a").lane(), Lane::Read);
    assert_eq!(Operation::Read(Query::All).lane(), Lane::Read);
}

#[test]
fn execute_enqueues_one_message_on_one_queue() {
    let mut channels = Channels::new();
    assert_eq!(execute(read("a"), 1, &mut channels), Lane::Read);
    assert_eq!((channels.reads_waiting(), channels.writes_waiting()), (1, 0));
    assert_eq!(execute(write("a", 1), 2, &mut channels), Lane::Write);
    assert_eq!((channels.reads_waiting(), channels.writes_waiting()), (1, 1));
    assert_eq!(execute(write("b", 2), 3, &mut channels), Lane::Write);
    assert_eq!((channels.reads_waiting(), channels.writes_waiting()), (1, 2));
}

#[test]
fn each_queue_is_first_in_first_out() {
    let mut channels = Channels::new();
    channels.send_write(WriteRequest { record: Record::new("a", 1), reply_to: 10 });
    channels.send_select(SelectRequest { query: Query::All, reply_to: 20 });
    channels.send_write(WriteRequest { record: Record::new("b", 2), reply_to: 11 });
    channels.send_select(SelectRequest { query: Query::Key("a".to_string()), reply_to: 21 });
    assert_eq!(
        channels.recv_write(),
        Some(WriteRequest { record: Record::new("a", 1), reply_to: 10 })
    );
    assert_eq!(
        channels.recv_write(),
        Some(WriteRequest { record: Record::new("b", 2), reply_to: 11 })
    );
    assert_eq!(channels.recv_write(), None);
    assert_eq!(channels.recv_select(), Some(SelectRequest { query: Query::All, reply_to: 20 }));
    assert_eq!(
        channels.recv_select(),
        Some(SelectRequest { query: Query::Key("a".to_string()), reply_to: 21 })
    );
    assert_eq!(channels.recv_select(), None);
}

#[test]
fn fresh_actor_runs_over_an_empty_store() {
    let mut actor = db_open();
    assert!(actor.is_running());
    assert_eq!(actor.record_count(), 0);
    assert_eq!(actor.apply(Operation::Read(Query::All)), Ok(Some(Vec::new())));
}

#[test]
fn write_is_acknowledged_and_read_sees_it() {
    let mut actor = db_open();
    assert_eq!(actor.apply(write("x", 1)), Ok(None));
    assert_eq!(actor.apply(read("x")), Ok(Some(vec![Record::new("x", 1)])));
    assert_eq!(actor.record_count(), 1);
}

#[test]
fn back_to_back_writes_are_all_seen_in_order() {
    let mut actor = db_open();
    for (key, value) in [("a", 1), ("b", 2), ("a", 3), ("c", 4), ("b", 5)] {
        assert_eq!(actor.apply(write(key, value)), Ok(None));
    }
    assert_eq!(actor.apply(read("a")), Ok(Some(vec![Record::new("a", 3)])));
    assert_eq!(actor.apply(read("b")), Ok(Some(vec![Record::new("b", 5)])));
    assert_eq!(actor.apply(read("c")), Ok(Some(vec![Record::new("c", 4)])));
    assert_eq!(
        actor.apply(Operation::Read(Query::All)),
        Ok(Some(vec![Record::new("a", 3), Record::new("b", 5), Record::new("c", 4)]))
    );
}

#[test]
fn rejected_write_reports_and_changes_nothing() {
    let mut actor = db_open();
    actor.apply(write("a", 1)).unwrap();
    assert_eq!(actor.apply(write("", 2)), Err(StoreError::EmptyKey));
    assert!(actor.is_running());
    assert_eq!(actor.apply(Operation::Read(Query::All)), Ok(Some(vec![Record::new("a", 1)])));
}

#[test]
fn reads_in_any_order_get_the_same_answers() {
    let mut first = db_open();
    let mut second = db_open();
    for actor in [&mut first, &mut second] {
        actor.apply(write("a", 1)).unwrap();
        actor.apply(write("b", 2)).unwrap();
    }
    let a1 = first.apply(read("a"));
    let all1 = first.apply(Operation::Read(Query::All));
    let b1 = first.apply(read("b"));
    let b2 = second.apply(read("b"));
    let a2 = second.apply(read("a"));
    let all2 = second.apply(Operation::Read(Query::All));
    assert_eq!(a1, a2);
    assert_eq!(b1, b2);
    assert_eq!(all1, all2);
    assert_eq!(first.apply(Operation::Read(Query::All)), all1);
}

#[test]
fn same_write_twice_leaves_what_one_write_leaves() {
    let mut once = db_open();
    let mut twice = db_open();
    for actor in [&mut once, &mut twice] {
        actor.apply(write("a", 1)).unwrap();
        actor.apply(write("k", 0)).unwrap();
    }
    assert_eq!(once.apply(write("k", 7)), Ok(None));
    assert_eq!(twice.apply(write("k", 7)), Ok(None));
    assert_eq!(twice.apply(write("k", 7)), Ok(None));
    assert_eq!(
        once.apply(Operation::Read(Query::All)),
        twice.apply(Operation::Read(Query::All))
    );
}

#[test]
fn closed_actor_applies_nothing() {
    let mut actor = db_open();
    actor.apply(write("a", 1)).unwrap();
    actor.shutdown();
    assert!(!actor.is_running());
    assert_eq!(actor.apply(write("b", 2)), Err(StoreError::Closed));
    assert_eq!(actor.apply(read("a")), Err(StoreError::Closed));
    assert_eq!(actor.record_count(), 1);
}

#[test]
fn serve_alternates_between_the_queues() {
    let mut actor = db_open();
    let mut channels = Channels::new();
    execute(write("a", 1), 1, &mut channels);
    execute(write("b", 2), 2, &mut channels);
    execute(read("a"), 3, &mut channels);
    execute(read("b"), 4, &mut channels);
    let mut order = Vec::new();
    while let Service::Delivered(delivery) = actor.serve(&mut channels, true) {
        order.push(delivery);
    }
    assert_eq!(
        order,
        vec![
            Delivery { reply_to: 3, outcome: Ok(Some(vec![])) },
            Delivery { reply_to: 1, outcome: Ok(None) },
            Delivery { reply_to: 4, outcome: Ok(Some(vec![])) },
            Delivery { reply_to: 2, outcome: Ok(None) },
        ]
    );
}

#[test]
fn serve_finishes_the_longer_queue_alone() {
    let mut actor = db_open();
    let mut channels = Channels::new();
    execute(read("a"), 9, &mut channels);
    for (id, key) in [(1, "a"), (2, "b"), (3, "c")] {
        execute(write(key, id as i64), id, &mut channels);
    }
    let served: Vec<u64> = actor.drain(&mut channels).iter().map(|d| d.reply_to).collect();
    assert_eq!(served, vec![9, 1, 2, 3]);
    assert_eq!((channels.reads_waiting(), channels.writes_waiting()), (0, 0));
    assert_eq!(actor.record_count(), 3);
}

#[test]
fn turn_order_carries_over_between_serves() {
    let mut actor = db_open();
    let mut channels = Channels::new();
    execute(read("a"), 1, &mut channels);
    assert!(matches!(actor.serve(&mut channels, true), Service::Delivered(_)));
    execute(read("a"), 2, &mut channels);
    execute(write("a", 1), 3, &mut channels);
    let served: Vec<u64> = actor.drain(&mut channels).iter().map(|d| d.reply_to).collect();
    assert_eq!(served, vec![3, 2]);
}

#[test]
fn idle_while_senders_live_closed_when_they_are_gone() {
    let mut actor = db_open();
    let mut channels = Channels::new();
    assert_eq!(actor.serve(&mut channels, true), Service::Idle);
    assert!(actor.is_running());
    execute(write("a", 1), 1, &mut channels);
    assert_eq!(
        actor.serve(&mut channels, false),
        Service::Delivered(Delivery { reply_to: 1, outcome: Ok(None) })
    );
    assert!(actor.is_running());
    assert_eq!(actor.serve(&mut channels, false), Service::Closed);
    assert!(!actor.is_running());
    assert_eq!(actor.serve(&mut channels, true), Service::Closed);
}

#[test]
fn closed_actor_leaves_the_queues_alone() {
    let mut actor = db_open();
    let mut channels = Channels::new();
    actor.shutdown();
    execute(write("a", 1), 1, &mut channels);
    execute(read("a"), 2, &mut channels);
    assert_eq!(actor.drain(&mut channels), Vec::<Delivery>::new());
    assert_eq!((channels.reads_waiting(), channels.writes_waiting()), (1, 1));
}

#[test]
fn drain_answers_each_caller_with_its_own_result() {
    let mut actor = db_open();
    let mut channels = Channels::new();
    execute(write("a", 1), 100, &mut channels);
    actor.drain(&mut channels);
    execute(read("a"), 7, &mut channels);
    execute(read("zz"), 8, &mut channels);
    execute(write("", 0), 9, &mut channels);
    let deliveries = actor.drain(&mut channels);
    assert_eq!(
        deliveries,
        vec![
            Delivery { reply_to: 7, outcome: Ok(Some(vec![Record::new("a", 1)])) },
            Delivery { reply_to: 9, outcome: Err(StoreError::EmptyKey) },
            Delivery { reply_to: 8, outcome: Ok(Some(vec![])) },
        ]
    );
}
