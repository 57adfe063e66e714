use wadm::claims::{claim_from_raw, claims_from_raw, lookup, split_commas};
use wadm::events::{derive_command, Command, Event, DERIVED_COUNT};
use wadm::manager::{dispatch_step, ConsumerManager, DecodeError, Registration};
use wadm::message::{AckState, AlreadyFinalizedError, BrokerAction, ScopedMessage};
use wadm::pool::PermitPool;
use wadm::publisher::{
    first_failure, ok_payloads, CommandPublisher, PublishError, Publisher, SerializeError,
};

use std::cell::RefCell;

struct Recorder {
    sent: RefCell<Vec<(Vec<u8>, Option<String>)>>,
    fail_on: Option<Vec<u8>>,
}

impl Recorder {
    fn new(fail_on: Option<Vec<u8>>) -> Recorder {
        Recorder { sent: RefCell::new(Vec::new()), fail_on }
    }
}

impl Publisher for Recorder {
    fn publish(&self, data: Vec<u8>, destination: Option<&str>) -> Result<(), PublishError> {
        self.sent.borrow_mut().push((data.clone(), destination.map(|d| d.to_owned())));
        if self.fail_on.as_ref() == Some(&data) {
            Err(PublishError { reason: "refused".to_owned() })
        } else {
            Ok(())
        }
    }
}

fn pair(k: &str, v: &str) -> (String, String) {
    (k.to_owned(), v.to_owned())
}

#[test]
fn pool_capacity_two_blocks_third_until_release() {
    let mut pool = PermitPool::new(1, 2);
    let a = pool.try_acquire();
    let b = pool.try_acquire();
    assert!(a.is_some());
    assert!(b.is_some());
    assert!(pool.try_acquire().is_none());
    assert_eq!(pool.in_use(), 2);
    assert_eq!(pool.available(), 0);
    pool.release(a.unwrap());
    assert_eq!(pool.in_use(), 1);
    let c = pool.try_acquire();
    assert!(c.is_some());
    assert!(pool.try_acquire().is_none());
    assert_eq!(pool.capacity(), 2);
}

#[test]
fn pool_never_exceeds_capacity_over_many_dispatches() {
    let mut pool = PermitPool::new(1, 3);
    let mut held = Vec::new();
    for _ in 0..10 {
        if let Some(p) = pool.try_acquire() {
            held.push(p);
        }
        assert!(pool.in_use() <= 3);
    }
    assert_eq!(held.len(), 3);
    while let Some(p) = held.pop() {
        pool.release(p);
    }
    assert_eq!(pool.in_use(), 0);
}

#[test]
fn zero_capacity_pool_never_grants() {
    let mut pool = PermitPool::new(1, 0);
    assert!(pool.try_acquire().is_none());
    assert_eq!(pool.in_use(), 0);
}

#[test]
fn permit_released_once_on_every_path() {
    for path in 0..4 {
        let mut pool = PermitPool::new(1, 1);
        let permit = pool.try_acquire().unwrap();
        let mut msg = ScopedMessage::new(7u32, permit);
        match path {
            0 => assert_eq!(msg.ack(), Ok(BrokerAction::Ack)),
            1 => assert_eq!(msg.nack(), Ok(BrokerAction::Nack)),
            2 => assert_eq!(msg.term(), Ok(BrokerAction::Term)),
            _ => {}
        }
        assert_eq!(pool.in_use(), 1);
        let state = msg.finish(&mut pool);
        assert_eq!(pool.in_use(), 0);
        let expected = [AckState::Acked, AckState::Nacked, AckState::Terminated, AckState::Pending];
        assert_eq!(state, expected[path]);
    }
}

#[test]
fn second_ack_is_refused_without_action() {
    let mut pool = PermitPool::new(1, 1);
    let mut msg = ScopedMessage::new("payload".to_owned(), pool.try_acquire().unwrap());
    assert_eq!(msg.ack(), Ok(BrokerAction::Ack));
    assert_eq!(msg.ack(), Err(AlreadyFinalizedError { state: AckState::Acked }));
    assert_eq!(msg.state(), AckState::Acked);
    assert_eq!(pool.in_use(), 1);
    assert_eq!(msg.as_ref(), "payload");
    msg.finish(&mut pool);
    assert_eq!(pool.in_use(), 0);
}

#[test]
fn nack_after_ack_fails_and_message_stays_acked() {
    let mut pool = PermitPool::new(1, 1);
    let mut msg = ScopedMessage::new(1u8, pool.try_acquire().unwrap());
    assert!(!msg.is_finalized());
    assert_eq!(msg.ack(), Ok(BrokerAction::Ack));
    assert_eq!(msg.nack(), Err(AlreadyFinalizedError { state: AckState::Acked }));
    assert_eq!(msg.term(), Err(AlreadyFinalizedError { state: AckState::Acked }));
    assert!(msg.is_finalized());
    assert_eq!(msg.finish(&mut pool), AckState::Acked);
}

#[test]
fn unacked_failure_is_abandoned_and_dispatched_again() {
    let mut pool = PermitPool::new(1, 1);
    let first = pool.try_acquire().unwrap();
    let msg = dispatch_step(Ok(42u64), first, &mut pool).unwrap();
    // the worker fails without finalizing the message
    assert_eq!(msg.finish(&mut pool), AckState::Pending);
    assert_eq!(pool.in_use(), 0);
    // the broker redelivers the same message after its ack-wait timeout
    let again = pool.try_acquire().unwrap();
    let mut msg = dispatch_step(Ok(42u64), again, &mut pool).unwrap();
    assert_eq!(*msg.as_ref(), 42);
    assert_eq!(msg.ack(), Ok(BrokerAction::Ack));
    assert_eq!(msg.finish(&mut pool), AckState::Acked);
}

#[test]
fn undecodable_message_releases_its_permit() {
    let mut pool = PermitPool::new(1, 2);
    let permit = pool.try_acquire().unwrap();
    let r: Option<ScopedMessage<u64>> =
        dispatch_step(Err(DecodeError { reason: "bad json".to_owned() }), permit, &mut pool);
    assert!(r.is_none());
    assert_eq!(pool.in_use(), 0);
}

#[test]
fn registering_twice_keeps_one_consumer() {
    let mut m = ConsumerManager::new("wadm_events");
    assert_eq!(m.stream(), "wadm_events");
    assert_eq!(m.add_for_lattice("wasmbus.evt.default"), Registration::Created);
    assert_eq!(m.add_for_lattice("wasmbus.evt.default"), Registration::AlreadyActive);
    assert_eq!(m.len(), 1);
    assert_eq!(m.add_for_lattice("wasmbus.evt.other"), Registration::Created);
    assert_eq!(
        m.subjects(),
        vec!["wasmbus.evt.default".to_owned(), "wasmbus.evt.other".to_owned()]
    );
}

#[test]
fn removing_a_tenant_stops_its_loop() {
    let mut m = ConsumerManager::new("wadm_commands");
    m.add_for_lattice("a");
    m.add_for_lattice("b");
    assert!(m.keep_pulling("a", false));
    assert!(!m.keep_pulling("a", true));
    assert!(m.remove_for_lattice("a"));
    assert!(!m.remove_for_lattice("a"));
    assert!(!m.is_active("a"));
    assert!(!m.keep_pulling("a", false));
    assert!(m.is_active("b"));
    assert_eq!(m.len(), 1);
    assert_eq!(m.add_for_lattice("a"), Registration::Created);
}

#[test]
fn failed_serialization_is_skipped_and_batch_succeeds() {
    let publisher = CommandPublisher::new(Recorder::new(None), "wadm.cmd.default");
    let batch = vec![
        Ok(b"cmdA".to_vec()),
        Err(SerializeError { reason: "bad".to_owned() }),
    ];
    assert!(publisher.publish_commands(batch).is_ok());
    let sent = publisher.publisher().sent.borrow().clone();
    assert_eq!(sent, vec![(b"cmdA".to_vec(), Some("wadm.cmd.default".to_owned()))]);
}

#[test]
fn publish_failure_is_surfaced_after_all_attempts() {
    let publisher = CommandPublisher::new(Recorder::new(Some(b"two".to_vec())), "topic");
    assert_eq!(publisher.topic(), "topic");
    let batch = vec![Ok(b"one".to_vec()), Ok(b"two".to_vec()), Ok(b"three".to_vec())];
    let r = publisher.publish_commands(batch);
    assert_eq!(r.unwrap_err().reason, "refused");
    assert_eq!(publisher.publisher().sent.borrow().len(), 3);
}

#[test]
fn empty_batch_publishes_nothing() {
    let publisher = CommandPublisher::new(Recorder::new(None), "topic");
    assert!(publisher.publish_commands(Vec::new()).is_ok());
    let all_bad = vec![Err(SerializeError { reason: "x".to_owned() })];
    assert!(publisher.publish_commands(all_bad).is_ok());
    assert!(publisher.publisher().sent.borrow().is_empty());
}

#[test]
fn ok_payloads_keeps_order_and_drops_failures() {
    let batch = vec![
        Ok(vec![1u8]),
        Err(SerializeError { reason: "x".to_owned() }),
        Ok(vec![2u8, 3]),
    ];
    assert_eq!(ok_payloads(&batch), vec![vec![1u8], vec![2u8, 3]]);
}

#[test]
fn first_failure_picks_earliest_error() {
    let r = first_failure(vec![
        Ok(()),
        Err(PublishError { reason: "first".to_owned() }),
        Err(PublishError { reason: "second".to_owned() }),
    ]);
    assert_eq!(r.unwrap_err().reason, "first");
    assert!(first_failure(vec![Ok(()), Ok(())]).is_ok());
}

#[test]
fn split_commas_matches_pieces() {
    assert_eq!(split_commas("a,b,c"), vec!["a", "b", "c"]);
    assert_eq!(split_commas(""), vec![""]);
    assert_eq!(split_commas("x,"), vec!["x", ""]);
    assert_eq!(split_commas("wasmcloud:httpserver"), vec!["wasmcloud:httpserver"]);
}

#[test]
fn lookup_finds_value() {
    let entries = vec![pair("sub", "M1"), pair("name", "echo")];
    assert_eq!(lookup(&entries, &"name".to_owned()), Some("echo".to_owned()));
    assert_eq!(lookup(&entries, &"iss".to_owned()), None);
}

#[test]
fn claims_record_is_converted() {
    let entries = vec![
        pair("sub", "MACTOR"),
        pair("name", "echo"),
        pair("caps", "wasmcloud:httpserver,wasmcloud:keyvalue"),
        pair("iss", "AISSUER"),
    ];
    let (id, c) = claim_from_raw(&entries).unwrap();
    assert_eq!(id, "MACTOR");
    assert_eq!(c.name, "echo");
    assert_eq!(c.capabilities, vec!["wasmcloud:httpserver", "wasmcloud:keyvalue"]);
    assert_eq!(c.issuer, "AISSUER");
}

#[test]
fn claims_without_subject_are_skipped_and_missing_fields_default() {
    let raw = vec![
        vec![pair("name", "nosub")],
        vec![pair("sub", "MB")],
    ];
    let out = claims_from_raw(&raw);
    assert_eq!(out.len(), 1);
    assert_eq!(out[0].0, "MB");
    assert_eq!(out[0].1.name, "");
    assert!(out[0].1.capabilities.is_empty());
    assert_eq!(out[0].1.issuer, "");
}

#[test]
fn started_actor_is_started_again_on_host() {
    let e = Event::ActorStarted { image_ref: "wasmcloud.azurecr.io/echo:0.3.4".to_owned() };
    match derive_command(&e, "HOST1") {
        Command::StartActor { reference, host_id, count } => {
            assert_eq!(reference, "wasmcloud.azurecr.io/echo:0.3.4");
            assert_eq!(host_id, "HOST1");
            assert_eq!(count, DERIVED_COUNT);
            assert_eq!(count, 2);
        }
        other => panic!("unexpected {other:?}"),
    }
}

#[test]
fn stopped_provider_and_linkdef_map_to_commands() {
    let e = Event::ProviderStopped {
        contract_id: "wasmcloud:httpserver".to_owned(),
        link_name: "default".to_owned(),
        public_key: "VPROV".to_owned(),
    };
    match derive_command(&e, "H") {
        Command::StopProvider { provider_id, contract_id, link_name, host_id } => {
            assert_eq!(provider_id, "VPROV");
            assert_eq!(contract_id, "wasmcloud:httpserver");
            assert_eq!(link_name, Some("default".to_owned()));
            assert_eq!(host_id, "H");
        }
        other => panic!("unexpected {other:?}"),
    }
    let e = Event::LinkdefSet {
        actor_id: "MA".to_owned(),
        provider_id: "VP".to_owned(),
        contract_id: "c".to_owned(),
        link_name: "l".to_owned(),
    };
    match derive_command(&e, "H") {
        Command::PutLinkdef { actor_id, provider_id, link_name, contract_id, values } => {
            assert_eq!((actor_id.as_str(), provider_id.as_str()), ("MA", "VP"));
            assert_eq!((link_name.as_str(), contract_id.as_str()), ("l", "c"));
            assert_eq!(values, vec![pair("wadm_host", "H")]);
        }
        other => panic!("unexpected {other:?}"),
    }
    match derive_command(&Event::Other { kind: "host_heartbeat".to_owned() }, "H") {
        Command::StopActor { actor_id, host_id, count } => {
            assert_eq!(actor_id, "H");
            assert_eq!(host_id, "notreal");
            assert_eq!(count, 2);
        }
        other => panic!("unexpected {other:?}"),
    }
}

#[test]
fn publish_plan_pairs_each_serialized_payload_with_topic() {
    let publisher = CommandPublisher::new(Recorder::new(None), "wadm.cmd.default");
    let batch = vec![
        Ok(b"a".to_vec()),
        Err(SerializeError { reason: "x".to_owned() }),
        Ok(b"b".to_vec()),
    ];
    let plan = publisher.publish_plan(&batch);
    assert_eq!(
        plan,
        vec![
            (b"a".to_vec(), "wadm.cmd.default".to_owned()),
            (b"b".to_vec(), "wadm.cmd.default".to_owned()),
        ]
    );
    assert!(publisher.publish_commands(batch).is_ok());
    let sent = publisher.publisher().sent.borrow().clone();
    assert_eq!(
        sent,
        vec![
            (b"a".to_vec(), Some("wadm.cmd.default".to_owned())),
            (b"b".to_vec(), Some("wadm.cmd.default".to_owned())),
        ]
    );
}

#[test]
fn repeated_subject_keeps_one_entry_and_later_wins() {
    let raw = vec![
        vec![pair("sub", "A"), pair("name", "old")],
        vec![pair("sub", "B"), pair("name", "b")],
        vec![pair("sub", "A"), pair("name", "new")],
    ];
    let out = claims_from_raw(&raw);
    assert_eq!(out.len(), 2);
    assert_eq!(out[0].0, "A");
    assert_eq!(out[0].1.name, "new");
    assert!(out[0].1.capabilities.is_empty());
    assert_eq!(out[0].1.issuer, "");
    assert_eq!(out[1].0, "B");
}

#[test]
fn permits_carry_their_pool_id() {
    let mut pool = PermitPool::new(9, 1);
    assert_eq!(pool.id(), 9);
    let permit = pool.try_acquire().unwrap();
    assert_eq!(permit.pool(), 9);
    let msg = ScopedMessage::new((), permit);
    assert_eq!(msg.permit_pool(), 9);
    msg.finish(&mut pool);
    assert_eq!(pool.in_use(), 0);
}

#[test]
fn reopened_message_can_be_finalized_again() {
    let mut pool = PermitPool::new(1, 1);
    let mut msg = ScopedMessage::new(3u8, pool.try_acquire().unwrap());
    assert_eq!(msg.ack(), Ok(BrokerAction::Ack));
    msg.reopen();
    assert_eq!(msg.state(), AckState::Pending);
    assert_eq!(msg.nack(), Ok(BrokerAction::Nack));
    assert_eq!(msg.finish(&mut pool), AckState::Nacked);
}
