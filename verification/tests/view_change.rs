use std::cell::RefCell;
use std::ops::{Deref, DerefMut};
use std::rc::Rc;

use togo_vr::log::memory::MemoryLog;
use togo_vr::log::Log;
use togo_vr::message::{
    ClientMessage, ClusterMessage, CommitMessage, DoViewChangeMessage, LogEntry, PrepareMessage,
    PrepareOkMessage, StartViewChangeMessage, StartViewMessage,
};
use togo_vr::replica::client::ClientIdentity;
use togo_vr::replica::cluster::{Cluster, Destination, OutboundMessage};
use togo_vr::replica::{Replica, ReplicaError, ReplicaIdentity, ReplicaStatus, Timeouts};
use togo_vr::state::{StateMachine, StateResult};

struct Journal {
    applied: Rc<RefCell<Vec<String>>>,
}

impl StateMachine<String, usize> for Journal {
    fn apply_operations(&self, operations: &[Rc<String>]) -> StateResult<Vec<usize>> {
        let mut applied = self.applied.borrow_mut();
        let mut results = Vec::new();
        for operation in operations {
            applied.push(operation.as_ref().clone());
            results.push(applied.len());
        }
        Ok(results)
    }
}

/// A replica together with what its state machine has applied.
struct Node {
    replica: Replica<String, usize, MemoryLog<LogEntry<Rc<String>>>, Journal>,
    applied: Rc<RefCell<Vec<String>>>,
}

impl Deref for Node {
    type Target = Replica<String, usize, MemoryLog<LogEntry<Rc<String>>>, Journal>;

    fn deref(&self) -> &Self::Target {
        &self.replica
    }
}

impl DerefMut for Node {
    fn deref_mut(&mut self) -> &mut Self::Target {
        &mut self.replica
    }
}

const R1: ReplicaIdentity = ReplicaIdentity { id: 10 };
const R2: ReplicaIdentity = ReplicaIdentity { id: 20 };
const R3: ReplicaIdentity = ReplicaIdentity { id: 30 };
const C1: ClientIdentity = ClientIdentity { id: 1 };
const C2: ClientIdentity = ClientIdentity { id: 2 };

fn node(identity: ReplicaIdentity) -> Node {
    let cluster = Cluster::bootstrap(vec![R1, R2, R3]).unwrap();
    let applied = Rc::new(RefCell::new(Vec::new()));
    let machine = Journal { applied: applied.clone() };
    let timeouts = Timeouts { heartbeat: 1, view_change: 1 };
    Node { replica: Replica::new(identity, MemoryLog::new(), machine, cluster, timeouts), applied }
}

fn applied(node: &Node) -> Vec<String> {
    node.applied.borrow().clone()
}

fn proposal(op_number: u64, commit_number: u64, client: ClientIdentity, request_number: u64,
    operation: &str) -> PrepareMessage<String> {
    PrepareMessage {
        requesting_replica: R1,
        view_number: 0,
        op_number,
        commit_number,
        client,
        request: operation.to_string(),
        request_number,
    }
}

fn entry(client: ClientIdentity, request_number: u64, operation: &str) -> LogEntry<Rc<String>> {
    LogEntry { client, request_number, operation: Rc::new(operation.to_string()) }
}

fn operations(log: &[LogEntry<Rc<String>>]) -> Vec<String> {
    log.iter().map(|entry| entry.operation.as_ref().clone()).collect()
}

fn log_of(node: &Node) -> Vec<String> {
    let log = node.log();
    (log.current_offset()..log.current_size_with_offset())
        .map(|index| log.get(index).unwrap().operation.as_ref().clone())
        .collect()
}

fn time_out(node: &mut Node) {
    node.advance_time();
    node.advance_time();
    assert_eq!(node.state().status, ReplicaStatus::ViewChange);
}

fn take_one(node: &mut Node) -> OutboundMessage<Rc<String>> {
    let mut messages = node.take_outbound();
    assert_eq!(messages.len(), 1);
    messages.pop().unwrap()
}

fn vote(replica: ReplicaIdentity, view_number: u64) -> StartViewChangeMessage {
    StartViewChangeMessage { replica, view_number }
}

#[test]
fn a_replica_joins_the_view_that_another_asks_for_and_hands_over_its_log() {
    let mut r3 = node(R3);
    assert_eq!(r3.apply_prepare(proposal(1, 0, C1, 1, "a")), Ok(()));
    r3.take_outbound();
    assert_eq!(r3.apply_start_view_change(vote(R2, 1)), Ok(()));
    assert_eq!(r3.state().status, ReplicaStatus::ViewChange);
    assert_eq!(r3.state().view_number, 1);
    let mut messages = r3.take_outbound();
    assert_eq!(messages.len(), 2);
    let handover = messages.pop().unwrap();
    let wish = messages.pop().unwrap();
    assert_eq!(wish.destination, Destination::Everyone);
    match wish.message.content {
        ClusterMessage::StartViewChange(start) => {
            assert_eq!(start.replica, R3);
            assert_eq!(start.view_number, 1);
        }
        _ => panic!("a request for a view change was expected"),
    }
    // the primary of view 1 is the second member
    assert_eq!(handover.destination, Destination::Replica(R2));
    assert_eq!(handover.message.sender, R3);
    match handover.message.content {
        ClusterMessage::DoViewChange(message) => {
            assert_eq!(message.replica, R3);
            assert_eq!(message.view_number, 1);
            assert_eq!(message.last_normal_view, 0);
            assert_eq!(message.commit_number, 0);
            assert_eq!(message.log_offset, 0);
            assert_eq!(operations(&message.log), vec!["a".to_string()]);
            assert_eq!(message.log[0].client, C1);
            assert_eq!(message.log[0].request_number, 1);
        }
        _ => panic!("a handover was expected"),
    }
    // the log is handed over once
    assert_eq!(r3.apply_start_view_change(vote(R1, 1)), Ok(()));
    assert!(r3.take_outbound().is_empty());
}

#[test]
fn wishes_that_do_not_count() {
    let mut r3 = node(R3);
    // a stranger
    assert_eq!(r3.apply_start_view_change(vote(ReplicaIdentity { id: 99 }, 1)), Ok(()));
    // the replica itself
    assert_eq!(r3.apply_start_view_change(vote(R3, 1)), Ok(()));
    // the view in which it is in normal operation
    assert_eq!(r3.apply_start_view_change(vote(R2, 0)), Ok(()));
    assert_eq!(r3.state().status, ReplicaStatus::Normal);
    assert_eq!(r3.state().view_number, 0);
    assert!(r3.take_outbound().is_empty());
    // a view that is past
    assert_eq!(r3.apply_start_view_change(vote(R2, 5)), Ok(()));
    assert_eq!(r3.state().view_number, 5);
    r3.take_outbound();
    assert_eq!(r3.apply_start_view_change(vote(R1, 4)), Ok(()));
    assert_eq!(r3.state().view_number, 5);
    assert!(r3.take_outbound().is_empty());
}

#[test]
fn the_new_primary_starts_the_view_with_the_most_complete_log() {
    let mut r2 = node(R2);
    assert_eq!(r2.apply_prepare(proposal(1, 0, C1, 1, "a")), Ok(()));
    r2.take_outbound();
    time_out(&mut r2);
    assert_eq!(r2.state().view_number, 1);
    r2.take_outbound();
    assert!(r2.is_primary());

    let handover = DoViewChangeMessage {
        replica: R3,
        view_number: 1,
        last_normal_view: 0,
        commit_number: 1,
        log_offset: 0,
        log: vec![entry(C1, 1, "a"), entry(C2, 7, "b")],
    };
    assert_eq!(r2.apply_do_view_change(handover), Ok(()));
    assert_eq!(r2.state().status, ReplicaStatus::Normal);
    assert_eq!(r2.state().view_number, 1);
    assert_eq!(r2.state().commit_number, 1);
    assert_eq!(r2.op_number(), 2);
    assert_eq!(log_of(&r2), vec!["a".to_string(), "b".to_string()]);
    assert_eq!(applied(&r2), vec!["a".to_string()]);
    assert_eq!(r2.latest_request(C2).unwrap().request_number, 7);
    assert_eq!(r2.latest_request(C1).unwrap().response, Some(1));

    let announcement = take_one(&mut r2);
    assert_eq!(announcement.destination, Destination::Everyone);
    assert_eq!(announcement.message.sender, R2);
    match announcement.message.content {
        ClusterMessage::StartView(message) => {
            assert_eq!(message.view_number, 1);
            assert_eq!(message.commit_number, 1);
            assert_eq!(message.log_offset, 0);
            assert_eq!(operations(&message.log), vec!["a".to_string(), "b".to_string()]);
        }
        _ => panic!("an announcement was expected"),
    }

    // it now takes requests, and acknowledgements of the new view
    assert_eq!(
        r2.apply_request(C1, ClientMessage { request_number: 2, request: "c".to_string() }),
        Ok(())
    );
    assert_eq!(r2.apply_prepare_ok(PrepareOkMessage { replica: R3, view_number: 1, op_number: 3 }), Ok(()));
    assert_eq!(r2.state().commit_number, 3);
    assert_eq!(applied(&r2), vec!["a".to_string(), "b".to_string(), "c".to_string()]);
}

#[test]
fn the_new_primary_keeps_its_own_log_when_that_is_the_most_complete() {
    let mut r2 = node(R2);
    assert_eq!(r2.apply_prepare(proposal(1, 0, C1, 1, "a")), Ok(()));
    assert_eq!(r2.apply_prepare(proposal(2, 0, C1, 2, "b")), Ok(()));
    time_out(&mut r2);
    r2.take_outbound();
    let handover = DoViewChangeMessage {
        replica: R1,
        view_number: 1,
        last_normal_view: 0,
        commit_number: 0,
        log_offset: 0,
        log: vec![entry(C1, 1, "a")],
    };
    assert_eq!(r2.apply_do_view_change(handover), Ok(()));
    assert_eq!(r2.state().status, ReplicaStatus::Normal);
    assert_eq!(log_of(&r2), vec!["a".to_string(), "b".to_string()]);
    assert_eq!(r2.state().commit_number, 0);
    match take_one(&mut r2).message.content {
        ClusterMessage::StartView(message) => {
            assert_eq!(message.commit_number, 0);
            assert_eq!(operations(&message.log), vec!["a".to_string(), "b".to_string()]);
        }
        _ => panic!("an announcement was expected"),
    }
}

#[test]
fn a_log_of_a_later_view_wins_over_a_longer_one() {
    let mut r2 = node(R2);
    assert_eq!(r2.apply_prepare(proposal(1, 0, C1, 1, "a")), Ok(()));
    assert_eq!(r2.apply_prepare(proposal(2, 0, C1, 2, "stale")), Ok(()));
    r2.take_outbound();
    // view 4 has the same primary as view 1
    let handover = DoViewChangeMessage {
        replica: R3,
        view_number: 4,
        last_normal_view: 3,
        commit_number: 0,
        log_offset: 0,
        log: vec![entry(C1, 1, "z")],
    };
    assert_eq!(r2.apply_do_view_change(handover), Ok(()));
    assert_eq!(r2.state().view_number, 4);
    assert_eq!(r2.state().status, ReplicaStatus::Normal);
    // nothing was committed, so the whole log gives way
    assert_eq!(log_of(&r2), vec!["z".to_string()]);
    let mut messages = r2.take_outbound();
    assert_eq!(messages.len(), 2);
    match messages.pop().unwrap().message.content {
        ClusterMessage::StartView(message) => assert_eq!(message.view_number, 4),
        _ => panic!("an announcement was expected"),
    }
    match messages.pop().unwrap().message.content {
        ClusterMessage::StartViewChange(message) => assert_eq!(message.view_number, 4),
        _ => panic!("a request for a view change was expected"),
    }
}

#[test]
fn only_the_primary_of_a_view_takes_the_logs_for_it() {
    let mut r3 = node(R3);
    let handover = DoViewChangeMessage {
        replica: R1,
        view_number: 1,
        last_normal_view: 0,
        commit_number: 0,
        log_offset: 0,
        log: Vec::new(),
    };
    assert_eq!(r3.apply_do_view_change(handover), Err(ReplicaError::NotPrimary));
    assert_eq!(r3.state().view_number, 0);
    assert_eq!(r3.state().status, ReplicaStatus::Normal);
}

#[test]
fn a_handover_that_carries_no_log_is_dropped() {
    let mut r2 = node(R2);
    time_out(&mut r2);
    r2.take_outbound();
    let handover = DoViewChangeMessage {
        replica: R3,
        view_number: 1,
        last_normal_view: 0,
        commit_number: 3,
        log_offset: 0,
        log: vec![entry(C1, 1, "a")],
    };
    assert_eq!(r2.apply_do_view_change(handover), Ok(()));
    assert_eq!(r2.state().status, ReplicaStatus::ViewChange);
    assert!(r2.take_outbound().is_empty());
}

#[test]
fn a_backup_enters_the_view_that_the_primary_announces() {
    let mut r3 = node(R3);
    assert_eq!(r3.apply_prepare(proposal(1, 0, C1, 1, "a")), Ok(()));
    assert_eq!(r3.apply_prepare(proposal(2, 1, C1, 2, "gone")), Ok(()));
    r3.take_outbound();
    assert_eq!(applied(&r3), vec!["a".to_string()]);
    let announcement = StartViewMessage {
        view_number: 1,
        commit_number: 2,
        log_offset: 0,
        log: vec![entry(C1, 1, "a"), entry(C2, 1, "b"), entry(C2, 2, "c")],
    };
    assert_eq!(r3.apply_start_view(announcement), Ok(()));
    assert_eq!(r3.state().status, ReplicaStatus::Normal);
    assert_eq!(r3.state().view_number, 1);
    assert_eq!(r3.state().commit_number, 2);
    assert_eq!(r3.state().ticks_since_last_commit, 0);
    assert_eq!(log_of(&r3), vec!["a".to_string(), "b".to_string(), "c".to_string()]);
    assert_eq!(applied(&r3), vec!["a".to_string(), "b".to_string()]);
    assert_eq!(r3.latest_request(C2).unwrap().request_number, 2);
    let acknowledgement = take_one(&mut r3);
    assert_eq!(acknowledgement.destination, Destination::Replica(R2));
    match acknowledgement.message.content {
        ClusterMessage::PrepareOk(ok) => {
            assert_eq!(ok.replica, R3);
            assert_eq!(ok.view_number, 1);
            assert_eq!(ok.op_number, 3);
        }
        _ => panic!("an acknowledgement was expected"),
    }
    // the same announcement again changes nothing
    let again = StartViewMessage { view_number: 1, commit_number: 0, log_offset: 0, log: Vec::new() };
    assert_eq!(r3.apply_start_view(again), Ok(()));
    assert_eq!(r3.op_number(), 3);
    assert!(r3.take_outbound().is_empty());
}

#[test]
fn a_recovering_backup_returns_with_the_log_of_the_view() {
    let mut r3 = node(R3);
    assert_eq!(r3.apply_commit(CommitMessage { view_number: 0, commit_number: 2 }), Ok(()));
    assert_eq!(r3.state().status, ReplicaStatus::Recovery);
    let announcement = StartViewMessage {
        view_number: 0,
        commit_number: 2,
        log_offset: 0,
        log: vec![entry(C1, 1, "a"), entry(C1, 2, "b")],
    };
    assert_eq!(r3.apply_start_view(announcement), Ok(()));
    assert_eq!(r3.state().status, ReplicaStatus::Normal);
    assert_eq!(r3.state().commit_number, 2);
    assert_eq!(applied(&r3), vec!["a".to_string(), "b".to_string()]);
    assert!(r3.take_outbound().is_empty());
}

#[test]
fn a_log_that_starts_beyond_the_backup_cannot_be_taken_over() {
    let mut r3 = node(R3);
    let announcement = StartViewMessage {
        view_number: 1,
        commit_number: 5,
        log_offset: 4,
        log: vec![entry(C1, 9, "e")],
    };
    assert_eq!(r3.apply_start_view(announcement), Ok(()));
    assert_eq!(r3.state().status, ReplicaStatus::Recovery);
    assert_eq!(r3.state().view_number, 1);
    assert_eq!(r3.op_number(), 0);
    assert!(applied(&r3).is_empty());
}

#[test]
fn the_primary_of_a_view_refuses_its_own_announcement() {
    let mut r2 = node(R2);
    let announcement = StartViewMessage { view_number: 1, commit_number: 0, log_offset: 0, log: Vec::new() };
    assert_eq!(r2.apply_start_view(announcement), Err(ReplicaError::NotForPrimary));
    assert_eq!(r2.state().view_number, 0);
}

#[test]
fn three_replicas_change_views_when_the_primary_is_silent() {
    let mut r2 = node(R2);
    let mut r3 = node(R3);
    for replica in [&mut r2, &mut r3] {
        assert_eq!(replica.apply_prepare(proposal(1, 0, C1, 1, "a")), Ok(()));
        replica.take_outbound();
    }
    assert_eq!(r3.apply_prepare(proposal(2, 0, C1, 2, "b")), Ok(()));
    r3.take_outbound();

    time_out(&mut r2);
    match take_one(&mut r2).message.content {
        ClusterMessage::StartViewChange(wish) => {
            assert_eq!(r3.apply_start_view_change(wish), Ok(()));
        }
        _ => panic!("a request for a view change was expected"),
    }
    let mut from_r3 = r3.take_outbound();
    assert_eq!(from_r3.len(), 2);
    let handover = from_r3.pop().unwrap();
    match from_r3.pop().unwrap().message.content {
        ClusterMessage::StartViewChange(wish) => {
            assert_eq!(r2.apply_start_view_change(wish), Ok(()));
            assert!(r2.take_outbound().is_empty());
        }
        _ => panic!("a request for a view change was expected"),
    }
    match handover.message.content {
        ClusterMessage::DoViewChange(message) => {
            assert_eq!(r2.apply_do_view_change(message), Ok(()));
        }
        _ => panic!("a handover was expected"),
    }
    assert_eq!(r2.state().status, ReplicaStatus::Normal);
    assert_eq!(log_of(&r2), vec!["a".to_string(), "b".to_string()]);
    match take_one(&mut r2).message.content {
        ClusterMessage::StartView(message) => {
            assert_eq!(r3.apply_start_view(message), Ok(()));
        }
        _ => panic!("an announcement was expected"),
    }
    assert_eq!(r3.state().status, ReplicaStatus::Normal);
    assert_eq!(r3.state().view_number, 1);
    assert_eq!(log_of(&r3), vec!["a".to_string(), "b".to_string()]);
    match take_one(&mut r3).message.content {
        ClusterMessage::PrepareOk(ok) => {
            assert_eq!(r2.apply_prepare_ok(ok), Ok(()));
        }
        _ => panic!("an acknowledgement was expected"),
    }
    assert_eq!(r2.state().commit_number, 2);
    assert_eq!(applied(&r2), vec!["a".to_string(), "b".to_string()]);
}
