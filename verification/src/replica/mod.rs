//! A replica of the cluster.

use std::rc::Rc;
use vstd::prelude::*;

use self::client::{
    admission_of, answered_all, held_response, Admission, ClientIdentity, ClientOperation,
    ClientTable,
};
use self::cluster::{ascending, Cluster, Destination, OutboundMessage};
use self::quorum::{is_commit_point, quorate, raised, Tally};
use self::view_change::carries_a_log;
use crate::log::{Log, LogView};
use crate::message::{
    share, ClientMessage, ClusterMessage, ClusterMessageEnvelope, CommitMessage,
    DoViewChangeMessage, LogEntry, PrepareMessage, PrepareOkMessage, StartViewChangeMessage,
};
use crate::state::{StateError, StateMachine};
use crate::transport::TransportError;

pub mod client;
pub mod cluster;
pub mod quorum;
pub mod view_change;

verus! {

pub type ReplicaResult<T> = Result<T, ReplicaError>;

#[derive(Debug, PartialEq, Eq, PartialOrd, Ord, Clone, Copy, Structural)]
pub struct ReplicaIdentity {
    pub id: u64,
}

#[derive(Debug, Clone, Copy, PartialEq, Eq, Structural)]
pub enum ReplicaStatus {
    Normal,
    Recovery,
    ViewChange,
}

#[derive(Debug, Clone, Copy, PartialEq, Eq, Structural)]
pub enum ReplicaError {
    /// Only a replica that is not the primary can do this.
    NotForPrimary,
    /// Only the primary can do this.
    NotPrimary,
    /// The replica is not in normal operation.
    InvalidState,
    /// The client sent a request number below the one the replica holds for
    /// it: `request_number` is the replica's, `replica_number` the request's.
    UnexpectedRequestNumber { request_number: u64, replica_number: u64 },
    /// A message could not be handed to the channel.
    TransportIssue(TransportError),
    /// The state machine did not apply a committed batch.
    StateIssue(StateError),
}

/// Where a replica stands in the protocol.
#[derive(Debug, Clone, Copy, PartialEq, Eq, Structural)]
pub struct ReplicaState {
    /// The number of entries that are committed: every entry with an op
    /// number up to this one.
    pub commit_number: u64,
    pub view_number: u64,
    /// The ticks since the replica last heard from the primary or, at the
    /// primary, since it last told the backups where the commit number is.
    pub ticks_since_last_commit: u64,
    pub status: ReplicaStatus,
}

/// How long a replica waits, in ticks.
#[derive(Debug, Clone, Copy, PartialEq, Eq, Structural)]
pub struct Timeouts {
    /// After this many ticks without a proposal the primary tells the
    /// backups where the commit number is.
    pub heartbeat: u64,
    /// A backup that has heard nothing from the primary for more ticks than
    /// this asks for the next view.
    pub view_change: u64,
}

/// A replica as the protocol sees it.
#[verifier::ext_equal]
pub struct ReplicaView<O, OR> {
    pub identity: ReplicaIdentity,
    pub members: Seq<ReplicaIdentity>,
    pub timeouts: Timeouts,
    pub state: ReplicaState,
    /// The last view in which the replica was in normal operation.
    pub last_normal_view: u64,
    pub log: LogView<LogEntry<Rc<O>>>,
    pub clients: Map<u64, ClientOperation<Rc<O>, OR>>,
    /// At the primary: the op number up to which each backup has
    /// acknowledged the log in this view.
    pub acknowledged: Map<u64, u64>,
    /// The view that each of the other replicas has asked for.
    pub votes: Map<u64, u64>,
    /// The view for which each of the other replicas has handed over its
    /// log to this one.
    pub handovers: Map<u64, u64>,
    /// Whether the replica has handed over its log in the view that it is
    /// changing to.
    pub handed_over: bool,
    /// The most complete of the logs that were handed over for the view
    /// that the replica is changing to.
    pub best: Option<DoViewChangeMessage<Rc<O>>>,
    /// The messages that wait to be sent, oldest first.
    pub outbox: Seq<OutboundMessage<Rc<O>>>,
    /// The operations that the state machine has applied since the replica
    /// was made, in the order in which it got them.
    pub applied: Seq<Rc<O>>,
}

impl<O, OR> ReplicaView<O, OR> {
    /// The primary of the replica's view.
    pub open spec fn primary(self) -> ReplicaIdentity {
        self.members[self.state.view_number as int % self.members.len() as int]
    }

    pub open spec fn is_primary(self) -> bool {
        self.primary() == self.identity
    }

    /// The op number of the last entry of the log: entries count from one.
    pub open spec fn op_number(self) -> nat {
        self.log.end()
    }

    /// What holds of a replica at all times: the committed entries are
    /// entries of the log, and the state machine has applied exactly them,
    /// each once and in log order. A log that the replica has been handed
    /// is one that a message can carry.
    pub open spec fn valid(self) -> bool {
        &&& ascending(self.members)
        &&& self.members.len() >= 3
        &&& self.log.offset <= self.state.commit_number <= self.log.end() <= u64::MAX
        &&& self.applied.len() == self.state.commit_number - self.log.offset
        &&& forall|i: int|
            0 <= i < self.applied.len() ==> self.applied[i] == (
            #[trigger] self.log.entries[i]).operation
        &&& self.best matches Some(best) ==> carries_a_log(
            best.log_offset,
            best.log@,
            best.commit_number,
        )
    }

    /// The envelope in which the replica sends `content`.
    pub open spec fn envelope(self, content: ClusterMessage<Rc<O>>) -> ClusterMessageEnvelope<Rc<O>> {
        ClusterMessageEnvelope { sender: self.identity, content }
    }

    /// The acknowledgement that the replica sends for its log as it is.
    pub open spec fn prepare_ok(self) -> ClusterMessageEnvelope<Rc<O>> {
        self.envelope(
            ClusterMessage::PrepareOk(
                PrepareOkMessage {
                    replica: self.identity,
                    view_number: self.state.view_number,
                    op_number: self.op_number() as u64,
                },
            ),
        )
    }

    /// The replica after it has put `message` in its outbox for every other
    /// replica.
    pub open spec fn broadcasting(self, content: ClusterMessage<Rc<O>>) -> Self {
        ReplicaView {
            outbox: self.outbox.push(
                OutboundMessage {
                    destination: Destination::Everyone,
                    message: self.envelope(content),
                },
            ),
            ..self
        }
    }

    /// The replica after it has put `message` in its outbox for `recipient`.
    pub open spec fn sending(
        self,
        recipient: ReplicaIdentity,
        message: ClusterMessageEnvelope<Rc<O>>,
    ) -> Self {
        ReplicaView {
            outbox: self.outbox.push(
                OutboundMessage { destination: Destination::Replica(recipient), message },
            ),
            ..self
        }
    }

    /// The replica with its ticks back at zero.
    pub open spec fn rested(self) -> Self {
        ReplicaView { state: ReplicaState { ticks_since_last_commit: 0, ..self.state }, ..self }
    }

    /// The replica in the status `status`.
    pub open spec fn in_status(self, status: ReplicaStatus) -> Self {
        ReplicaView { state: ReplicaState { status, ..self.state }, ..self }
    }

    /// The replica after it has taken the request `request_number` of
    /// `client` into its log and its client table.
    pub open spec fn holding(
        self,
        client: ClientIdentity,
        request_number: u64,
        operation: Rc<O>,
    ) -> Self {
        ReplicaView {
            log: self.log.push(LogEntry { client, request_number, operation }),
            clients: self.clients.insert(
                client.id,
                ClientOperation { request_number, operation, response: None },
            ),
            ..self
        }
    }

    /// The proposal that the primary sends for the last entry of its log.
    pub open spec fn proposal(
        self,
        client: ClientIdentity,
        request_number: u64,
        operation: Rc<O>,
    ) -> ClusterMessage<Rc<O>> {
        ClusterMessage::Prepare(
            PrepareMessage {
                requesting_replica: self.identity,
                view_number: self.state.view_number,
                op_number: self.op_number() as u64,
                commit_number: self.state.commit_number,
                client,
                request: operation,
                request_number,
            },
        )
    }

    /// What a request of a client does to the replica, and what the client
    /// is told.
    ///
    /// Only the primary takes requests, and only in normal operation. A
    /// request number below the one that the replica holds for the client is
    /// refused. The request number that it holds is a repetition: the
    /// replica tells the client that all is well and does nothing. Any other
    /// request goes to the end of the log and into the client table, and a
    /// proposal of it goes to every backup.
    pub open spec fn on_request(self, client: ClientIdentity, request: ClientMessage<O>) -> (
        Self,
        ReplicaResult<()>,
    ) {
        if !self.is_primary() {
            (self, Err(ReplicaError::NotPrimary))
        } else if self.state.status != ReplicaStatus::Normal {
            (self, Err(ReplicaError::InvalidState))
        } else {
            match admission_of(self.clients, client, request.request_number) {
                Admission::Regressed { held } => (
                    self,
                    Err(
                        ReplicaError::UnexpectedRequestNumber {
                            request_number: held,
                            replica_number: request.request_number,
                        },
                    ),
                ),
                Admission::Repeated => (self, Ok(())),
                Admission::Fresh => {
                    let held = self.holding(client, request.request_number, Rc::new(request.request));
                    (
                        held.broadcasting(
                            held.proposal(client, request.request_number, Rc::new(request.request)),
                        ).rested(),
                        Ok(()),
                    )
                },
            }
        }
    }

    /// The entries after the commit number up to the op number `up_to`, in
    /// log order.
    pub open spec fn pending(self, up_to: int) -> Seq<LogEntry<Rc<O>>> {
        self.log.entries.subrange(
            self.state.commit_number - self.log.offset,
            up_to - self.log.offset,
        )
    }

    /// The replica after the state machine has applied the entries up to
    /// the op number `up_to` and has given `responses` for them: the commit
    /// number stands at `up_to`, and each response is attached to the
    /// request of its entry where the client table still holds that request.
    pub open spec fn committed(self, up_to: u64, responses: Seq<OR>) -> Self {
        ReplicaView {
            state: ReplicaState { commit_number: up_to, ..self.state },
            clients: answered_all(self.clients, self.pending(up_to as int), responses),
            applied: self.applied + self.pending(up_to as int).map_values(
                |entry: LogEntry<Rc<O>>| entry.operation,
            ),
            ..self
        }
    }

    /// A request that the primary has accepted changes nothing when it
    /// comes again: no entry, no proposal, and nothing more for the state
    /// machine to apply.
    pub proof fn repeated_request_is_idle(
        self,
        client: ClientIdentity,
        request: ClientMessage<O>,
        again: ClientMessage<O>,
    )
        requires
            self.on_request(client, request).1 is Ok,
            again.request_number == request.request_number,
        ensures
            ({
                let accepted = self.on_request(client, request).0;
                accepted.on_request(client, again) == (accepted, Ok::<(), ReplicaError>(()))
            }),
    {
    }

    /// After the primary has accepted a request of a client, it refuses
    /// every request of that client with a lower request number, and
    /// nothing changes.
    pub proof fn regressed_request_is_refused(
        self,
        client: ClientIdentity,
        request: ClientMessage<O>,
        earlier: ClientMessage<O>,
    )
        requires
            self.on_request(client, request).1 is Ok,
            earlier.request_number < request.request_number,
        ensures
            ({
                let accepted = self.on_request(client, request).0;
                accepted.on_request(client, earlier) == (
                    accepted,
                    Err::<(), ReplicaError>(
                        ReplicaError::UnexpectedRequestNumber {
                            request_number: request.request_number,
                            replica_number: earlier.request_number,
                        },
                    ),
                )
            }),
    {
    }

    /// Whether no request stands twice in the log, and the client table
    /// knows of each client in the log a request number that is not below
    /// those of the client's entries.
    pub open spec fn holds_each_request_once(self) -> bool {
        &&& forall|i: int, j: int|
            0 <= i < j < self.log.entries.len() ==> !(self.log.entries[i].client
                == self.log.entries[j].client && self.log.entries[i].request_number
                == self.log.entries[j].request_number)
        &&& forall|i: int|
            0 <= i < self.log.entries.len() ==> self.clients.contains_key(
                (#[trigger] self.log.entries[i]).client.id,
            ) && self.clients[self.log.entries[i].client.id].request_number
                >= self.log.entries[i].request_number
    }

    /// Requests never bring a request into the log a second time: where
    /// each request stands once in the log, it does so after any request
    /// has been handled, whatever the request is.
    pub proof fn requests_enter_the_log_once(self, client: ClientIdentity, request: ClientMessage<O>)
        requires
            self.holds_each_request_once(),
        ensures
            self.on_request(client, request).0.holds_each_request_once(),
    {
        let after = self.on_request(client, request).0;
        if after != self {
            let last = self.log.entries.len() as int;
            assert forall|i: int, j: int| 0 <= i < j < after.log.entries.len() implies !(
            after.log.entries[i].client == after.log.entries[j].client
                && after.log.entries[i].request_number == after.log.entries[j].request_number) by {
                if j == last {
                    assert(after.log.entries[i] == self.log.entries[i]);
                    if self.log.entries[i].client == client {
                        assert(self.clients[self.log.entries[i].client.id].request_number
                            < request.request_number);
                    }
                } else {
                    assert(after.log.entries[i] == self.log.entries[i]);
                    assert(after.log.entries[j] == self.log.entries[j]);
                }
            }
            assert forall|i: int| 0 <= i < after.log.entries.len() implies after.clients.contains_key(
                (#[trigger] after.log.entries[i]).client.id,
            ) && after.clients[after.log.entries[i].client.id].request_number
                >= after.log.entries[i].request_number by {
                if i < last {
                    assert(after.log.entries[i] == self.log.entries[i]);
                    if self.log.entries[i].client.id == client.id {
                        assert(self.clients[self.log.entries[i].client.id].request_number
                            < request.request_number);
                    }
                }
            }
        }
    }

    /// A request never moves the view, the commit number or what the state
    /// machine has applied.
    pub proof fn requests_apply_nothing(self, client: ClientIdentity, request: ClientMessage<O>)
        ensures
            self.on_request(client, request).0.state.view_number == self.state.view_number,
            self.on_request(client, request).0.state.commit_number == self.state.commit_number,
            self.on_request(client, request).0.applied == self.applied,
    {
    }

    /// The state machine has applied each committed entry of the log once,
    /// in log order, and no entry that is not committed; the commit number
    /// is within the log.
    pub proof fn committed_entries_are_applied_once(self, op_number: int)
        requires
            self.valid(),
            self.log.offset < op_number <= self.state.commit_number,
        ensures
            self.state.commit_number <= self.op_number(),
            self.applied.len() == self.state.commit_number - self.log.offset,
            self.applied[op_number - 1 - self.log.offset] == self.log.at(op_number - 1).operation,
    {
    }

    /// To commit moves the commit number over the entries in log order: the
    /// state machine gets the entries between the old and the new commit
    /// number, each once, after all that it got before.
    pub proof fn commits_are_in_log_order(self, up_to: u64, responses: Seq<OR>, op_number: int)
        requires
            self.valid(),
            self.state.commit_number < op_number <= up_to <= self.log.end(),
        ensures
            self.committed(up_to, responses).applied.len() == up_to - self.log.offset,
            self.committed(up_to, responses).applied.take(self.applied.len() as int)
                == self.applied,
            self.committed(up_to, responses).applied[op_number - 1 - self.log.offset]
                == self.log.at(op_number - 1).operation,
            self.committed(up_to, responses).state.view_number == self.state.view_number,
    {
    }

    /// To commit up to the commit number changes nothing.
    pub proof fn committed_nothing(self)
        requires
            self.valid(),
        ensures
            self.committed(self.state.commit_number, Seq::empty()) == self,
    {
        assert(self.committed(self.state.commit_number, Seq::empty()) =~= self);
    }

    /// Why the replica does not take a message that is meant for backups.
    pub open spec fn refusal_as_backup(self, view_number: u64) -> Option<ReplicaError> {
        if self.is_primary() {
            Some(ReplicaError::NotForPrimary)
        } else if view_number == self.state.view_number && self.state.status
            != ReplicaStatus::Normal {
            Some(ReplicaError::InvalidState)
        } else {
            None
        }
    }

    /// Why the replica does not take a message that is meant for the
    /// primary.
    pub open spec fn refusal_as_primary(self, view_number: u64) -> Option<ReplicaError> {
        if !self.is_primary() {
            Some(ReplicaError::NotPrimary)
        } else if view_number == self.state.view_number && self.state.status
            != ReplicaStatus::Normal {
            Some(ReplicaError::InvalidState)
        } else {
            None
        }
    }

    /// The backup after it has dealt with the proposal in `message`, before
    /// it looks at the commit number that came with it.
    ///
    /// A proposal of a later view, or one that leaves a gap after the last
    /// entry, sends the backup into recovery: it takes no entry and
    /// acknowledges nothing. A proposal of an earlier view is not taken
    /// either; the sender learns from the acknowledgement, which bears the
    /// backup's view, that it has fallen behind. An entry that the backup
    /// holds is acknowledged again. The next entry goes to the end of the
    /// log and into the client table, and is acknowledged.
    pub open spec fn received(self, message: PrepareMessage<O>) -> Self {
        if message.view_number > self.state.view_number {
            self.in_status(ReplicaStatus::Recovery)
        } else if message.view_number < self.state.view_number {
            self.sending(message.requesting_replica, self.prepare_ok())
        } else if message.op_number <= self.op_number() {
            self.sending(message.requesting_replica, self.prepare_ok()).rested()
        } else if message.op_number > self.op_number() + 1 {
            self.in_status(ReplicaStatus::Recovery)
        } else {
            let held = self.holding(
                message.client,
                message.request_number,
                Rc::new(message.request),
            );
            held.sending(message.requesting_replica, held.prepare_ok()).rested()
        }
    }

    /// The commit number to which a backup moves on word from the primary
    /// of `view_number` that `commit_number` entries are committed. Word
    /// from another view moves nothing, and neither does word that is
    /// behind the backup. The backup does not move past the end of its log.
    pub open spec fn catch_up(self, view_number: u64, commit_number: u64) -> u64 {
        if view_number != self.state.view_number || self.state.status != ReplicaStatus::Normal
            || commit_number <= self.state.commit_number {
            self.state.commit_number
        } else if commit_number <= self.log.end() {
            commit_number
        } else {
            self.log.end() as u64
        }
    }

    /// The primary after it has dealt with the acknowledgement in
    /// `message`, before it looks for entries to commit.
    ///
    /// An acknowledgement of a later view sends the replica into recovery.
    /// One of an earlier view counts for nothing, nor does one from a
    /// replica that is no backup of the cluster, nor one of an entry that
    /// the primary does not hold.
    pub open spec fn acknowledged_with(self, message: PrepareOkMessage) -> Self {
        if message.view_number > self.state.view_number {
            self.in_status(ReplicaStatus::Recovery)
        } else if message.view_number < self.state.view_number || !self.members.contains(
            message.replica,
        ) || message.replica == self.identity || message.op_number > self.op_number() {
            self
        } else {
            ReplicaView {
                acknowledged: raised(self.acknowledged, message.replica, message.op_number),
                ..self
            }
        }
    }

    /// Whether `point` is the commit number to which the primary moves: the
    /// last entry that a quorum holds, or the commit number as it is where
    /// the replica is not in normal operation.
    pub open spec fn moves_to(self, point: u64) -> bool {
        if self.state.status == ReplicaStatus::Normal {
            is_commit_point(
                self.members,
                self.identity,
                self.acknowledged,
                self.state.commit_number as int,
                self.log.end() as int,
                point as int,
            )
        } else {
            point == self.state.commit_number
        }
    }

    /// The backup after it has dealt with the word in `message` that
    /// entries are committed, before it commits any.
    ///
    /// Word from a later view, or of more entries than the backup holds,
    /// sends the backup into recovery. Word from an earlier view is
    /// dropped.
    pub open spec fn informed(self, message: CommitMessage) -> Self {
        if message.view_number > self.state.view_number {
            self.in_status(ReplicaStatus::Recovery)
        } else if message.view_number < self.state.view_number {
            self
        } else if message.commit_number > self.op_number() {
            self.in_status(ReplicaStatus::Recovery)
        } else {
            self.rested()
        }
    }

    /// The ticks after one more.
    pub open spec fn next_tick(self) -> u64 {
        if self.state.ticks_since_last_commit < u64::MAX {
            (self.state.ticks_since_last_commit + 1) as u64
        } else {
            u64::MAX
        }
    }

    /// The replica one tick later.
    ///
    /// The primary, in normal operation, tells the backups where the
    /// commit number is once a heartbeat has gone by without a proposal. A
    /// backup in normal operation that has waited longer than the view
    /// change timeout gives the primary up: it moves to the next view, in
    /// which it is changing views, and asks the others to do so too.
    /// Otherwise the tick is counted and nothing else happens.
    pub open spec fn on_tick(self) -> Self {
        let ticked = ReplicaView {
            state: ReplicaState { ticks_since_last_commit: self.next_tick(), ..self.state },
            ..self
        };
        if self.state.status != ReplicaStatus::Normal {
            ticked
        } else if self.is_primary() {
            if self.next_tick() >= self.timeouts.heartbeat {
                self.broadcasting(
                    ClusterMessage::Commit(
                        CommitMessage {
                            view_number: self.state.view_number,
                            commit_number: self.state.commit_number,
                        },
                    ),
                ).rested()
            } else {
                ticked
            }
        } else if self.next_tick() > self.timeouts.view_change {
            self.in_view_change((self.state.view_number + 1) as u64)
        } else {
            ticked
        }
    }

    /// The replica after it has moved to the view `view_number` to change
    /// views, and has asked the others to do so too. What it had gathered
    /// for the view that it leaves is void.
    pub open spec fn in_view_change(self, view_number: u64) -> Self {
        ReplicaView {
            state: ReplicaState {
                view_number,
                status: ReplicaStatus::ViewChange,
                ticks_since_last_commit: 0,
                ..self.state
            },
            handed_over: false,
            best: None,
            ..self
        }.broadcasting(
            ClusterMessage::StartViewChange(
                StartViewChangeMessage { replica: self.identity, view_number },
            ),
        )
    }
}

pub struct Replica<O, OR, L, S> where L: Log<LogEntry<Rc<O>>>, S: StateMachine<O, OR> {
    identity: ReplicaIdentity,
    op_log: L,
    client_log: ClientTable<O, OR>,
    state_machine: S,
    state: ReplicaState,
    timeouts: Timeouts,
    cluster: Cluster<Rc<O>>,
    acknowledged: Tally,
    last_normal_view: u64,
    votes: Tally,
    handovers: Tally,
    handed_over: bool,
    best: Option<DoViewChangeMessage<Rc<O>>>,
    applied: Ghost<Seq<Rc<O>>>,
}

impl<O, OR, L, S> View for Replica<O, OR, L, S> where
    L: Log<LogEntry<Rc<O>>>,
    S: StateMachine<O, OR>,
 {
    type V = ReplicaView<O, OR>;

    closed spec fn view(&self) -> ReplicaView<O, OR> {
        ReplicaView {
            identity: self.identity,
            members: self.cluster.members(),
            timeouts: self.timeouts,
            state: self.state,
            last_normal_view: self.last_normal_view,
            log: self.op_log@,
            clients: self.client_log@,
            acknowledged: self.acknowledged@,
            votes: self.votes@,
            handovers: self.handovers@,
            handed_over: self.handed_over,
            best: self.best,
            outbox: self.cluster.outbox(),
            applied: self.applied@,
        }
    }
}

impl<O, OR, L, S> Replica<O, OR, L, S> where L: Log<LogEntry<Rc<O>>>, S: StateMachine<O, OR> {
    /// A replica in view 0 and in normal operation, around a log of which
    /// nothing is committed beyond what it has left behind.
    pub fn new(
        identity: ReplicaIdentity,
        op_log: L,
        state_machine: S,
        cluster: Cluster<Rc<O>>,
        timeouts: Timeouts,
    ) -> (replica: Self)
        ensures
            replica@.valid(),
            replica@ == (ReplicaView::<O, OR> {
                identity,
                members: cluster.members(),
                timeouts,
                state: ReplicaState {
                    commit_number: op_log@.offset as u64,
                    view_number: 0,
                    ticks_since_last_commit: 0,
                    status: ReplicaStatus::Normal,
                },
                last_normal_view: 0,
                log: op_log@,
                clients: Map::empty(),
                acknowledged: Map::empty(),
                votes: Map::empty(),
                handovers: Map::empty(),
                handed_over: false,
                best: None,
                outbox: cluster.outbox(),
                applied: Seq::empty(),
            }),
    {
        let commit_number = op_log.current_offset();
        // What the log says of its end and the cluster of its members is
        // what a valid replica needs of them.
        let _ = op_log.current_size_with_offset();
        let _ = cluster.size();
        Self {
            identity,
            op_log,
            client_log: ClientTable::new(),
            state_machine,
            state: ReplicaState {
                commit_number,
                view_number: 0,
                ticks_since_last_commit: 0,
                status: ReplicaStatus::Normal,
            },
            timeouts,
            cluster,
            acknowledged: Tally::new(),
            last_normal_view: 0,
            votes: Tally::new(),
            handovers: Tally::new(),
            handed_over: false,
            best: None,
            applied: Ghost(Seq::empty()),
        }
    }

    pub fn identity(&self) -> (identity: ReplicaIdentity)
        ensures
            identity == self@.identity,
    {
        self.identity
    }

    pub fn state(&self) -> (state: ReplicaState)
        ensures
            state == self@.state,
    {
        self.state
    }

    pub fn timeouts(&self) -> (timeouts: Timeouts)
        ensures
            timeouts == self@.timeouts,
    {
        self.timeouts
    }

    /// The op number of the last entry of the log.
    pub fn op_number(&self) -> (op_number: u64)
        ensures
            op_number == self@.op_number(),
    {
        self.op_log.current_size_with_offset()
    }

    /// Whether this replica is the primary of its view.
    pub fn is_primary(&self) -> (primary: bool)
        ensures
            primary == self@.is_primary(),
    {
        self.cluster.current_primary(self.state.view_number) == self.identity
    }

    pub fn log(&self) -> (log: &L)
        ensures
            log@ == self@.log,
    {
        &self.op_log
    }

    pub fn cluster(&self) -> (cluster: &Cluster<Rc<O>>)
        ensures
            cluster.members() == self@.members,
            cluster.outbox() == self@.outbox,
    {
        &self.cluster
    }

    /// The record that the replica holds of `client`: its latest request,
    /// with the response once the request is committed and applied.
    pub fn latest_request(&self, client: ClientIdentity) -> (record: Option<
        &ClientOperation<Rc<O>, OR>,
    >)
        ensures
            record == if self@.clients.contains_key(client.id) {
                Some(&self@.clients[client.id])
            } else {
                None
            },
    {
        self.client_log.latest(client)
    }

    /// The response to the request `request_number` of `client`, once the
    /// request is committed and applied: what a client is told that sends
    /// the request again.
    pub fn response(&self, client: ClientIdentity, request_number: u64) -> (response: Option<&OR>)
        ensures
            match response {
                Some(held) => held_response(self@.clients, client, request_number) == Some(*held),
                None => held_response(self@.clients, client, request_number) is None,
            },
    {
        self.client_log.response(client, request_number)
    }

    /// Hands over the messages that wait to be sent, oldest first, and
    /// leaves none waiting.
    pub fn take_outbound(&mut self) -> (messages: Vec<OutboundMessage<Rc<O>>>)
        ensures
            messages@ == old(self)@.outbox,
            final(self)@ == (ReplicaView { outbox: Seq::empty(), ..old(self)@ }),
    {
        self.cluster.take_outbound()
    }

    pub fn apply_request(&mut self, client: ClientIdentity, request: ClientMessage<O>) -> (result:
        ReplicaResult<()>)
        requires
            old(self)@.valid(),
            old(self)@.op_number() < u64::MAX,
        ensures
            final(self)@.valid(),
            result is Err ==> final(self)@.state.commit_number == old(self)@.state.commit_number
                && final(self)@.applied == old(self)@.applied,
            final(self)@.state.view_number == old(self)@.state.view_number,
            (final(self)@, result) == old(self)@.on_request(client, request),
    {
        if self.cluster.current_primary(self.state.view_number) != self.identity {
            return Err(ReplicaError::NotPrimary);
        }
        if self.state.status != ReplicaStatus::Normal {
            return Err(ReplicaError::InvalidState);
        }
        match self.client_log.admission(client, request.request_number) {
            Admission::Regressed { held } => {
                return Err(
                    ReplicaError::UnexpectedRequestNumber {
                        request_number: held,
                        replica_number: request.request_number,
                    },
                );
            },
            Admission::Repeated => {
                return Ok(());
            },
            Admission::Fresh => {},
        }
        let new_operation: ClientOperation<Rc<O>, OR> = ClientOperation {
            request_number: request.request_number,
            operation: Rc::new(request.request),
            response: None,
        };
        let entry = LogEntry {
            client,
            request_number: new_operation.request_number,
            operation: share(&new_operation.operation),
        };
        let request_number = new_operation.request_number;
        let operation = share(&new_operation.operation);
        let _ = self.op_log.push(entry);
        self.client_log.record(client, new_operation);
        let prepare_message = self.new_message(
            ClusterMessage::Prepare(
                PrepareMessage {
                    requesting_replica: self.identity,
                    view_number: self.state.view_number,
                    op_number: self.op_log.current_size_with_offset(),
                    commit_number: self.state.commit_number,
                    client,
                    request: operation,
                    request_number,
                },
            ),
        );
        self.state.ticks_since_last_commit = 0;
        match self.cluster.broadcast(prepare_message) {
            Ok(()) => Ok(()),
            Err(error) => Err(ReplicaError::TransportIssue(error)),
        }
    }

    /// Handles a proposal of the primary.
    ///
    /// The primary itself refuses it, and so does a replica of the
    /// proposal's view that is not in normal operation. What a backup does
    /// with the proposal is in [`ReplicaView::received`]. It then commits
    /// the entries that the primary has committed, as far as it holds them.
    pub fn apply_prepare(&mut self, message: PrepareMessage<O>) -> (result: ReplicaResult<()>)
        requires
            old(self)@.valid(),
            old(self)@.op_number() < u64::MAX,
        ensures
            final(self)@.valid(),
            result is Err ==> final(self)@.state.commit_number == old(self)@.state.commit_number
                && final(self)@.applied == old(self)@.applied,
            final(self)@.state.view_number >= old(self)@.state.view_number,
            message.view_number < old(self)@.state.view_number ==> final(self)@.log == old(self)@.log
                && final(self)@.state == old(self)@.state && final(self)@.applied == old(
                self,
            )@.applied,
            match old(self)@.refusal_as_backup(message.view_number) {
                Some(error) => result == Err::<(), ReplicaError>(error) && final(self)@ == old(self)@,
                None => {
                    let received = old(self)@.received(message);
                    let target = received.catch_up(message.view_number, message.commit_number);
                    match result {
                        Ok(()) => exists|responses: Seq<OR>|
                            final(self)@ == #[trigger] received.committed(target, responses),
                        Err(error) => error is StateIssue && final(self)@ == received && target
                            > received.state.commit_number,
                    }
                },
            },
    {
        if self.cluster.current_primary(self.state.view_number) == self.identity {
            return Err(ReplicaError::NotForPrimary);
        }
        if message.view_number > self.state.view_number {
            self.state.status = ReplicaStatus::Recovery;
            proof {
                let settled = old(self)@.received(message);
                assert(settled == self@);
                assert(settled.catch_up(message.view_number, message.commit_number)
                    == self@.state.commit_number);
                self@.committed_nothing();
            }
            return Ok(());
        }
        if message.view_number < self.state.view_number {
            let _ = self.cluster.send(message.requesting_replica, self.new_prepare_ok_message());
            proof {
                let settled = old(self)@.received(message);
                assert(settled == self@);
                assert(settled.catch_up(message.view_number, message.commit_number)
                    == self@.state.commit_number);
                self@.committed_nothing();
            }
            return Ok(());
        }
        if self.state.status != ReplicaStatus::Normal {
            return Err(ReplicaError::InvalidState);
        }
        let op_number = self.op_log.current_size_with_offset();
        if message.op_number <= op_number {
            // The backup holds this entry: it says so again.
            let _ = self.cluster.send(message.requesting_replica, self.new_prepare_ok_message());
            self.state.ticks_since_last_commit = 0;
        } else if message.op_number > op_number + 1 {
            self.state.status = ReplicaStatus::Recovery;
            proof {
                let settled = old(self)@.received(message);
                assert(settled == self@);
                assert(settled.catch_up(message.view_number, message.commit_number)
                    == self@.state.commit_number);
                self@.committed_nothing();
            }
            return Ok(());
        } else {
            let new_operation: ClientOperation<Rc<O>, OR> = ClientOperation {
                request_number: message.request_number,
                operation: Rc::new(message.request),
                response: None,
            };
            let entry = LogEntry {
                client: message.client,
                request_number: message.request_number,
                operation: share(&new_operation.operation),
            };
            let _ = self.op_log.push(entry);
            self.client_log.record(message.client, new_operation);
            let _ = self.cluster.send(message.requesting_replica, self.new_prepare_ok_message());
            self.state.ticks_since_last_commit = 0;
        }
        let target = self.catch_up_target(message.commit_number);
        self.commit(target)
    }

    /// Handles the acknowledgement of a backup.
    ///
    /// Only the primary takes acknowledgements, and of its own view only in
    /// normal operation. What it does with one is in
    /// [`ReplicaView::acknowledged_with`]. It then commits every entry that
    /// a quorum of the cluster holds, the primary counted, in log order and
    /// up to the first entry that no quorum holds. So no entry is committed
    /// that fewer replicas hold than a quorum, and none before the entry
    /// ahead of it.
    pub fn apply_prepare_ok(&mut self, message: PrepareOkMessage) -> (result: ReplicaResult<()>)
        requires
            old(self)@.valid(),
        ensures
            final(self)@.valid(),
            result is Err ==> final(self)@.state.commit_number == old(self)@.state.commit_number
                && final(self)@.applied == old(self)@.applied,
            final(self)@.state.view_number >= old(self)@.state.view_number,
            forall|op_number: int|
                old(self)@.state.commit_number < op_number <= final(self)@.state.commit_number
                    ==> #[trigger] quorate(
                    final(self)@.members,
                    final(self)@.identity,
                    final(self)@.acknowledged,
                    op_number,
                ),
            match old(self)@.refusal_as_primary(message.view_number) {
                Some(error) => result == Err::<(), ReplicaError>(error) && final(self)@ == old(self)@,
                None => {
                    let counted = old(self)@.acknowledged_with(message);
                    match result {
                        Ok(()) => exists|point: u64, responses: Seq<OR>|
                            counted.moves_to(point) && final(self)@ == #[trigger] counted.committed(
                                point,
                                responses,
                            ),
                        Err(error) => error is StateIssue && final(self)@ == counted
                            && exists|point: u64|
                            point > counted.state.commit_number && #[trigger] counted.moves_to(point),
                    }
                },
            },
    {
        if self.cluster.current_primary(self.state.view_number) != self.identity {
            return Err(ReplicaError::NotPrimary);
        }
        let last = self.op_log.current_size_with_offset();
        if message.view_number > self.state.view_number {
            self.state.status = ReplicaStatus::Recovery;
        } else if message.view_number == self.state.view_number {
            if self.state.status != ReplicaStatus::Normal {
                return Err(ReplicaError::InvalidState);
            }
            if self.cluster.is_member(message.replica) && message.replica != self.identity
                && message.op_number <= last {
                self.acknowledged.record(message.replica, message.op_number);
            }
        }
        assert(self@ == old(self)@.acknowledged_with(message));
        if self.state.status != ReplicaStatus::Normal {
            proof {
                assert(self@.moves_to(self@.state.commit_number));
                self@.committed_nothing();
            }
            return Ok(());
        }
        let point = self.acknowledged.commit_point(
            &self.cluster,
            self.identity,
            self.state.commit_number,
            last,
        );
        assert(self@.moves_to(point));
        self.commit(point)
    }

    /// Handles the primary's word that entries are committed.
    ///
    /// The primary itself refuses it, and so does a replica of the
    /// message's view that is not in normal operation. What a backup does
    /// with it is in [`ReplicaView::informed`]. It then commits the entries
    /// up to the primary's commit number.
    pub fn apply_commit(&mut self, message: CommitMessage) -> (result: ReplicaResult<()>)
        requires
            old(self)@.valid(),
        ensures
            final(self)@.valid(),
            result is Err ==> final(self)@.state.commit_number == old(self)@.state.commit_number
                && final(self)@.applied == old(self)@.applied,
            final(self)@.state.view_number >= old(self)@.state.view_number,
            message.view_number < old(self)@.state.view_number ==> final(self)@ == old(self)@,
            match old(self)@.refusal_as_backup(message.view_number) {
                Some(error) => result == Err::<(), ReplicaError>(error) && final(self)@ == old(self)@,
                None => {
                    let informed = old(self)@.informed(message);
                    let target = informed.catch_up(message.view_number, message.commit_number);
                    match result {
                        Ok(()) => exists|responses: Seq<OR>|
                            final(self)@ == #[trigger] informed.committed(target, responses),
                        Err(error) => error is StateIssue && final(self)@ == informed && target
                            > informed.state.commit_number,
                    }
                },
            },
    {
        if self.cluster.current_primary(self.state.view_number) == self.identity {
            return Err(ReplicaError::NotForPrimary);
        }
        if message.view_number > self.state.view_number {
            self.state.status = ReplicaStatus::Recovery;
            proof {
                let settled = old(self)@.informed(message);
                assert(settled == self@);
                assert(settled.catch_up(message.view_number, message.commit_number)
                    == self@.state.commit_number);
                self@.committed_nothing();
            }
            return Ok(());
        }
        if message.view_number < self.state.view_number {
            proof {
                let settled = old(self)@.informed(message);
                assert(settled == self@);
                assert(settled.catch_up(message.view_number, message.commit_number)
                    == self@.state.commit_number);
                self@.committed_nothing();
            }
            return Ok(());
        }
        if self.state.status != ReplicaStatus::Normal {
            return Err(ReplicaError::InvalidState);
        }
        if message.commit_number > self.op_log.current_size_with_offset() {
            self.state.status = ReplicaStatus::Recovery;
            proof {
                let settled = old(self)@.informed(message);
                assert(settled == self@);
                assert(settled.catch_up(message.view_number, message.commit_number)
                    == self@.state.commit_number);
                self@.committed_nothing();
            }
            return Ok(());
        }
        self.state.ticks_since_last_commit = 0;
        let target = self.catch_up_target(message.commit_number);
        self.commit(target)
    }

    /// Lets one tick of the clock go by: see [`ReplicaView::on_tick`].
    pub fn advance_time(&mut self)
        requires
            old(self)@.valid(),
            old(self)@.state.view_number < u64::MAX,
        ensures
            final(self)@.valid(),
            final(self)@.state.view_number >= old(self)@.state.view_number,
            final(self)@ == old(self)@.on_tick(),
    {
        let ticks = if self.state.ticks_since_last_commit < u64::MAX {
            self.state.ticks_since_last_commit + 1
        } else {
            u64::MAX
        };
        let normal = self.state.status == ReplicaStatus::Normal;
        let primary = self.cluster.current_primary(self.state.view_number) == self.identity;
        if normal && primary && ticks >= self.timeouts.heartbeat {
            let commit_message = self.new_message(
                ClusterMessage::Commit(
                    CommitMessage {
                        view_number: self.state.view_number,
                        commit_number: self.state.commit_number,
                    },
                ),
            );
            let _ = self.cluster.broadcast(commit_message);
            self.state.ticks_since_last_commit = 0;
        } else if normal && !primary && ticks > self.timeouts.view_change {
            self.start_view_change(self.state.view_number + 1);
        } else {
            self.state.ticks_since_last_commit = ticks;
        }
    }

    /// Moves to the view `view_number` to change views, and asks the other
    /// replicas to do so too.
    fn start_view_change(&mut self, view_number: u64)
        requires
            old(self)@.valid(),
            view_number >= old(self)@.state.view_number,
        ensures
            final(self)@.valid(),
            final(self)@ == old(self)@.in_view_change(view_number),
    {
        self.state.view_number = view_number;
        self.state.status = ReplicaStatus::ViewChange;
        self.state.ticks_since_last_commit = 0;
        self.handed_over = false;
        self.best = None;
        let message = self.new_message(
            ClusterMessage::StartViewChange(
                StartViewChangeMessage { replica: self.identity, view_number },
            ),
        );
        let _ = self.cluster.broadcast(message);
    }

    /// The commit number that the primary's `commit_number` asks of this
    /// backup.
    fn catch_up_target(&self, commit_number: u64) -> (target: u64)
        requires
            self@.valid(),
        ensures
            target == self@.catch_up(self@.state.view_number, commit_number),
            self@.state.commit_number <= target <= self@.log.end(),
    {
        let last = self.op_log.current_size_with_offset();
        if self.state.status != ReplicaStatus::Normal || commit_number
            <= self.state.commit_number {
            self.state.commit_number
        } else if commit_number <= last {
            commit_number
        } else {
            last
        }
    }

    /// Commits the entries up to the op number `up_to_operation`: hands
    /// their operations to the state machine, in log order and in one batch,
    /// and attaches the results to the clients' requests. Where nothing is
    /// left to commit the state machine is not called. If the state machine
    /// fails, nothing is committed.
    fn commit(&mut self, up_to_operation: u64) -> (result: ReplicaResult<()>)
        requires
            old(self)@.valid(),
            old(self)@.state.commit_number <= up_to_operation <= old(self)@.log.end(),
        ensures
            final(self)@.valid(),
            match result {
                Ok(()) => exists|responses: Seq<OR>|
                    final(self)@ == #[trigger] old(self)@.committed(up_to_operation, responses),
                Err(error) => error is StateIssue && final(self)@ == old(self)@ && up_to_operation
                    > old(self)@.state.commit_number,
            },
    {
        let ghost before = self@;
        let mut entries: Vec<LogEntry<Rc<O>>> = Vec::new();
        let mut operations: Vec<Rc<O>> = Vec::new();
        let mut index: u64 = self.state.commit_number;
        while index < up_to_operation
            invariant
                self@ == before,
                before.valid(),
                before.state.commit_number <= index <= up_to_operation <= before.log.end(),
                entries@ == before.pending(index as int),
                operations@ == entries@.map_values(|entry: LogEntry<Rc<O>>| entry.operation),
            decreases up_to_operation - index,
        {
            let entry = self.op_log.get(index).unwrap();
            operations.push(share(&entry.operation));
            entries.push(entry.duplicate());
            proof {
                assert(before.pending(index + 1) == before.pending(index as int).push(
                    before.log.at(index as int),
                ));
                assert(operations@ == entries@.map_values(
                    |entry: LogEntry<Rc<O>>| entry.operation,
                ));
            }
            index += 1;
        }
        if entries.len() == 0 {
            proof {
                let unanswered = Seq::<OR>::empty();
                assert(before.applied + before.pending(up_to_operation as int).map_values(
                    |entry: LogEntry<Rc<O>>| entry.operation,
                ) == before.applied);
                assert(self@ == before.committed(up_to_operation, unanswered));
            }
            return Ok(());
        }
        match self.state_machine.apply_operations(operations.as_slice()) {
            Err(error) => Err(ReplicaError::StateIssue(error)),
            Ok(responses) => {
                let ghost given = responses@;
                self.client_log.answer_all(&entries, responses);
                self.state.commit_number = up_to_operation;
                self.applied = Ghost(self.applied@ + operations@);
                proof {
                    assert(self@ == before.committed(up_to_operation, given));
                    assert forall|i: int| 0 <= i < self@.applied.len() implies self@.applied[i] == (
                    #[trigger] self@.log.entries[i]).operation by {
                        if i >= before.applied.len() {
                            assert(self@.applied[i] == operations@[i - before.applied.len()]);
                        }
                    }
                }
                Ok(())
            },
        }
    }

    fn new_message(&self, content: ClusterMessage<Rc<O>>) -> (message: ClusterMessageEnvelope<Rc<O>>)
        ensures
            message == self@.envelope(content),
    {
        ClusterMessageEnvelope { sender: self.identity, content }
    }

    fn new_prepare_ok_message(&self) -> (message: ClusterMessageEnvelope<Rc<O>>)
        ensures
            message == self@.prepare_ok(),
    {
        self.new_message(
            ClusterMessage::PrepareOk(
                PrepareOkMessage {
                    replica: self.identity,
                    view_number: self.state.view_number,
                    op_number: self.op_log.current_size_with_offset(),
                },
            ),
        )
    }
}

} // verus!
