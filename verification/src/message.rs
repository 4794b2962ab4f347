//! The messages that replicas exchange, and the request a client sends.

use std::rc::Rc;
use vstd::prelude::*;

use crate::replica::client::ClientIdentity;
use crate::replica::ReplicaIdentity;

verus! {

pub type BatchedClusterMessage<T> = Batch<ClusterMessageEnvelope<T>>;

/// Messages for one recipient, in the order in which they were sent.
pub struct Batch<T>(Vec<T>);

impl<T> View for Batch<T> {
    type V = Seq<T>;

    closed spec fn view(&self) -> Seq<T> {
        self.0@
    }
}

impl<T> Batch<T> {
    pub fn new() -> (batch: Self)
        ensures
            batch@ == Seq::<T>::empty(),
    {
        Batch(Vec::new())
    }

    /// Puts `message` behind the messages of the batch.
    pub fn push(&mut self, message: T)
        ensures
            final(self)@ == old(self)@.push(message),
    {
        self.0.push(message);
    }

    pub fn len(&self) -> (length: usize)
        ensures
            length == self@.len(),
    {
        self.0.len()
    }

    /// The messages of the batch, in their order.
    pub fn into_messages(self) -> (messages: Vec<T>)
        ensures
            messages@ == self@,
    {
        self.0
    }
}

pub struct ClusterMessageEnvelope<T> {
    pub sender: ReplicaIdentity,
    pub content: ClusterMessage<T>,
}

pub enum ClusterMessage<T> {
    Prepare(PrepareMessage<T>),
    PrepareOk(PrepareOkMessage),
    Commit(CommitMessage),
    StartViewChange(StartViewChangeMessage),
    DoViewChange(DoViewChangeMessage<T>),
    StartView(StartViewMessage<T>),
}

/// The primary proposes the entry with the op number `op_number`.
pub struct PrepareMessage<T> {
    pub requesting_replica: ReplicaIdentity,
    pub view_number: u64,
    pub op_number: u64,
    pub commit_number: u64,
    pub client: ClientIdentity,
    pub request: T,
    pub request_number: u64,
}

/// A backup holds every entry up to `op_number`.
pub struct PrepareOkMessage {
    pub replica: ReplicaIdentity,
    pub view_number: u64,
    pub op_number: u64,
}

/// The primary has committed every entry up to `commit_number`.
pub struct CommitMessage {
    pub view_number: u64,
    pub commit_number: u64,
}

/// A replica asks to move to the view `view_number`.
pub struct StartViewChangeMessage {
    pub replica: ReplicaIdentity,
    pub view_number: u64,
}

/// One entry of a log, as a message carries it.
pub struct LogEntry<T> {
    pub client: ClientIdentity,
    pub request_number: u64,
    pub operation: T,
}

/// Another handle on the operation that `operation` refers to.
///
/// Trusted: this is `Rc::clone`, which makes a second pointer to the same
/// value and leaves the value alone.
#[verifier::external_body]
pub(crate) fn share<O>(operation: &Rc<O>) -> (shared: Rc<O>)
    ensures
        shared == *operation,
{
    Rc::clone(operation)
}

impl<O> LogEntry<Rc<O>> {
    /// The same entry, with another handle on its operation.
    pub fn duplicate(&self) -> (entry: Self)
        ensures
            entry == *self,
    {
        LogEntry {
            client: self.client,
            request_number: self.request_number,
            operation: share(&self.operation),
        }
    }
}

/// A replica hands its log to the primary of the view `view_number`.
pub struct DoViewChangeMessage<T> {
    pub replica: ReplicaIdentity,
    pub view_number: u64,
    /// The last view in which the sender was in normal operation.
    pub last_normal_view: u64,
    pub commit_number: u64,
    /// The op number of the first entry of `log`, less one.
    pub log_offset: u64,
    pub log: Vec<LogEntry<T>>,
}

/// The primary of the view `view_number` announces the log of that view.
pub struct StartViewMessage<T> {
    pub view_number: u64,
    pub commit_number: u64,
    /// The op number of the first entry of `log`, less one.
    pub log_offset: u64,
    pub log: Vec<LogEntry<T>>,
}

pub struct ClientMessage<T> {
    pub request_number: u64,
    pub request: T,
}

} // verus!
