//! Changing views: how the replicas give up a primary, agree on the next
//! view, and bring the most complete log into it.

use std::rc::Rc;
use vstd::prelude::*;

use super::client::{recorded_all, ClientOperation};
use super::quorum::{quorate, raised, Tally};
use super::{Replica, ReplicaError, ReplicaIdentity, ReplicaResult, ReplicaState, ReplicaStatus, ReplicaView};
use crate::log::{Log, LogView};
use crate::message::{
    share, ClusterMessage, DoViewChangeMessage, LogEntry, StartViewChangeMessage,
    StartViewMessage,
};
use crate::state::StateMachine;

verus! {

/// Whether the log of a replica that was last in normal operation in
/// `view` and whose log ends at `end` is more complete than that of
/// `other_view` and `other_end`: the later view decides, and between logs of
/// one view the longer log.
pub open spec fn more_complete(view: u64, end: int, other_view: u64, other_end: int) -> bool {
    view > other_view || (view == other_view && end > other_end)
}

/// Of two logs that differ in view or length one is more complete than the
/// other.
pub proof fn more_complete_decides(view: u64, end: int, other_view: u64, other_end: int)
    ensures
        more_complete(view, end, other_view, other_end) || more_complete(
            other_view,
            other_end,
            view,
            end,
        ) || (view == other_view && end == other_end),
        !(more_complete(view, end, other_view, other_end) && more_complete(
            other_view,
            other_end,
            view,
            end,
        )),
{
}

/// What is more complete than a log is more complete than every log that
/// this one is more complete than.
pub proof fn more_complete_carries_on(
    view: u64,
    end: int,
    middle_view: u64,
    middle_end: int,
    other_view: u64,
    other_end: int,
)
    requires
        more_complete(view, end, middle_view, middle_end),
        more_complete(middle_view, middle_end, other_view, other_end),
    ensures
        more_complete(view, end, other_view, other_end),
{
}

/// Whether a message carries a log: `entries` from the index `log_offset`
/// on, of which `commit_number` entries are committed, those before
/// `log_offset` counted.
pub open spec fn carries_a_log<O>(
    log_offset: u64,
    entries: Seq<LogEntry<Rc<O>>>,
    commit_number: u64,
) -> bool {
    log_offset <= commit_number <= log_offset + entries.len() <= u64::MAX
}

impl<O, OR> ReplicaView<O, OR> {
    /// The primary of the view `view_number`.
    pub open spec fn primary_in(self, view_number: u64) -> ReplicaIdentity {
        self.members[view_number as int % self.members.len() as int]
    }

    /// Whether `replica` is another member of the cluster.
    pub open spec fn is_peer(self, replica: ReplicaIdentity) -> bool {
        self.members.contains(replica) && replica != self.identity
    }

    /// Whether the replica can still change to the view `view_number`: the
    /// view is a later one, or the one that it is changing to.
    pub open spec fn is_ahead(self, view_number: u64) -> bool {
        view_number > self.state.view_number || (view_number == self.state.view_number
            && self.state.status == ReplicaStatus::ViewChange)
    }

    /// The replica in the view `view_number`, which it joins if it is in an
    /// earlier one.
    pub open spec fn joined(self, view_number: u64) -> Self {
        if view_number > self.state.view_number {
            self.in_view_change(view_number)
        } else {
            self
        }
    }

    /// The message with which the replica hands over its log, which `log`
    /// holds.
    pub open spec fn handover(self, log: Vec<LogEntry<Rc<O>>>) -> ClusterMessage<Rc<O>> {
        ClusterMessage::DoViewChange(
            DoViewChangeMessage {
                replica: self.identity,
                view_number: self.state.view_number,
                last_normal_view: self.last_normal_view,
                commit_number: self.state.commit_number,
                log_offset: self.log.offset as u64,
                log,
            },
        )
    }

    /// The message with which the primary announces its view and its log,
    /// which `log` holds.
    pub open spec fn announcement(self, commit_number: u64, log: Vec<LogEntry<Rc<O>>>) -> ClusterMessage<
        Rc<O>,
    > {
        ClusterMessage::StartView(
            StartViewMessage {
                view_number: self.state.view_number,
                commit_number,
                log_offset: self.log.offset as u64,
                log,
            },
        )
    }

    /// Whether the replica takes note that `replica` asks for the view
    /// `view_number`. A recovering replica takes no part, and neither a
    /// stranger's wish counts nor one for a view that is past.
    pub open spec fn heeds_vote(self, message: StartViewChangeMessage) -> bool {
        self.state.status != ReplicaStatus::Recovery && self.is_peer(message.replica)
            && self.is_ahead(message.view_number)
    }

    /// The replica after it has taken note of the wish in `message`: it is
    /// in the view that the message asks for, which it joins if that is a
    /// later one than its own.
    pub open spec fn voted(self, message: StartViewChangeMessage) -> Self {
        if self.heeds_vote(message) {
            let joined = self.joined(message.view_number);
            ReplicaView {
                votes: raised(joined.votes, message.replica, message.view_number),
                ..joined
            }
        } else {
            self
        }
    }

    /// Whether the replica is to hand over its log: a quorum of the cluster
    /// asks for its view, itself counted, it is not the primary of that
    /// view, and it has not handed over its log before.
    pub open spec fn is_to_hand_over(self) -> bool {
        self.state.status == ReplicaStatus::ViewChange && !self.handed_over && !self.is_primary()
            && quorate(self.members, self.identity, self.votes, self.state.view_number as int)
    }

    /// The replica after it has handed over its log, which `log` holds, to
    /// the primary of its view.
    pub open spec fn handing_over(self, log: Vec<LogEntry<Rc<O>>>) -> Self {
        ReplicaView { handed_over: true, ..self }.sending(
            self.primary(),
            self.envelope(self.handover(log)),
        )
    }

    /// Whether the replica takes the log that `message` hands over. A
    /// recovering replica takes none, and none from a stranger, for a view
    /// that is past, or in a message that carries no log.
    pub open spec fn heeds_handover(self, message: DoViewChangeMessage<Rc<O>>) -> bool {
        self.state.status != ReplicaStatus::Recovery && self.is_peer(message.replica)
            && self.is_ahead(message.view_number) && carries_a_log(
            message.log_offset,
            message.log@,
            message.commit_number,
        )
    }

    /// Whether the log in `message` is more complete than the best that
    /// the replica has been handed.
    pub open spec fn prefers(self, message: DoViewChangeMessage<Rc<O>>) -> bool {
        match self.best {
            None => true,
            Some(best) => more_complete(
                message.last_normal_view,
                message.log_offset + message.log@.len(),
                best.last_normal_view,
                best.log_offset + best.log@.len(),
            ),
        }
    }

    /// The replica after it has taken the log that `message` hands over.
    pub open spec fn gathered(self, message: DoViewChangeMessage<Rc<O>>) -> Self {
        if self.heeds_handover(message) {
            let joined = self.joined(message.view_number);
            ReplicaView {
                handovers: raised(joined.handovers, message.replica, message.view_number),
                best: if joined.prefers(message) {
                    Some(message)
                } else {
                    joined.best
                },
                ..joined
            }
        } else {
            self
        }
    }

    /// Whether the replica is to start its view: it is changing to it, it
    /// is its primary, and a quorum of the cluster has handed over its log
    /// for it, the replica's own log counted.
    pub open spec fn is_to_start(self) -> bool {
        self.state.status == ReplicaStatus::ViewChange && self.is_primary() && quorate(
            self.members,
            self.identity,
            self.handovers,
            self.state.view_number as int,
        )
    }

    /// The log that the replica takes into the view that it starts, if that
    /// is not its own: the best that it has been handed, if that one is more
    /// complete than its own.
    pub open spec fn selected(self) -> Option<DoViewChangeMessage<Rc<O>>> {
        match self.best {
            Some(best) if more_complete(
                best.last_normal_view,
                best.log_offset + best.log@.len(),
                self.last_normal_view,
                self.log.end() as int,
            ) => Some(best),
            _ => None,
        }
    }

    /// Whether the replica can take over the log that starts at
    /// `log_offset` with `entries`: it holds what is committed up to its own
    /// commit number, and the other log goes on from there.
    pub open spec fn can_adopt(self, log_offset: u64, entries: Seq<LogEntry<Rc<O>>>) -> bool {
        log_offset <= self.state.commit_number <= log_offset + entries.len()
    }

    /// The replica after it has taken over the log that starts at
    /// `log_offset` with `entries`: it keeps the entries that it has
    /// committed, gives up the others, and goes on with the entries of the
    /// other log, each of which it puts in its client table.
    pub open spec fn adopting(self, log_offset: u64, entries: Seq<LogEntry<Rc<O>>>) -> Self {
        let kept = self.log.entries.take(self.state.commit_number - self.log.offset);
        let taken = entries.skip(self.state.commit_number - log_offset);
        ReplicaView {
            log: LogView { offset: self.log.offset, entries: kept + taken },
            clients: recorded_all(self.clients, taken),
            ..self
        }
    }

    /// To take over a log undoes nothing that is committed: the commit
    /// number stays, every committed entry stays where it is, and so does
    /// what the state machine has applied. The log then ends where the
    /// other one ends.
    pub proof fn adopting_keeps_what_is_committed(
        self,
        log_offset: u64,
        entries: Seq<LogEntry<Rc<O>>>,
        index: int,
    )
        requires
            self.valid(),
            self.can_adopt(log_offset, entries),
            log_offset + entries.len() <= u64::MAX,
        ensures
            self.adopting(log_offset, entries).valid(),
            self.adopting(log_offset, entries).state == self.state,
            self.adopting(log_offset, entries).applied == self.applied,
            self.adopting(log_offset, entries).log.offset == self.log.offset,
            self.adopting(log_offset, entries).log.end() == log_offset + entries.len(),
            self.log.offset <= index < self.state.commit_number ==> self.adopting(
                log_offset,
                entries,
            ).log.at(index) == self.log.at(index),
            self.state.commit_number <= index < log_offset + entries.len() ==> self.adopting(
                log_offset,
                entries,
            ).log.at(index) == entries[index - log_offset],
    {
    }

    /// Of the logs that the replica is handed for a view it keeps one than
    /// which none is more complete: after it has taken the log in
    /// `message`, that log is not more complete than the best.
    pub proof fn gathered_keeps_the_best(self, message: DoViewChangeMessage<Rc<O>>)
        requires
            self.heeds_handover(message),
        ensures
            self.gathered(message).best matches Some(best) && !more_complete(
                message.last_normal_view,
                message.log_offset + message.log@.len(),
                best.last_normal_view,
                best.log_offset + best.log@.len(),
            ),
    {
    }

    /// The replica in normal operation in the view `view_number`, with
    /// nothing gathered and nothing acknowledged.
    pub open spec fn in_new_view(self, view_number: u64) -> Self {
        ReplicaView {
            state: ReplicaState {
                view_number,
                status: ReplicaStatus::Normal,
                ticks_since_last_commit: 0,
                ..self.state
            },
            last_normal_view: view_number,
            acknowledged: Map::empty(),
            handed_over: false,
            best: None,
            ..self
        }
    }

    /// The replica in recovery in the view `view_number`, with nothing
    /// gathered.
    pub open spec fn lost_in(self, view_number: u64) -> Self {
        ReplicaView {
            state: ReplicaState { view_number, status: ReplicaStatus::Recovery, ..self.state },
            handed_over: false,
            best: None,
            ..self
        }
    }

    /// Whether the replica, which is to start its view, can do so: its own
    /// log is the one to take, or it can take over the one that is.
    pub open spec fn can_start(self) -> bool {
        match self.selected() {
            Some(best) => self.can_adopt(best.log_offset, best.log@),
            None => true,
        }
    }

    /// The replica as the primary of its view, before it announces the view:
    /// it holds the most complete log of those that it and a quorum have,
    /// and is in normal operation.
    pub open spec fn begun(self) -> Self {
        match self.selected() {
            Some(best) => self.adopting(best.log_offset, best.log@),
            None => self,
        }.in_new_view(self.state.view_number)
    }

    /// The commit number with which the replica starts its view: its own,
    /// or that of the log it takes over if that is ahead.
    pub open spec fn commit_number_to_start(self) -> u64 {
        match self.selected() {
            Some(best) if best.commit_number > self.state.commit_number => best.commit_number,
            _ => self.state.commit_number,
        }
    }

    /// Whether the replica takes the view and the log that `message`
    /// announces: the view is a later one, or its own while it is not in
    /// normal operation, and the message carries a log.
    pub open spec fn heeds_start(self, message: StartViewMessage<Rc<O>>) -> bool {
        (message.view_number > self.state.view_number || (message.view_number
            == self.state.view_number && self.state.status != ReplicaStatus::Normal))
            && carries_a_log(message.log_offset, message.log@, message.commit_number)
    }

    /// The commit number with which the replica enters the view that
    /// `message` announces.
    pub open spec fn commit_number_to_enter(self, message: StartViewMessage<Rc<O>>) -> u64 {
        if self.heeds_start(message) && self.can_adopt(message.log_offset, message.log@)
            && message.commit_number > self.state.commit_number {
            message.commit_number
        } else {
            self.state.commit_number
        }
    }

    /// The replica after it has dealt with the announcement in `message`,
    /// before it commits what the primary has committed.
    ///
    /// The replica takes over the log of the view, goes into normal
    /// operation in it, and acknowledges the log if entries of it are not
    /// committed. If its own log does not reach the start of the one
    /// announced, it cannot take that over and is in recovery.
    pub open spec fn entered(self, message: StartViewMessage<Rc<O>>) -> Self {
        if !self.heeds_start(message) {
            self
        } else if !self.can_adopt(message.log_offset, message.log@) {
            self.lost_in(message.view_number)
        } else {
            let adopted = self.adopting(message.log_offset, message.log@).in_new_view(
                message.view_number,
            );
            if adopted.log.end() > adopted.commit_number_after(message.commit_number) {
                adopted.sending(adopted.primary(), adopted.prepare_ok())
            } else {
                adopted
            }
        }
    }

    /// The higher of the commit number and `commit_number`.
    pub open spec fn commit_number_after(self, commit_number: u64) -> u64 {
        if commit_number > self.state.commit_number {
            commit_number
        } else {
            self.state.commit_number
        }
    }
}

impl<O, OR, L, S> Replica<O, OR, L, S> where L: Log<LogEntry<Rc<O>>>, S: StateMachine<O, OR> {
    /// Handles the wish of another replica to change views.
    ///
    /// The replica takes note of the wish: see [`ReplicaView::voted`]. Once
    /// a quorum of the cluster asks for the view that it is changing to,
    /// itself counted, it hands over its log to the primary of that view.
    pub fn apply_start_view_change(&mut self, message: StartViewChangeMessage) -> (result:
        ReplicaResult<()>)
        requires
            old(self)@.valid(),
        ensures
            final(self)@.valid(),
            result is Ok,
            final(self)@.state.view_number >= old(self)@.state.view_number,
            message.view_number < old(self)@.state.view_number ==> old(self)@.voted(message) == old(
                self,
            )@,
            if old(self)@.voted(message).is_to_hand_over() {
                exists|log: Vec<LogEntry<Rc<O>>>|
                    log@ == old(self)@.log.entries && final(self)@ == #[trigger] old(self)@.voted(
                        message,
                    ).handing_over(log)
            } else {
                final(self)@ == old(self)@.voted(message)
            },
    {
        let ahead = message.view_number > self.state.view_number || (message.view_number
            == self.state.view_number && self.state.status == ReplicaStatus::ViewChange);
        if self.state.status != ReplicaStatus::Recovery && self.cluster.is_member(message.replica)
            && message.replica != self.identity && ahead {
            self.join(message.view_number);
            self.votes.record(message.replica, message.view_number);
        }
        assert(self@ == old(self)@.voted(message));
        self.hand_over_if_due();
        Ok(())
    }

    /// Handles the log that another replica hands over for a view.
    ///
    /// Only the primary of that view takes it: see
    /// [`ReplicaView::gathered`]. Once a quorum of the cluster has handed
    /// over its log, the primary's own counted, the primary starts the view:
    /// it takes the most complete of these logs for its own, goes into
    /// normal operation, announces the view with the log to the others, and
    /// commits what the log says is committed. If it cannot take the log
    /// over, because its own does not reach the start of it, it is in
    /// recovery.
    pub fn apply_do_view_change(&mut self, message: DoViewChangeMessage<Rc<O>>) -> (result:
        ReplicaResult<()>)
        requires
            old(self)@.valid(),
        ensures
            final(self)@.valid(),
            result is Err ==> final(self)@.state.commit_number == old(self)@.state.commit_number
                && final(self)@.applied == old(self)@.applied,
            final(self)@.state.view_number >= old(self)@.state.view_number,
            message.view_number < old(self)@.state.view_number ==> old(self)@.gathered(message)
                == old(self)@,
            old(self)@.primary_in(message.view_number) != old(self)@.identity ==> result == Err::<
                (),
                ReplicaError,
            >(ReplicaError::NotPrimary) && final(self)@ == old(self)@,
            old(self)@.primary_in(message.view_number) == old(self)@.identity ==> {
                let gathered = old(self)@.gathered(message);
                if !gathered.is_to_start() {
                    result is Ok && final(self)@ == gathered
                } else if !gathered.can_start() {
                    result is Ok && final(self)@ == gathered.lost_in(gathered.state.view_number)
                } else {
                    let begun = gathered.begun();
                    let target = gathered.commit_number_to_start();
                    match result {
                        Ok(()) => exists|log: Vec<LogEntry<Rc<O>>>, responses: Seq<OR>|
                            log@ == begun.log.entries && final(self)@ == #[trigger] begun.broadcasting(
                                begun.announcement(target, log),
                            ).committed(target, responses),
                        Err(error) => error is StateIssue && target > begun.state.commit_number
                            && exists|log: Vec<LogEntry<Rc<O>>>|
                            log@ == begun.log.entries && final(self)@ == #[trigger] begun.broadcasting(
                                begun.announcement(target, log),
                            ),
                    }
                }
            },
    {
        if self.cluster.current_primary(message.view_number) != self.identity {
            return Err(ReplicaError::NotPrimary);
        }
        let ahead = message.view_number > self.state.view_number || (message.view_number
            == self.state.view_number && self.state.status == ReplicaStatus::ViewChange);
        if self.state.status != ReplicaStatus::Recovery && self.cluster.is_member(message.replica)
            && message.replica != self.identity && ahead && Self::carries(
            message.log_offset,
            &message.log,
            message.commit_number,
        ) {
            self.join(message.view_number);
            self.handovers.record(message.replica, message.view_number);
            let better = match &self.best {
                None => true,
                Some(best) => Self::is_more_complete(
                    message.last_normal_view,
                    message.log_offset + message.log.len() as u64,
                    best.last_normal_view,
                    best.log_offset + best.log.len() as u64,
                ),
            };
            if better {
                self.best = Some(message);
            }
        }
        assert(self@ == old(self)@.gathered(message));
        if self.state.status == ReplicaStatus::ViewChange && self.is_primary()
            && self.handovers.has_quorum(&self.cluster, self.identity, self.state.view_number) {
            self.start_view()
        } else {
            Ok(())
        }
    }

    /// Handles the announcement of a view by its primary.
    ///
    /// The primary of that view refuses it. What another replica does with
    /// it is in [`ReplicaView::entered`]. It then commits what the primary
    /// has committed.
    pub fn apply_start_view(&mut self, message: StartViewMessage<Rc<O>>) -> (result: ReplicaResult<
        (),
    >)
        requires
            old(self)@.valid(),
        ensures
            final(self)@.valid(),
            result is Err ==> final(self)@.state.commit_number == old(self)@.state.commit_number
                && final(self)@.applied == old(self)@.applied,
            final(self)@.state.view_number >= old(self)@.state.view_number,
            message.view_number < old(self)@.state.view_number ==> final(self)@ == old(self)@,
            old(self)@.primary_in(message.view_number) == old(self)@.identity ==> result == Err::<
                (),
                ReplicaError,
            >(ReplicaError::NotForPrimary) && final(self)@ == old(self)@,
            old(self)@.primary_in(message.view_number) != old(self)@.identity ==> {
                let entered = old(self)@.entered(message);
                let target = old(self)@.commit_number_to_enter(message);
                match result {
                    Ok(()) => exists|responses: Seq<OR>|
                        final(self)@ == #[trigger] entered.committed(target, responses),
                    Err(error) => error is StateIssue && final(self)@ == entered && target
                        > entered.state.commit_number,
                }
            },
    {
        if self.cluster.current_primary(message.view_number) == self.identity {
            return Err(ReplicaError::NotForPrimary);
        }
        let due = message.view_number > self.state.view_number || (message.view_number
            == self.state.view_number && self.state.status != ReplicaStatus::Normal);
        if !due || !Self::carries(message.log_offset, &message.log, message.commit_number) {
            proof {
                assert(!old(self)@.heeds_start(message));
                assert(old(self)@.entered(message) == self@);
                assert(old(self)@.commit_number_to_enter(message) == self@.state.commit_number);
                self@.committed_nothing();
            }
            return Ok(());
        }
        let end = message.log_offset + message.log.len() as u64;
        if message.log_offset > self.state.commit_number || self.state.commit_number > end {
            self.state.view_number = message.view_number;
            self.state.status = ReplicaStatus::Recovery;
            self.handed_over = false;
            self.best = None;
            proof {
                assert(old(self)@.heeds_start(message));
                assert(!old(self)@.can_adopt(message.log_offset, message.log@));
                assert(old(self)@.entered(message) == self@);
                assert(old(self)@.commit_number_to_enter(message) == self@.state.commit_number);
                self@.committed_nothing();
            }
            return Ok(());
        }
        assert(old(self)@.heeds_start(message));
        assert(old(self)@.can_adopt(message.log_offset, message.log@));
        self.adopt(message.log_offset, &message.log);
        self.settle_in(message.view_number);
        let target = if message.commit_number > self.state.commit_number {
            message.commit_number
        } else {
            self.state.commit_number
        };
        if self.op_log.current_size_with_offset() > target {
            let primary = self.cluster.current_primary(self.state.view_number);
            let _ = self.cluster.send(primary, self.new_prepare_ok_message());
        }
        assert(self@ == old(self)@.entered(message));
        assert(target == old(self)@.commit_number_to_enter(message));
        self.commit(target)
    }

    /// Whether a message with these fields carries a log.
    fn carries(log_offset: u64, entries: &Vec<LogEntry<Rc<O>>>, commit_number: u64) -> (carries:
        bool)
        ensures
            carries == carries_a_log(log_offset, entries@, commit_number),
    {
        let length = entries.len() as u64;
        log_offset <= commit_number && length <= u64::MAX - log_offset && commit_number
            <= log_offset + length
    }

    fn is_more_complete(view: u64, end: u64, other_view: u64, other_end: u64) -> (more: bool)
        ensures
            more == more_complete(view, end as int, other_view, other_end as int),
    {
        view > other_view || (view == other_view && end > other_end)
    }

    /// Joins the view `view_number` if it is a later one.
    fn join(&mut self, view_number: u64)
        requires
            old(self)@.valid(),
        ensures
            final(self)@.valid(),
            final(self)@ == old(self)@.joined(view_number),
    {
        if view_number > self.state.view_number {
            self.start_view_change(view_number);
        }
    }

    /// Goes into normal operation in the view `view_number`.
    fn settle_in(&mut self, view_number: u64)
        requires
            old(self)@.valid(),
        ensures
            final(self)@.valid(),
            final(self)@ == old(self)@.in_new_view(view_number),
    {
        self.state.view_number = view_number;
        self.state.status = ReplicaStatus::Normal;
        self.state.ticks_since_last_commit = 0;
        self.last_normal_view = view_number;
        self.acknowledged = Tally::new();
        self.handed_over = false;
        self.best = None;
    }

    /// Hands over the log to the primary of the view, if that is due.
    fn hand_over_if_due(&mut self)
        requires
            old(self)@.valid(),
        ensures
            final(self)@.valid(),
            final(self)@.state.view_number == old(self)@.state.view_number,
            if old(self)@.is_to_hand_over() {
                exists|log: Vec<LogEntry<Rc<O>>>|
                    log@ == old(self)@.log.entries && final(self)@ == #[trigger] old(
                        self,
                    )@.handing_over(log)
            } else {
                final(self)@ == old(self)@
            },
    {
        if self.state.status == ReplicaStatus::ViewChange && !self.handed_over {
            let primary = self.cluster.current_primary(self.state.view_number);
            if primary != self.identity && self.votes.has_quorum(
                &self.cluster,
                self.identity,
                self.state.view_number,
            ) {
                let log = self.log_entries();
                let ghost handed = log;
                let message = self.new_message(
                    ClusterMessage::DoViewChange(
                        DoViewChangeMessage {
                            replica: self.identity,
                            view_number: self.state.view_number,
                            last_normal_view: self.last_normal_view,
                            commit_number: self.state.commit_number,
                            log_offset: self.op_log.current_offset(),
                            log,
                        },
                    ),
                );
                self.handed_over = true;
                let _ = self.cluster.send(primary, message);
                assert(self@ == old(self)@.handing_over(handed));
            }
        }
    }

    /// Starts the view as its primary.
    fn start_view(&mut self) -> (result: ReplicaResult<()>)
        requires
            old(self)@.valid(),
            old(self)@.state.status == ReplicaStatus::ViewChange,
        ensures
            final(self)@.valid(),
            final(self)@.state.view_number == old(self)@.state.view_number,
            if !old(self)@.can_start() {
                result is Ok && final(self)@ == old(self)@.lost_in(old(self)@.state.view_number)
            } else {
                let begun = old(self)@.begun();
                let target = old(self)@.commit_number_to_start();
                match result {
                    Ok(()) => exists|log: Vec<LogEntry<Rc<O>>>, responses: Seq<OR>|
                        log@ == begun.log.entries && final(self)@ == #[trigger] begun.broadcasting(
                            begun.announcement(target, log),
                        ).committed(target, responses),
                    Err(error) => error is StateIssue && target > begun.state.commit_number
                        && exists|log: Vec<LogEntry<Rc<O>>>|
                        log@ == begun.log.entries && final(self)@ == #[trigger] begun.broadcasting(
                            begun.announcement(target, log),
                        ),
                }
            },
    {
        let own_end = self.op_log.current_size_with_offset();
        let mut best: Option<DoViewChangeMessage<Rc<O>>> = None;
        std::mem::swap(&mut best, &mut self.best);
        let mut target = self.state.commit_number;
        match best {
            Some(best) => {
                let end = best.log_offset + best.log.len() as u64;
                if Self::is_more_complete(
                    best.last_normal_view,
                    end,
                    self.last_normal_view,
                    own_end,
                ) {
                    assert(old(self)@.selected() == Some(best));
                    if best.log_offset > self.state.commit_number || self.state.commit_number
                        > end {
                        self.state.status = ReplicaStatus::Recovery;
                        self.handed_over = false;
                        assert(!old(self)@.can_start());
                        assert(self@ == old(self)@.lost_in(old(self)@.state.view_number));
                        return Ok(());
                    }
                    self.adopt(best.log_offset, &best.log);
                    if best.commit_number > target {
                        target = best.commit_number;
                    }
                }
            },
            None => {},
        }
        self.settle_in(self.state.view_number);
        assert(old(self)@.can_start());
        assert(target == old(self)@.commit_number_to_start());
        assert(self@ == old(self)@.begun());
        let log = self.log_entries();
        let ghost announced = log;
        let announcement = self.new_message(
            ClusterMessage::StartView(
                StartViewMessage {
                    view_number: self.state.view_number,
                    commit_number: target,
                    log_offset: self.op_log.current_offset(),
                    log,
                },
            ),
        );
        let _ = self.cluster.broadcast(announcement);
        assert(self@ == old(self)@.begun().broadcasting(
            old(self)@.begun().announcement(target, announced),
        ));
        self.commit(target)
    }

    /// The entries of the log, in log order.
    fn log_entries(&self) -> (entries: Vec<LogEntry<Rc<O>>>)
        ensures
            entries@ == self@.log.entries,
    {
        let first = self.op_log.current_offset();
        let end = self.op_log.current_size_with_offset();
        let mut entries: Vec<LogEntry<Rc<O>>> = Vec::new();
        let mut index: u64 = first;
        while index < end
            invariant
                first <= index <= end,
                first == self@.log.offset,
                end == self@.log.end(),
                entries@ == self@.log.entries.take(index - first),
            decreases end - index,
        {
            let entry = self.op_log.get(index).unwrap();
            entries.push(entry.duplicate());
            proof {
                assert(self@.log.entries.take(index + 1 - first) == self@.log.entries.take(
                    index - first,
                ).push(self@.log.at(index as int)));
            }
            index += 1;
        }
        proof {
            assert(self@.log.entries.take(end - first) == self@.log.entries);
        }
        entries
    }

    /// Takes over the log that starts at `log_offset` with `entries`.
    fn adopt(&mut self, log_offset: u64, entries: &Vec<LogEntry<Rc<O>>>)
        requires
            old(self)@.valid(),
            old(self)@.can_adopt(log_offset, entries@),
            log_offset + entries.len() <= u64::MAX,
        ensures
            final(self)@.valid(),
            final(self)@ == old(self)@.adopting(log_offset, entries@),
    {
        let committed = self.state.commit_number;
        if committed < self.op_log.current_size_with_offset() {
            let _ = self.op_log.trim_end(committed);
        }
        let ghost kept = old(self)@.log.entries.take(committed - old(self)@.log.offset);
        assert(self@.log.entries == kept);
        let start: usize = (committed - log_offset) as usize;
        let mut position: usize = start;
        while position < entries.len()
            invariant
                start <= position <= entries.len(),
                start == committed - log_offset,
                log_offset + entries.len() <= u64::MAX,
                committed == old(self)@.state.commit_number,
                kept == old(self)@.log.entries.take(committed - old(self)@.log.offset),
                old(self)@.valid(),
                self@ == (ReplicaView {
                    log: LogView {
                        offset: old(self)@.log.offset,
                        entries: kept + entries@.subrange(start as int, position as int),
                    },
                    clients: recorded_all(
                        old(self)@.clients,
                        entries@.subrange(start as int, position as int),
                    ),
                    ..old(self)@
                }),
            decreases entries.len() - position,
        {
            let entry = &entries[position];
            let _ = self.op_log.push(entry.duplicate());
            self.client_log.record(
                entry.client,
                ClientOperation {
                    request_number: entry.request_number,
                    operation: share(&entry.operation),
                    response: None,
                },
            );
            proof {
                let before = entries@.subrange(start as int, position as int);
                let after = entries@.subrange(start as int, position + 1);
                assert(after.drop_last() == before);
                assert(after.last() == entries@[position as int]);
                assert(kept + after == (kept + before).push(entries@[position as int]));
            }
            position += 1;
        }
        proof {
            assert(entries@.subrange(start as int, entries@.len() as int) == entries@.skip(
                start as int,
            ));
        }
    }
}

} // verus!
