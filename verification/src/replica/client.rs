//! Clients and the record a replica keeps of each client's latest request.

use std::collections::BTreeMap;
use std::rc::Rc;
use vstd::prelude::*;

use crate::message::{ClientMessage, LogEntry};

verus! {

#[derive(Debug, PartialEq, Eq, PartialOrd, Ord, Clone, Copy, Structural)]
pub struct ClientIdentity {
    pub id: u64,
}

/// A client's request as a replica holds it: the request number, the
/// operation, and the response once the operation is committed and applied.
pub struct ClientOperation<O, OR> {
    pub request_number: u64,
    pub operation: O,
    pub response: Option<OR>,
}

impl<O, OR> From<ClientMessage<O>> for ClientOperation<O, OR> {
    fn from(value: ClientMessage<O>) -> (operation: Self) {
        Self { request_number: value.request_number, operation: value.request, response: None }
    }
}

impl<O, OR> vstd::std_specs::convert::FromSpecImpl<ClientMessage<O>> for ClientOperation<O, OR> {
    open spec fn obeys_from_spec() -> bool {
        true
    }

    open spec fn from_spec(value: ClientMessage<O>) -> Self {
        ClientOperation {
            request_number: value.request_number,
            operation: value.request,
            response: None,
        }
    }
}

impl<O, OR> From<ClientMessage<O>> for ClientOperation<Rc<O>, OR> {
    fn from(value: ClientMessage<O>) -> (operation: Self) {
        Self {
            request_number: value.request_number,
            operation: Rc::new(value.request),
            response: None,
        }
    }
}

impl<O, OR> vstd::std_specs::convert::FromSpecImpl<ClientMessage<O>> for ClientOperation<Rc<O>, OR> {
    open spec fn obeys_from_spec() -> bool {
        true
    }

    open spec fn from_spec(value: ClientMessage<O>) -> Self {
        ClientOperation {
            request_number: value.request_number,
            operation: Rc::new(value.request),
            response: None,
        }
    }
}

/// What a replica makes of a request number, given the record it holds of
/// the client.
#[derive(Debug, Clone, Copy, PartialEq, Eq, Structural)]
pub enum Admission {
    /// The replica holds no record of the client, or one with a lower
    /// request number: the request is new.
    Fresh,
    /// The replica holds this very request number: the request was
    /// accepted before.
    Repeated,
    /// The replica holds the higher request number `held`: the client has
    /// gone back.
    Regressed { held: u64 },
}

/// The decision on the request number `request_number` of `client`.
pub open spec fn admission_of<O, OR>(
    records: Map<u64, ClientOperation<Rc<O>, OR>>,
    client: ClientIdentity,
    request_number: u64,
) -> Admission {
    if !records.contains_key(client.id) || records[client.id].request_number < request_number {
        Admission::Fresh
    } else if records[client.id].request_number == request_number {
        Admission::Repeated
    } else {
        Admission::Regressed { held: records[client.id].request_number }
    }
}

/// The response that is held for the request `request_number` of `client`:
/// there is one once the request is committed and applied, as long as it is
/// the client's latest.
pub open spec fn held_response<O, OR>(
    records: Map<u64, ClientOperation<Rc<O>, OR>>,
    client: ClientIdentity,
    request_number: u64,
) -> Option<OR> {
    if records.contains_key(client.id) && records[client.id].request_number == request_number {
        records[client.id].response
    } else {
        None
    }
}

/// The records after `response` has come in for the request
/// `request_number` of `client`: the record takes it if it still is of that
/// request, and nothing changes if the client has moved on or is unknown.
pub open spec fn answered<O, OR>(
    records: Map<u64, ClientOperation<Rc<O>, OR>>,
    client: ClientIdentity,
    request_number: u64,
    response: OR,
) -> Map<u64, ClientOperation<Rc<O>, OR>> {
    if records.contains_key(client.id) && records[client.id].request_number == request_number {
        records.insert(
            client.id,
            ClientOperation {
                request_number,
                operation: records[client.id].operation,
                response: Some(response),
            },
        )
    } else {
        records
    }
}

/// The records after the responses to `entries` have come in, the first
/// response for the first entry and so on. A response without an entry
/// goes nowhere, and an entry without a response stays unanswered.
pub open spec fn answered_all<O, OR>(
    records: Map<u64, ClientOperation<Rc<O>, OR>>,
    entries: Seq<LogEntry<Rc<O>>>,
    responses: Seq<OR>,
) -> Map<u64, ClientOperation<Rc<O>, OR>>
    decreases responses.len(),
{
    if responses.len() == 0 {
        records
    } else {
        let before = answered_all(records, entries, responses.drop_last());
        let at = responses.len() - 1;
        if at < entries.len() {
            answered(before, entries[at].client, entries[at].request_number, responses.last())
        } else {
            before
        }
    }
}

/// The records after the requests of `entries` have been put in, the first
/// entry first: each takes the place of whatever was held of its client.
pub open spec fn recorded_all<O, OR>(
    records: Map<u64, ClientOperation<Rc<O>, OR>>,
    entries: Seq<LogEntry<Rc<O>>>,
) -> Map<u64, ClientOperation<Rc<O>, OR>>
    decreases entries.len(),
{
    if entries.len() == 0 {
        records
    } else {
        recorded_all(records, entries.drop_last()).insert(
            entries.last().client.id,
            ClientOperation {
                request_number: entries.last().request_number,
                operation: entries.last().operation,
                response: None,
            },
        )
    }
}

/// The latest request of each client, by the client's identity.
pub struct ClientTable<O, OR> {
    records: BTreeMap<u64, ClientOperation<Rc<O>, OR>>,
}

impl<O, OR> View for ClientTable<O, OR> {
    type V = Map<u64, ClientOperation<Rc<O>, OR>>;

    closed spec fn view(&self) -> Self::V {
        self.records@
    }
}

impl<O, OR> ClientTable<O, OR> {
    pub fn new() -> (table: Self)
        ensures
            table@ == Map::<u64, ClientOperation<Rc<O>, OR>>::empty(),
    {
        Self { records: BTreeMap::new() }
    }

    pub fn admission(&self, client: ClientIdentity, request_number: u64) -> (admission: Admission)
        ensures
            admission == admission_of(self@, client, request_number),
    {
        match self.records.get(&client.id) {
            None => Admission::Fresh,
            Some(record) => {
                if record.request_number < request_number {
                    Admission::Fresh
                } else if record.request_number == request_number {
                    Admission::Repeated
                } else {
                    Admission::Regressed { held: record.request_number }
                }
            },
        }
    }

    /// Puts `operation` in the place of whatever the table held of `client`.
    pub fn record(&mut self, client: ClientIdentity, operation: ClientOperation<Rc<O>, OR>)
        ensures
            final(self)@ == old(self)@.insert(client.id, operation),
    {
        self.records.insert(client.id, operation);
    }

    /// Attaches `response` to the request `request_number` of `client`.
    pub fn answer(&mut self, client: ClientIdentity, request_number: u64, response: OR)
        ensures
            final(self)@ == answered(old(self)@, client, request_number, response),
    {
        match self.records.remove(&client.id) {
            None => {},
            Some(record) => {
                let ghost given = response;
                let attached = if record.request_number == request_number {
                    Some(response)
                } else {
                    record.response
                };
                self.records.insert(
                    client.id,
                    ClientOperation {
                        request_number: record.request_number,
                        operation: record.operation,
                        response: attached,
                    },
                );
                assert(self@ =~= answered(old(self)@, client, request_number, given));
            },
        }
    }

    /// Attaches each of `responses` to the request of the entry at the same
    /// place in `entries`.
    pub fn answer_all(&mut self, entries: &Vec<LogEntry<Rc<O>>>, responses: Vec<OR>)
        ensures
            final(self)@ == answered_all(old(self)@, entries@, responses@),
    {
        let ghost given = responses@;
        let total = responses.len();
        let mut place: usize = 0;
        for response in all: responses.into_iter()
            invariant
                all.seq() == given,
                given.len() == total,
                place == all.index(),
                self@ == answered_all(old(self)@, entries@, given.take(place as int)),
        {
            proof {
                assert(given.take(place + 1).drop_last() == given.take(place as int));
            }
            if place < entries.len() {
                self.answer(entries[place].client, entries[place].request_number, response);
            }
            place += 1;
        }
        proof {
            assert(given.take(place as int) == given);
        }
    }

    /// The response to the request `request_number` of `client`, for the
    /// client that asks again.
    pub fn response(&self, client: ClientIdentity, request_number: u64) -> (response: Option<&OR>)
        ensures
            match response {
                Some(held) => held_response(self@, client, request_number) == Some(*held),
                None => held_response(self@, client, request_number) is None,
            },
    {
        match self.records.get(&client.id) {
            Some(record) => {
                if record.request_number == request_number {
                    record.response.as_ref()
                } else {
                    None
                }
            },
            None => None,
        }
    }

    /// The record that the table holds of `client`.
    pub fn latest(&self, client: ClientIdentity) -> (record: Option<&ClientOperation<Rc<O>, OR>>)
        ensures
            record == if self@.contains_key(client.id) {
                Some(&self@[client.id])
            } else {
                None
            },
    {
        self.records.get(&client.id)
    }
}

} // verus!
