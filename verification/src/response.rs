//! Iterating on the responses a query receives, and the outcome of a store
//! query.

use bytes::Bytes;
use flume::{Receiver, RecvError, Sender};

use vstd::prelude::*;

use crate::common::{Address, Id, Node};
use crate::mutable::MutableItem;
use crate::routing_table::id_eq;

verus! {

#[verifier::external_type_specification]
#[verifier::external_body]
#[verifier::reject_recursive_types(T)]
pub struct ExReceiver<T>(Receiver<T>);

#[verifier::external_type_specification]
#[verifier::external_body]
#[verifier::reject_recursive_types(T)]
pub struct ExSender<T>(Sender<T>);

#[verifier::external_type_specification]
#[verifier::external_body]
pub struct ExRecvError(RecvError);

#[verifier::external_type_specification]
#[verifier::external_body]
pub struct ExBytes(Bytes);

/// Calls `Receiver::recv`: waits for the next message of the channel, or an
/// error once every sender is gone. What arrives depends on other threads,
/// so nothing is stated of it.
#[verifier::external_body]
pub(crate) fn receive<T>(receiver: &Receiver<T>) -> (message: Result<T, RecvError>) {
    receiver.recv()
}

/// A message on a query's response channel: one more value, or the end of
/// the query with its statistics.
#[derive(Clone, Debug)]
pub enum ResponseMessage<T> {
    ResponseValue(T),
    ResponseDone(ResponseDone),
}

/// The values that get queries yield.
#[derive(Debug)]
pub enum ResponseValue {
    Peer(GetPeerResponse),
    Immutable(GetImmutableResponse),
    Mutable(GetMutableResponse),
}

/// A peer found by a get_peers query, and the node that returned it.
#[derive(Clone, Copy, Debug)]
pub struct GetPeerResponse {
    pub from: Node,
    pub peer: Address,
}

/// An immutable value found by a get query, and the node that returned it.
#[derive(Debug)]
pub struct GetImmutableResponse {
    pub from: Node,
    pub value: Bytes,
}

/// A mutable item found by a get query, and the node that returned it.
#[derive(Clone, Debug)]
pub struct GetMutableResponse {
    pub from: Node,
    pub item: MutableItem,
}

/// The end of a query.
#[derive(Clone, Debug)]
pub struct ResponseDone {
    /// Number of nodes visited.
    pub visited: usize,
    /// Closest nodes in the routing table.
    pub closest_nodes: Vec<Node>,
}

/// The senders on which a query's responses are delivered.
#[derive(Debug)]
pub enum ResponseSender {
    GetPeer(Sender<ResponseMessage<GetPeerResponse>>),
    GetImmutable(Sender<ResponseMessage<GetImmutableResponse>>),
    GetMutable(Sender<ResponseMessage<GetMutableResponse>>),
    StoreItem(Sender<StoreQueryMetdata>),
}

/// The responses of a query as they arrive; once the query is done,
/// `visited` and `closest_nodes` hold its statistics.
#[derive(Debug)]
#[verifier::reject_recursive_types(T)]
pub struct Response<T> {
    /// The channel the query's responses arrive on.
    pub receiver: Receiver<ResponseMessage<T>>,
    pub closest_nodes: Vec<Node>,
    pub visited: usize,
}

/// How a response changes, and what it yields, on a message `message` from
/// its channel: a value is yielded as it is; the end of the query, or a
/// closed channel, yields nothing, and the end of the query records its
/// statistics.
pub open spec fn message_outcome<T>(before: Response<T>, after: Response<T>, message: Result<ResponseMessage<T>, RecvError>, value: Option<T>) -> bool {
    match message {
        Ok(ResponseMessage::ResponseValue(v)) => value == Some(v)
            && after.visited_count() == before.visited_count()
            && after.closest_nodes_seen() == before.closest_nodes_seen(),
        Ok(ResponseMessage::ResponseDone(done)) => value is None
            && after.visited_count() == done.visited
            && after.closest_nodes_seen() == done.closest_nodes@,
        Err(_) => value is None
            && after.visited_count() == before.visited_count()
            && after.closest_nodes_seen() == before.closest_nodes_seen(),
    }
}

impl<T> Response<T> {
    /// The number of nodes the query visited, once it is done.
    pub open spec fn visited_count(&self) -> usize {
        self.visited
    }

    /// The closest nodes the query found, once it is done.
    pub open spec fn closest_nodes_seen(&self) -> Seq<Node> {
        self.closest_nodes@
    }

    /// Starts reading the responses arriving on `receiver`.
    pub fn new(receiver: Receiver<ResponseMessage<T>>) -> (response: Response<T>)
        ensures
            response.visited_count() == 0,
            response.closest_nodes_seen() == Seq::<Node>::empty(),
    {
        Response { receiver, visited: 0, closest_nodes: Vec::new() }
    }

    /// Takes in what the channel delivered: a value is returned; the end of
    /// the query, or a closed channel, ends the iteration, and the end of
    /// the query records its statistics.
    pub fn handle_message(&mut self, message: Result<ResponseMessage<T>, RecvError>) -> (value: Option<T>)
        ensures
            message_outcome(*old(self), *final(self), message, value),
    {
        match message {
            Ok(ResponseMessage::ResponseValue(value)) => Some(value),
            Ok(ResponseMessage::ResponseDone(ResponseDone { visited, closest_nodes })) => {
                self.visited = visited;
                self.closest_nodes = closest_nodes;
                None
            },
            Err(_) => None,
        }
    }

    /// Waits for the next value of the query; `None` once the query is done
    /// (its statistics are then recorded) or its channel closed.
    pub fn next(&mut self) -> (value: Option<T>)
        ensures
            exists|message: Result<ResponseMessage<T>, RecvError>| #[trigger] message_outcome(*old(self), *final(self), message, value),
            value is Some ==> final(self).visited_count() == old(self).visited_count()
                && final(self).closest_nodes_seen() == old(self).closest_nodes_seen(),
    {
        let message = receive(&self.receiver);
        self.handle_message(message)
    }
}

/// The outcome of a store query: its target, the nodes it was sent to, and
/// the ids of those that confirmed storing.
#[derive(Clone, Debug)]
pub struct StoreQueryMetdata {
    target: Id,
    stored_at: Vec<Id>,
    closest_nodes: Vec<Node>,
}

/// The nodes of `closest_nodes`, in order, whose id is in `stored_at`.
pub open spec fn confirmed_nodes(closest_nodes: Seq<Node>, stored_at: Seq<Id>) -> Seq<Node> {
    closest_nodes.filter(|node: Node| stored_at.contains(node.id))
}

/// Copies a slice of nodes.
pub fn copy_nodes(nodes: &[Node]) -> (copy: Vec<Node>)
    ensures
        copy@ == nodes@,
{
    let mut out: Vec<Node> = Vec::new();
    let mut i: usize = 0;
    while i < nodes.len()
        invariant
            i <= nodes@.len(),
            out@ == nodes@.subrange(0, i as int),
        decreases nodes@.len() - i,
    {
        out.push(nodes[i]);
        assert(nodes@.subrange(0, i + 1) =~= nodes@.subrange(0, i as int).push(nodes@[i as int]));
        i = i + 1;
    }
    assert(nodes@.subrange(0, nodes@.len() as int) =~= nodes@);
    out
}

/// Whether `ids` holds `id`.
pub fn contains_id(ids: &[Id], id: &Id) -> (found: bool)
    ensures
        found == ids@.contains(*id),
{
    let mut i: usize = 0;
    while i < ids.len()
        invariant
            i <= ids@.len(),
            forall|j: int| 0 <= j < i ==> ids@[j] != *id,
        decreases ids@.len() - i,
    {
        if id_eq(&ids[i], id) {
            assert(ids@[i as int] == *id);
            return true;
        }
        i = i + 1;
    }
    false
}

impl StoreQueryMetdata {
    /// Records the outcome of a store query.
    pub fn new(target: Id, closest_nodes: Vec<Node>, stored_at: Vec<Id>) -> (metadata: StoreQueryMetdata)
        ensures
            metadata.target_view() == target,
            metadata.closest_nodes_view() == closest_nodes@,
            metadata.stored_at_view() == stored_at@,
    {
        StoreQueryMetdata { target, closest_nodes, stored_at }
    }

    /// The target of the query.
    pub closed spec fn target_view(&self) -> Id {
        self.target
    }

    /// The ids of the nodes that confirmed storing.
    pub closed spec fn stored_at_view(&self) -> Seq<Id> {
        self.stored_at@
    }

    /// The nodes the store request was sent to.
    pub closed spec fn closest_nodes_view(&self) -> Seq<Node> {
        self.closest_nodes@
    }

    /// Return the target (or info_hash) for this query.
    pub fn target(&self) -> (target: Id)
        ensures
            target == self.target_view(),
    {
        self.target
    }

    /// Return the set of nodes that confirmed storing the value.
    pub fn stored_at(&self) -> (nodes: Vec<Node>)
        ensures
            nodes@ == confirmed_nodes(self.closest_nodes_view(), self.stored_at_view()),
    {
        let ghost pred = |node: Node| self.stored_at@.contains(node.id);
        let mut out: Vec<Node> = Vec::new();
        let mut i: usize = 0;
        while i < self.closest_nodes.len()
            invariant
                i <= self.closest_nodes@.len(),
                pred == (|node: Node| self.stored_at@.contains(node.id)),
                out@ == self.closest_nodes@.take(i as int).filter(pred),
            decreases self.closest_nodes@.len() - i,
        {
            proof {
                reveal_with_fuel(Seq::<_>::filter, 1);
                assert(self.closest_nodes@.take(i + 1).drop_last() =~= self.closest_nodes@.take(i as int));
            }
            let node = self.closest_nodes[i];
            if contains_id(self.stored_at.as_slice(), &node.id) {
                out.push(node);
            }
            i = i + 1;
        }
        assert(self.closest_nodes@.take(self.closest_nodes@.len() as int) =~= self.closest_nodes@);
        out
    }

    /// Return closest nodes. Useful to repeat the store operation without repeating the lookup.
    pub fn closest_nodes(&self) -> (nodes: Vec<Node>)
        ensures
            nodes@ == self.closest_nodes_view(),
    {
        copy_nodes(self.closest_nodes.as_slice())
    }
}

} // verus!
