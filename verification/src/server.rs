//! The server side of a node: answers incoming requests (BEP_0005,
//! BEP_0044) and keeps the immutable and mutable values it is asked to store.
//!
//! The node's request filter, token issuer, peer store and custom request
//! handlers are consulted by the caller; their answers for one request are
//! handed in as a [RequestContext].

use vstd::prelude::*;
use vstd::string::*;

use crate::common::{Address, Id, Node};
use crate::encoding::push_bytes;
use crate::messages::{
    AnnouncePeerRequestArguments,
    ErrorSpecific, GetValueRequestArguments, PutImmutableRequestArguments, FindNodeResponseArguments, GetImmutableResponseArguments,
    GetMutableResponseArguments, GetPeersResponseArguments, NoMoreRecentValueResponseArguments,
    NoValuesResponseArguments, PingResponseArguments, PutMutableRequestArguments, PutRequestSpecific,
    RequestSpecific, RequestTypeSpecific, ResponseSpecific,
};
use crate::mutable::{
    immutable_matches, mutable_rejection, opt_bytes, validate_immutable, MutableItem,
    MutableItemModel, MAX_SALT_SIZE, MAX_VALUE_SIZE,
};
use crate::routing_table::{is_closest, RoutingTable, RoutingTableModel};
use crate::store::{
    immutable_capacity, immutable_entries, immutable_store_get, immutable_store_new,
    immutable_store_put, lru_put_result, mutable_capacity, mutable_entries, mutable_store_get,
    mutable_store_new, mutable_store_put, ImmutableStore, MutableStore,
};

verus! {

/// Default maximum number of info_hashes for which to store peers.
pub const MAX_INFO_HASHES: usize = 2000;
/// Default maximum number of peers to store per info_hash.
pub const MAX_PEERS: usize = 500;
/// Default maximum number of Immutable and Mutable items to store.
pub const MAX_VALUES: usize = 1000;

/// Settings for the default dht server. A limit of 0 means the default.
#[derive(Clone, Copy, Debug, PartialEq, Eq)]
pub struct ServerSettings {
    /// The maximum info_hashes for which to store peers.
    pub max_info_hashes: usize,
    /// The maximum peers to store per info_hash.
    pub max_peers_per_info_hash: usize,
    /// Maximum number of immutable values to store.
    pub max_immutable_values: usize,
    /// Maximum number of mutable values to store.
    pub max_mutable_values: usize,
}

impl Default for ServerSettings {
    fn default() -> (settings: ServerSettings)
        ensures
            settings.max_info_hashes == MAX_INFO_HASHES,
            settings.max_peers_per_info_hash == MAX_PEERS,
            settings.max_immutable_values == MAX_VALUES,
            settings.max_mutable_values == MAX_VALUES,
    {
        ServerSettings {
            max_info_hashes: MAX_INFO_HASHES,
            max_peers_per_info_hash: MAX_PEERS,
            max_immutable_values: MAX_VALUES,
            max_mutable_values: MAX_VALUES,
        }
    }
}

/// Server Response types
#[derive(Clone, Debug, PartialEq, Eq)]
pub enum ServerResponse {
    /// Normal query Response
    Response(ResponseSpecific),
    /// Error response
    Error(ErrorSpecific),
}

/// What the node's filter, token issuer, peer store and custom handlers
/// answered for the request being handled.
pub struct RequestContext {
    /// Whether the request filter lets the request through.
    pub allowed: bool,
    /// The token issued to the requester's address.
    pub token: Vec<u8>,
    /// Whether the token of a put request is valid for the requester.
    pub token_valid: bool,
    /// The peers stored for a get_peers request's info hash, if any.
    pub peers: Option<Vec<Address>>,
    /// The custom handlers' answer to a request of an unknown method.
    pub custom_response: Option<ServerResponse>,
}

/// A peer to add to the node's peer store.
#[derive(Clone, Copy, Debug, PartialEq, Eq)]
pub struct PeerAnnouncement {
    pub info_hash: Id,
    pub peer_id: Id,
    pub peer: Address,
}

/// The outcome of handling one request: the answer to send, if any, and
/// the peer to store, if the request announced one.
#[derive(Clone, Debug, PartialEq, Eq)]
pub struct HandledRequest {
    pub response: Option<ServerResponse>,
    pub announced_peer: Option<PeerAnnouncement>,
}

/// The state of a [Server] as plain values.
pub struct ServerModel {
    pub immutable_values: Map<[u8; 20], Seq<u8>>,
    pub immutable_capacity: nat,
    pub mutable_values: Map<[u8; 20], MutableItemModel>,
    pub mutable_capacity: nat,
    pub max_info_hashes: nat,
    pub max_peers_per_info_hash: nat,
}

/// Both stores are finite, within their positive capacities.
pub open spec fn server_wf(s: ServerModel) -> bool {
    &&& s.immutable_values.dom().finite()
    &&& s.immutable_values.len() <= s.immutable_capacity
    &&& s.immutable_capacity > 0
    &&& s.mutable_values.dom().finite()
    &&& s.mutable_values.len() <= s.mutable_capacity
    &&& s.mutable_capacity > 0
}

/// A server that handles incoming requests.
#[derive(Debug)]
pub struct Server {
    immutable_values: ImmutableStore,
    mutable_values: MutableStore,
    max_info_hashes: usize,
    max_peers_per_info_hash: usize,
}

impl View for Server {
    type V = ServerModel;

    closed spec fn view(&self) -> ServerModel {
        ServerModel {
            immutable_values: immutable_entries(self.immutable_values),
            immutable_capacity: immutable_capacity(self.immutable_values),
            mutable_values: mutable_entries(self.mutable_values),
            mutable_capacity: mutable_capacity(self.mutable_values),
            max_info_hashes: self.max_info_hashes as nat,
            max_peers_per_info_hash: self.max_peers_per_info_hash as nat,
        }
    }
}

/// A requested limit, or `default` when the request is 0.
pub open spec fn effective_limit(requested: usize, default: usize) -> nat {
    if requested == 0 { default as nat } else { requested as nat }
}

/// `response` is the error with `code` and `text`.
pub open spec fn is_error(response: Option<ServerResponse>, code: i32, text: Seq<char>) -> bool {
    response matches Some(ServerResponse::Error(e)) && e.code == code && e.description@ == text
}

/// `response` is a ping answer of `responder_id`.
pub open spec fn is_ping(response: Option<ServerResponse>, responder_id: Id) -> bool {
    response == Some(ServerResponse::Response(ResponseSpecific::Ping(PingResponseArguments { responder_id })))
}

/// `nodes` are the closest nodes to `target` in `table`.
pub open spec fn closest_of(nodes: Option<Vec<Node>>, table: RoutingTableModel, target: Id) -> bool {
    nodes matches Some(n) && is_closest(table.nodes, target, n@)
}

/// The answer to a get request for the mutable item under `target`,
/// given the sequence number the requester already has.
pub open spec fn mutable_lookup(response: ResponseSpecific, values: Map<[u8; 20], MutableItemModel>, table: RoutingTableModel, target: Id, seq: Option<i64>, token: Seq<u8>) -> bool {
    if values.dom().contains(target.0) {
        let item = values[target.0];
        if seq matches Some(s) && item.seq <= s {
            response matches ResponseSpecific::NoMoreRecentValue(a) && a.responder_id == table.id && a.token@ == token
                && closest_of(a.nodes, table, target) && a.seq == item.seq
        } else {
            response matches ResponseSpecific::GetMutable(a) && a.responder_id == table.id && a.token@ == token
                && closest_of(a.nodes, table, target) && a.v@ == item.value && a.k@ == item.key && a.seq == item.seq
                && a.sig@ == item.signature
        }
    } else {
        response matches ResponseSpecific::NoValues(a) && a.responder_id == table.id && a.token@ == token
            && closest_of(a.nodes, table, target)
    }
}

/// The answer to a get request for the value under `target`: an immutable
/// value when one is stored and no sequence number was asked for, else the
/// mutable lookup.
pub open spec fn value_lookup(response: Option<ServerResponse>, s: ServerModel, table: RoutingTableModel, target: Id, seq: Option<i64>, token: Seq<u8>) -> bool {
    if seq is None && s.immutable_values.dom().contains(target.0) {
        response matches Some(ServerResponse::Response(ResponseSpecific::GetImmutable(a))) && a.responder_id == table.id
            && a.token@ == token && closest_of(a.nodes, table, target) && a.v@ == s.immutable_values[target.0]
    } else {
        response matches Some(ServerResponse::Response(r)) && mutable_lookup(r, s.mutable_values, table, target, seq, token)
    }
}

/// The address a peer announces: the sender's own address when it asks for
/// the implied port, else the sender's ip with the announced port.
pub open spec fn announced_address(from: Address, port: u16, implied_port: Option<bool>) -> Address {
    if implied_port == Some(true) { from } else { Address { ip: from.ip, port } }
}

/// The stores are as they were.
pub open spec fn stores_unchanged(old_s: ServerModel, new_s: ServerModel) -> bool {
    new_s.immutable_values == old_s.immutable_values && new_s.mutable_values == old_s.mutable_values
}

/// The error, if any, with which a put of a mutable item is refused before
/// its signature is checked, given what the store holds.
pub open spec fn mutable_put_refusal(values: Map<[u8; 20], MutableItemModel>, args: PutMutableRequestArguments) -> Option<(i32, Seq<char>)> {
    if args.v@.len() > MAX_VALUE_SIZE {
        Some((205i32, "Message (v field) too big."@))
    } else if args.salt matches Some(salt) && salt@.len() > MAX_SALT_SIZE {
        Some((207i32, "salt (salt field) too big."@))
    } else if values.dom().contains(args.target.0) && (args.cas matches Some(cas) && values[args.target.0].seq != cas) {
        Some((301i32, "CAS mismatched, re-read value and try again."@))
    } else if values.dom().contains(args.target.0) && args.seq < values[args.target.0].seq {
        Some((302i32, "Sequence number less than current."@))
    } else if mutable_rejection(args.k@, args.v@, args.seq, args.sig@, opt_bytes(args.salt)) is Some {
        Some((206i32, "Invalid signature"@))
    } else {
        None
    }
}

/// The item a successful put of a mutable item stores.
pub open spec fn put_mutable_item(args: PutMutableRequestArguments) -> MutableItemModel {
    MutableItemModel {
        target: args.target,
        key: args.k@,
        value: args.v@,
        seq: args.seq,
        signature: args.sig@,
        salt: opt_bytes(args.salt),
    }
}

/// How a put request that passed the filter and the token check is handled.
pub open spec fn put_outcome(old_s: ServerModel, new_s: ServerModel, table: RoutingTableModel, from: Address, requester_id: Id, put: PutRequestSpecific, out: HandledRequest) -> bool {
    match put {
        PutRequestSpecific::AnnouncePeer(a) => {
            &&& is_ping(out.response, table.id)
            &&& out.announced_peer == Some(PeerAnnouncement {
                info_hash: a.info_hash,
                peer_id: requester_id,
                peer: announced_address(from, a.port, a.implied_port),
            })
            &&& stores_unchanged(old_s, new_s)
        },
        PutRequestSpecific::PutImmutable(a) => {
            &&& out.announced_peer is None
            &&& new_s.mutable_values == old_s.mutable_values
            &&& if a.v@.len() > MAX_VALUE_SIZE {
                is_error(out.response, 205, "Message (v field) too big."@) && stores_unchanged(old_s, new_s)
            } else if !immutable_matches(a.v@, a.target) {
                is_error(out.response, 203, "Target doesn't match the sha1 hash of v field"@) && stores_unchanged(old_s, new_s)
            } else {
                is_ping(out.response, table.id) && lru_put_result(
                    old_s.immutable_values,
                    new_s.immutable_values,
                    old_s.immutable_capacity,
                    a.target.0,
                    a.v@,
                )
            }
        },
        PutRequestSpecific::PutMutable(a) => {
            &&& out.announced_peer is None
            &&& new_s.immutable_values == old_s.immutable_values
            &&& match mutable_put_refusal(old_s.mutable_values, a) {
                Some((code, text)) => is_error(out.response, code, text) && stores_unchanged(old_s, new_s),
                None => is_ping(out.response, table.id) && lru_put_result(
                    old_s.mutable_values,
                    new_s.mutable_values,
                    old_s.mutable_capacity,
                    a.target.0,
                    put_mutable_item(a),
                ),
            }
        },
    }
}

/// How a request that passed the filter is handled.
pub open spec fn request_outcome(old_s: ServerModel, new_s: ServerModel, table: RoutingTableModel, from: Address, request: RequestSpecific, context: RequestContext, out: HandledRequest) -> bool {
    match request.request_type {
        RequestTypeSpecific::Ping => is_ping(out.response, table.id) && out.announced_peer is None && stores_unchanged(old_s, new_s),
        RequestTypeSpecific::FindNode(a) => {
            &&& out.response matches Some(ServerResponse::Response(ResponseSpecific::FindNode(r)))
                && r.responder_id == table.id && is_closest(table.nodes, a.target, r.nodes@)
            &&& out.announced_peer is None
            &&& stores_unchanged(old_s, new_s)
        },
        RequestTypeSpecific::GetPeers(a) => {
            &&& match context.peers {
                Some(peers) => out.response matches Some(ServerResponse::Response(ResponseSpecific::GetPeers(r)))
                    && r.responder_id == table.id && r.token@ == context.token@
                    && closest_of(r.nodes, table, a.info_hash) && r.values@ == peers@,
                None => out.response matches Some(ServerResponse::Response(ResponseSpecific::NoValues(r)))
                    && r.responder_id == table.id && r.token@ == context.token@
                    && closest_of(r.nodes, table, a.info_hash),
            }
            &&& out.announced_peer is None
            &&& stores_unchanged(old_s, new_s)
        },
        RequestTypeSpecific::GetValue(a) => {
            &&& value_lookup(out.response, old_s, table, a.target, a.seq, context.token@)
            &&& out.announced_peer is None
            &&& stores_unchanged(old_s, new_s)
        },
        RequestTypeSpecific::Put(p) => {
            if !context.token_valid {
                is_error(out.response, 203, "Bad token"@) && out.announced_peer is None && stores_unchanged(old_s, new_s)
            } else {
                put_outcome(old_s, new_s, table, from, request.requester_id, p.put_request_type, out)
            }
        },
        RequestTypeSpecific::GetSignedPeers(_) => is_ping(out.response, table.id) && out.announced_peer is None
            && stores_unchanged(old_s, new_s),
        RequestTypeSpecific::Unknown { .. } => {
            &&& match context.custom_response {
                Some(r) => out.response == Some(r),
                None => is_ping(out.response, table.id),
            }
            &&& out.announced_peer is None
            &&& stores_unchanged(old_s, new_s)
        },
    }
}

/// A stored immutable value is what a later get of its target returns: after
/// an accepted put of `args` (valid token, small enough, the target is the
/// SHA-1 of the value), a get of that target without a sequence number
/// answers with exactly that value.
pub proof fn lemma_immutable_read_after_write(
    s0: ServerModel,
    s1: ServerModel,
    s2: ServerModel,
    put_table: RoutingTableModel,
    put_from: Address,
    put: RequestSpecific,
    put_context: RequestContext,
    put_out: HandledRequest,
    args: PutImmutableRequestArguments,
    get_table: RoutingTableModel,
    get_from: Address,
    get: RequestSpecific,
    get_context: RequestContext,
    get_out: HandledRequest,
)
    requires
        put.request_type matches RequestTypeSpecific::Put(p) && p.put_request_type == PutRequestSpecific::PutImmutable(args),
        put_context.token_valid,
        args.v@.len() <= MAX_VALUE_SIZE,
        immutable_matches(args.v@, args.target),
        request_outcome(s0, s1, put_table, put_from, put, put_context, put_out),
        get.request_type matches RequestTypeSpecific::GetValue(g) && g.target == args.target && g.seq is None,
        request_outcome(s1, s2, get_table, get_from, get, get_context, get_out),
    ensures
        is_ping(put_out.response, put_table.id),
        get_out.response matches Some(ServerResponse::Response(ResponseSpecific::GetImmutable(r)))
            && r.v@ == args.v@ && r.responder_id == get_table.id,
{
    assert(s1.immutable_values.dom().contains(args.target.0));
    assert(s1.immutable_values[args.target.0] == args.v@);
}

/// A stored mutable item is what a later get of its target returns: after
/// an accepted put of `args`, a get of that target that asks for items
/// newer than some `seq` below the stored one (or for any item, when no
/// immutable value shares the target) answers with the stored value, key,
/// sequence number and signature; a get for items newer than the stored
/// sequence number answers that there is none.
pub proof fn lemma_mutable_read_after_write(
    s0: ServerModel,
    s1: ServerModel,
    s2: ServerModel,
    put_table: RoutingTableModel,
    put_from: Address,
    put: RequestSpecific,
    put_context: RequestContext,
    put_out: HandledRequest,
    args: PutMutableRequestArguments,
    get_table: RoutingTableModel,
    get_from: Address,
    get: RequestSpecific,
    get_args: GetValueRequestArguments,
    get_context: RequestContext,
    get_out: HandledRequest,
)
    requires
        put.request_type matches RequestTypeSpecific::Put(p) && p.put_request_type == PutRequestSpecific::PutMutable(args),
        put_context.token_valid,
        mutable_put_refusal(s0.mutable_values, args) is None,
        request_outcome(s0, s1, put_table, put_from, put, put_context, put_out),
        get.request_type == RequestTypeSpecific::GetValue(get_args),
        get_args.target == args.target,
        request_outcome(s1, s2, get_table, get_from, get, get_context, get_out),
    ensures
        is_ping(put_out.response, put_table.id),
        (match get_args.seq {
            Some(q) => q < args.seq,
            None => !s1.immutable_values.dom().contains(args.target.0),
        }) ==> (get_out.response matches Some(ServerResponse::Response(ResponseSpecific::GetMutable(r)))
                && r.v@ == args.v@ && r.k@ == args.k@ && r.seq == args.seq && r.sig@ == args.sig@),
        (get_args.seq matches Some(q) && q >= args.seq)
            ==> (get_out.response matches Some(ServerResponse::Response(ResponseSpecific::NoMoreRecentValue(r)))
                && r.seq == args.seq),
{
    assert(s1.mutable_values.dom().contains(args.target.0));
    assert(s1.mutable_values[args.target.0] == put_mutable_item(args));
}

/// A stored immutable value is found by its target: whatever state the
/// server is in, when it holds a value under `target`, a get of that target
/// without a sequence number answers with exactly that value.
pub proof fn lemma_stored_immutable_is_read(
    s0: ServerModel,
    s1: ServerModel,
    table: RoutingTableModel,
    from: Address,
    get: RequestSpecific,
    context: RequestContext,
    out: HandledRequest,
    target: Id,
)
    requires
        s0.immutable_values.dom().contains(target.0),
        get.request_type matches RequestTypeSpecific::GetValue(g) && g.target == target && g.seq is None,
        request_outcome(s0, s1, table, from, get, context, out),
    ensures
        out.response matches Some(ServerResponse::Response(ResponseSpecific::GetImmutable(r)))
            && r.v@ == s0.immutable_values[target.0] && r.responder_id == table.id && r.token@ == context.token@
            && closest_of(r.nodes, table, target),
        stores_unchanged(s0, s1),
{
}

/// A stored mutable item is found by its target: whatever state the server
/// is in, when it holds an item under the target of a get, the get answers
/// with the item's value, key, sequence number and signature when it asks
/// for items newer than some sequence number below the item's (or for any
/// item, when no immutable value shares the target), and answers that there
/// is none newer when it asks for items newer than the item's; with no
/// value at all under the target, the answer is that there are none.
pub proof fn lemma_stored_mutable_is_read(
    s0: ServerModel,
    s1: ServerModel,
    table: RoutingTableModel,
    from: Address,
    get: RequestSpecific,
    get_args: GetValueRequestArguments,
    context: RequestContext,
    out: HandledRequest,
)
    requires
        get.request_type == RequestTypeSpecific::GetValue(get_args),
        request_outcome(s0, s1, table, from, get, context, out),
    ensures
        ({
            let t = get_args.target.0;
            &&& s0.mutable_values.dom().contains(t) && (match get_args.seq {
                Some(q) => q < s0.mutable_values[t].seq,
                None => !s0.immutable_values.dom().contains(t),
            }) ==> (out.response matches Some(ServerResponse::Response(ResponseSpecific::GetMutable(r)))
                && r.v@ == s0.mutable_values[t].value && r.k@ == s0.mutable_values[t].key
                && r.seq == s0.mutable_values[t].seq && r.sig@ == s0.mutable_values[t].signature
                && r.responder_id == table.id)
            &&& s0.mutable_values.dom().contains(t) && (get_args.seq matches Some(q) && q >= s0.mutable_values[t].seq)
                ==> (out.response matches Some(ServerResponse::Response(ResponseSpecific::NoMoreRecentValue(r)))
                && r.seq == s0.mutable_values[t].seq && r.responder_id == table.id)
            &&& !s0.mutable_values.dom().contains(t) && !s0.immutable_values.dom().contains(t)
                ==> (out.response matches Some(ServerResponse::Response(ResponseSpecific::NoValues(r)))
                && r.responder_id == table.id)
        }),
        stores_unchanged(s0, s1),
{
}

/// A stored immutable value stays as it is until it leaves the store:
/// after any request, a target still held holds the same value, unless the
/// request was an accepted put of an immutable value under that target,
/// which is then the value held.
pub proof fn lemma_immutable_value_kept(
    s0: ServerModel,
    s1: ServerModel,
    table: RoutingTableModel,
    from: Address,
    request: RequestSpecific,
    context: RequestContext,
    out: HandledRequest,
    target: [u8; 20],
)
    requires
        request_outcome(s0, s1, table, from, request, context, out),
        s0.immutable_values.dom().contains(target),
        s1.immutable_values.dom().contains(target),
    ensures
        s1.immutable_values[target] == s0.immutable_values[target]
            || (request.request_type matches RequestTypeSpecific::Put(p)
                && p.put_request_type matches PutRequestSpecific::PutImmutable(a)
                && a.target.0 == target && s1.immutable_values[target] == a.v@),
{
    if let RequestTypeSpecific::Put(p) = request.request_type {
        if let PutRequestSpecific::PutImmutable(a) = p.put_request_type {
            if context.token_valid && a.v@.len() <= MAX_VALUE_SIZE && immutable_matches(a.v@, a.target) {
                let (before, after) = (s0.immutable_values, s1.immutable_values);
                if a.target.0 != target {
                    if !(before.dom().contains(a.target.0) || before.len() < s0.immutable_capacity) {
                        let e = choose|e: [u8; 20]|
                            before.dom().contains(e) && e != a.target.0 && after == before.remove(e).insert(a.target.0, a.v@);
                        assert(e != target);
                    }
                    assert(after[target] == before[target]);
                }
            }
        }
    }
}

/// A stored mutable item stays as it is until it leaves the store: after
/// any request, a target still held holds the same item, unless the request
/// was an accepted put of a mutable item under that target, which is then
/// the item held.
pub proof fn lemma_mutable_item_kept(
    s0: ServerModel,
    s1: ServerModel,
    table: RoutingTableModel,
    from: Address,
    request: RequestSpecific,
    context: RequestContext,
    out: HandledRequest,
    target: [u8; 20],
)
    requires
        request_outcome(s0, s1, table, from, request, context, out),
        s0.mutable_values.dom().contains(target),
        s1.mutable_values.dom().contains(target),
    ensures
        s1.mutable_values[target] == s0.mutable_values[target]
            || (request.request_type matches RequestTypeSpecific::Put(p)
                && p.put_request_type matches PutRequestSpecific::PutMutable(a)
                && a.target.0 == target && s1.mutable_values[target] == put_mutable_item(a)),
{
    if let RequestTypeSpecific::Put(p) = request.request_type {
        if let PutRequestSpecific::PutMutable(a) = p.put_request_type {
            if context.token_valid && mutable_put_refusal(s0.mutable_values, a) is None {
                let (before, after) = (s0.mutable_values, s1.mutable_values);
                if a.target.0 != target {
                    if !(before.dom().contains(a.target.0) || before.len() < s0.mutable_capacity) {
                        let e = choose|e: [u8; 20]|
                            before.dom().contains(e) && e != a.target.0 && after == before.remove(e).insert(a.target.0, put_mutable_item(a));
                        assert(e != target);
                    }
                    assert(after[target] == before[target]);
                }
            }
        }
    }
}

/// A limit of the settings is used as it is, whatever its size; only 0
/// stands for the default.
pub proof fn lemma_limits_are_kept(requested: usize, default: usize)
    ensures
        requested != 0 ==> effective_limit(requested, default) == requested,
        requested == 0 ==> effective_limit(requested, default) == default,
        requested > default ==> effective_limit(requested, default) > default,
{
}

/// Every answer to a get request carries the token issued to the
/// requester's address, so that it can store at this node afterwards: a
/// get of a value is answered with an immutable value, a mutable item, "no
/// more recent value" or "no values", and a get of peers with peers or "no
/// values", each with that token.
pub proof fn lemma_get_answers_carry_token(
    s0: ServerModel,
    s1: ServerModel,
    table: RoutingTableModel,
    from: Address,
    request: RequestSpecific,
    context: RequestContext,
    out: HandledRequest,
)
    requires
        request.request_type is GetValue || request.request_type is GetPeers,
        request_outcome(s0, s1, table, from, request, context, out),
    ensures
        match out.response {
            Some(ServerResponse::Response(ResponseSpecific::GetImmutable(a))) => a.token@ == context.token@ && a.responder_id == table.id,
            Some(ServerResponse::Response(ResponseSpecific::GetMutable(a))) => a.token@ == context.token@ && a.responder_id == table.id,
            Some(ServerResponse::Response(ResponseSpecific::NoMoreRecentValue(a))) => a.token@ == context.token@ && a.responder_id == table.id,
            Some(ServerResponse::Response(ResponseSpecific::NoValues(a))) => a.token@ == context.token@ && a.responder_id == table.id,
            Some(ServerResponse::Response(ResponseSpecific::GetPeers(a))) => a.token@ == context.token@ && a.responder_id == table.id,
            _ => false,
        },
{
}

/// An accepted announcement stores the announcing node as a peer of the
/// info hash, at the sender's ip: at the sender's own port when it asks for
/// the implied port, else at the port it announces. With a bad token,
/// nothing is announced.
pub proof fn lemma_announced_peer(
    s0: ServerModel,
    s1: ServerModel,
    table: RoutingTableModel,
    from: Address,
    request: RequestSpecific,
    context: RequestContext,
    out: HandledRequest,
    args: AnnouncePeerRequestArguments,
)
    requires
        request.request_type matches RequestTypeSpecific::Put(p) && p.put_request_type == PutRequestSpecific::AnnouncePeer(args),
        request_outcome(s0, s1, table, from, request, context, out),
    ensures
        !context.token_valid ==> out.announced_peer is None,
        context.token_valid ==> (out.announced_peer matches Some(a)
            && a.info_hash == args.info_hash
            && a.peer_id == request.requester_id
            && a.peer.ip == from.ip
            && (args.implied_port == Some(true) ==> a.peer.port == from.port)
            && (args.implied_port != Some(true) ==> a.peer.port == args.port)),
{
}

/// Whether `request` puts a value or an item of kind `mutable` under
/// `target`, accepted or not.
pub open spec fn puts_under(request: RequestSpecific, target: [u8; 20], mutable: bool) -> bool {
    request.request_type matches RequestTypeSpecific::Put(p) && (if mutable {
        p.put_request_type matches PutRequestSpecific::PutMutable(a) && a.target.0 == target
    } else {
        p.put_request_type matches PutRequestSpecific::PutImmutable(a) && a.target.0 == target
    })
}

/// `s1` follows `s0` by the handling of a request that puts nothing of
/// kind `mutable` under `target`.
pub open spec fn step_without_put(s0: ServerModel, s1: ServerModel, target: [u8; 20], mutable: bool) -> bool {
    exists|table: RoutingTableModel, from: Address, request: RequestSpecific, context: RequestContext, out: HandledRequest|
        #[trigger] request_outcome(s0, s1, table, from, request, context, out) && !puts_under(request, target, mutable)
}

/// `history` is a run of the server in which every state holds something
/// of kind `mutable` under `target` and no request puts anything of that
/// kind under it.
pub open spec fn held_through(history: Seq<ServerModel>, target: [u8; 20], mutable: bool) -> bool {
    &&& history.len() >= 1
    &&& forall|i: int| 0 <= i < history.len() ==> (if mutable {
        (#[trigger] history[i]).mutable_values.dom().contains(target)
    } else {
        history[i].immutable_values.dom().contains(target)
    })
    &&& forall|i: int| 0 <= i < history.len() - 1 ==> step_without_put(#[trigger] history[i], history[i + 1], target, mutable)
}

/// Along such a run, what is held under the target stays the same.
pub proof fn lemma_held_through(history: Seq<ServerModel>, target: [u8; 20], mutable: bool)
    requires
        held_through(history, target, mutable),
    ensures
        mutable ==> history.last().mutable_values[target] == history[0].mutable_values[target],
        !mutable ==> history.last().immutable_values[target] == history[0].immutable_values[target],
    decreases history.len(),
{
    if history.len() > 1 {
        let shorter = history.drop_last();
        assert forall|i: int| 0 <= i < shorter.len() - 1 implies step_without_put(#[trigger] shorter[i], shorter[i + 1], target, mutable) by {
            assert(shorter[i] == history[i] && shorter[i + 1] == history[i + 1]);
        }
        assert forall|i: int| 0 <= i < shorter.len() implies (if mutable {
            (#[trigger] shorter[i]).mutable_values.dom().contains(target)
        } else {
            shorter[i].immutable_values.dom().contains(target)
        }) by {
            assert(shorter[i] == history[i]);
        }
        lemma_held_through(shorter, target, mutable);
        let n = history.len() - 2;
        assert(step_without_put(history[n], history[n + 1], target, mutable));
        let (table, from, request, context, out) = choose|table: RoutingTableModel, from: Address, request: RequestSpecific, context: RequestContext, out: HandledRequest|
            #[trigger] request_outcome(history[n], history[n + 1], table, from, request, context, out) && !puts_under(request, target, mutable);
        assert(history[n].mutable_values.dom().contains(target) || !mutable);
        assert(history[n + 1] == history.last());
        if mutable {
            assert(history[n].mutable_values.dom().contains(target));
            assert(history[n + 1].mutable_values.dom().contains(target));
            lemma_mutable_item_kept(history[n], history[n + 1], table, from, request, context, out, target);
        } else {
            assert(history[n].immutable_values.dom().contains(target));
            assert(history[n + 1].immutable_values.dom().contains(target));
            lemma_immutable_value_kept(history[n], history[n + 1], table, from, request, context, out, target);
        }
    }
}

/// A stored immutable value is what a later get of its target returns,
/// whatever was handled in between: after an accepted put of `args`, and a
/// run in which the target stays stored and nothing else is put under it,
/// a get of that target without a sequence number answers with exactly the
/// value put.
pub proof fn lemma_immutable_read_after_history(
    s0: ServerModel,
    put_table: RoutingTableModel,
    put_from: Address,
    put: RequestSpecific,
    put_context: RequestContext,
    put_out: HandledRequest,
    args: PutImmutableRequestArguments,
    history: Seq<ServerModel>,
    after: ServerModel,
    get_table: RoutingTableModel,
    get_from: Address,
    get: RequestSpecific,
    get_context: RequestContext,
    get_out: HandledRequest,
)
    requires
        put.request_type matches RequestTypeSpecific::Put(p) && p.put_request_type == PutRequestSpecific::PutImmutable(args),
        put_context.token_valid,
        args.v@.len() <= MAX_VALUE_SIZE,
        immutable_matches(args.v@, args.target),
        request_outcome(s0, history[0], put_table, put_from, put, put_context, put_out),
        held_through(history, args.target.0, false),
        get.request_type matches RequestTypeSpecific::GetValue(g) && g.target == args.target && g.seq is None,
        request_outcome(history.last(), after, get_table, get_from, get, get_context, get_out),
    ensures
        get_out.response matches Some(ServerResponse::Response(ResponseSpecific::GetImmutable(r)))
            && r.v@ == args.v@ && r.responder_id == get_table.id,
{
    assert(history[0].immutable_values[args.target.0] == args.v@);
    lemma_held_through(history, args.target.0, false);
    lemma_stored_immutable_is_read(history.last(), after, get_table, get_from, get, get_context, get_out, args.target);
}

/// A stored mutable item is what a later get of its target returns,
/// whatever was handled in between: after an accepted put of `args`, and a
/// run in which the target stays stored and no other item is put under it,
/// a get asking for items newer than a sequence number below the stored one
/// (or for any item, when no immutable value shares the target) answers
/// with the item put.
pub proof fn lemma_mutable_read_after_history(
    s0: ServerModel,
    put_table: RoutingTableModel,
    put_from: Address,
    put: RequestSpecific,
    put_context: RequestContext,
    put_out: HandledRequest,
    args: PutMutableRequestArguments,
    history: Seq<ServerModel>,
    after: ServerModel,
    get_table: RoutingTableModel,
    get_from: Address,
    get: RequestSpecific,
    get_args: GetValueRequestArguments,
    get_context: RequestContext,
    get_out: HandledRequest,
)
    requires
        put.request_type matches RequestTypeSpecific::Put(p) && p.put_request_type == PutRequestSpecific::PutMutable(args),
        put_context.token_valid,
        mutable_put_refusal(s0.mutable_values, args) is None,
        request_outcome(s0, history[0], put_table, put_from, put, put_context, put_out),
        held_through(history, args.target.0, true),
        get.request_type == RequestTypeSpecific::GetValue(get_args),
        get_args.target == args.target,
        request_outcome(history.last(), after, get_table, get_from, get, get_context, get_out),
        match get_args.seq {
            Some(q) => q < args.seq,
            None => !history.last().immutable_values.dom().contains(args.target.0),
        },
    ensures
        get_out.response matches Some(ServerResponse::Response(ResponseSpecific::GetMutable(r)))
            && r.v@ == args.v@ && r.k@ == args.k@ && r.seq == args.seq && r.sig@ == args.sig@
            && r.responder_id == get_table.id,
{
    assert(history[0].mutable_values[args.target.0] == put_mutable_item(args));
    lemma_held_through(history, args.target.0, true);
    lemma_stored_mutable_is_read(history.last(), after, get_table, get_from, get, get_args, get_context, get_out);
}

/// The sequence number of a stored mutable item never decreases: whatever
/// request is handled, an item that is still stored afterwards has a
/// sequence number at least the one it had.
pub proof fn lemma_mutable_seq_never_decreases(
    s0: ServerModel,
    s1: ServerModel,
    table: RoutingTableModel,
    from: Address,
    request: RequestSpecific,
    context: RequestContext,
    out: HandledRequest,
    target: [u8; 20],
)
    requires
        request_outcome(s0, s1, table, from, request, context, out),
        s0.mutable_values.dom().contains(target),
        s1.mutable_values.dom().contains(target),
    ensures
        s1.mutable_values[target].seq >= s0.mutable_values[target].seq,
{
    if let RequestTypeSpecific::Put(p) = request.request_type {
        if let PutRequestSpecific::PutMutable(a) = p.put_request_type {
            if context.token_valid && mutable_put_refusal(s0.mutable_values, a) is None {
                let (before, after) = (s0.mutable_values, s1.mutable_values);
                if a.target.0 == target {
                    assert(!(a.seq < before[target].seq));
                } else if before.dom().contains(a.target.0) || before.len() < s0.mutable_capacity {
                    assert(after[target] == before[target]);
                } else {
                    let e = choose|e: [u8; 20]|
                        before.dom().contains(e) && e != a.target.0 && after == before.remove(e).insert(a.target.0, put_mutable_item(a));
                    assert(e != target);
                    assert(after[target] == before[target]);
                }
            }
        }
    }
}

/// A refused request changes nothing: when the answer is an error, both
/// stores are as they were and no peer is announced.
pub proof fn lemma_refusal_changes_nothing(
    s0: ServerModel,
    s1: ServerModel,
    table: RoutingTableModel,
    from: Address,
    request: RequestSpecific,
    context: RequestContext,
    out: HandledRequest,
)
    requires
        request_outcome(s0, s1, table, from, request, context, out),
        out.response matches Some(ServerResponse::Error(_)),
    ensures
        stores_unchanged(s0, s1),
        out.announced_peer is None,
{
}

/// Copies a byte slice into a new vector.
fn copy_bytes(bytes: &[u8]) -> (copy: Vec<u8>)
    ensures
        copy@ == bytes@,
{
    let mut out: Vec<u8> = Vec::new();
    push_bytes(&mut out, bytes);
    out
}

fn error_response(code: i32, description: &str) -> (response: ServerResponse)
    ensures
        is_error(Some(response), code, description@),
{
    ServerResponse::Error(ErrorSpecific { code, description: String::from_str(description) })
}

fn ping_response(responder_id: Id) -> (response: ServerResponse)
    ensures
        is_ping(Some(response), responder_id),
{
    ServerResponse::Response(ResponseSpecific::Ping(PingResponseArguments { responder_id }))
}

impl Default for Server {
    /// A server with the default settings.
    fn default() -> (server: Server)
        ensures
            server.wf(),
            server@.immutable_values.dom().is_empty(),
            server@.mutable_values.dom().is_empty(),
            server@.immutable_capacity == MAX_VALUES,
            server@.mutable_capacity == MAX_VALUES,
            server@.max_info_hashes == MAX_INFO_HASHES,
            server@.max_peers_per_info_hash == MAX_PEERS,
    {
        Self::new(ServerSettings::default())
    }
}

impl Server {
    /// Whether the stores are within their capacities.
    pub open spec fn wf(&self) -> bool {
        server_wf(self@)
    }

    /// Creates a new [Server]; a limit of 0 in `settings` means its default.
    pub fn new(settings: ServerSettings) -> (server: Server)
        ensures
            server.wf(),
            server@.immutable_values.dom().is_empty(),
            server@.mutable_values.dom().is_empty(),
            server@.immutable_capacity == effective_limit(settings.max_immutable_values, MAX_VALUES),
            server@.mutable_capacity == effective_limit(settings.max_mutable_values, MAX_VALUES),
            server@.max_info_hashes == effective_limit(settings.max_info_hashes, MAX_INFO_HASHES),
            server@.max_peers_per_info_hash == effective_limit(settings.max_peers_per_info_hash, MAX_PEERS),
            settings.max_immutable_values != 0 ==> server@.immutable_capacity == settings.max_immutable_values,
            settings.max_mutable_values != 0 ==> server@.mutable_capacity == settings.max_mutable_values,
            settings.max_info_hashes != 0 ==> server@.max_info_hashes == settings.max_info_hashes,
            settings.max_peers_per_info_hash != 0 ==> server@.max_peers_per_info_hash == settings.max_peers_per_info_hash,
    {
        let immutable_cap = if settings.max_immutable_values == 0 { MAX_VALUES } else { settings.max_immutable_values };
        let mutable_cap = if settings.max_mutable_values == 0 { MAX_VALUES } else { settings.max_mutable_values };
        let server = Server {
            immutable_values: immutable_store_new(immutable_cap),
            mutable_values: mutable_store_new(mutable_cap),
            max_info_hashes: if settings.max_info_hashes == 0 { MAX_INFO_HASHES } else { settings.max_info_hashes },
            max_peers_per_info_hash: if settings.max_peers_per_info_hash == 0 {
                MAX_PEERS
            } else {
                settings.max_peers_per_info_hash
            },
        };
        proof {
            assert(server@.immutable_values.dom() =~= Set::empty());
            assert(server@.mutable_values.dom() =~= Set::empty());
        }
        server
    }

    /// Answers a get request for the mutable item under `target`.
    fn handle_get_mutable(&mut self, routing_table: &RoutingTable, target: Id, seq: Option<i64>, token: Vec<u8>) -> (response: ResponseSpecific)
        requires
            old(self).wf(),
        ensures
            final(self)@ == old(self)@,
            mutable_lookup(response, old(self)@.mutable_values, routing_table@, target, seq, token@),
    {
        let responder_id = *routing_table.id();
        let nodes = routing_table.closest(target);
        match mutable_store_get(&mut self.mutable_values, &target.0) {
            Some(item) => {
                let no_more_recent_values = match seq {
                    Some(request_seq) => item.seq() <= request_seq,
                    None => false,
                };
                if no_more_recent_values {
                    ResponseSpecific::NoMoreRecentValue(NoMoreRecentValueResponseArguments {
                        responder_id,
                        token,
                        nodes: Some(nodes),
                        seq: item.seq(),
                    })
                } else {
                    ResponseSpecific::GetMutable(GetMutableResponseArguments {
                        responder_id,
                        token,
                        nodes: Some(nodes),
                        v: copy_bytes(item.value()),
                        k: *item.key(),
                        seq: item.seq(),
                        sig: *item.signature(),
                    })
                }
            },
            None => ResponseSpecific::NoValues(NoValuesResponseArguments { responder_id, token, nodes: Some(nodes) }),
        }
    }

    /// Handles `request` from `from`: returns the answer to send (none when
    /// the filter rejects the request) and, for a peer announcement, the peer
    /// to store; stores the values of valid put requests.
    pub fn handle_request(&mut self, routing_table: &RoutingTable, from: Address, request: RequestSpecific, context: RequestContext) -> (out: HandledRequest)
        requires
            old(self).wf(),
        ensures
            final(self).wf(),
            final(self)@.immutable_capacity == old(self)@.immutable_capacity,
            final(self)@.mutable_capacity == old(self)@.mutable_capacity,
            final(self)@.max_info_hashes == old(self)@.max_info_hashes,
            final(self)@.max_peers_per_info_hash == old(self)@.max_peers_per_info_hash,
            !context.allowed ==> out.response is None && out.announced_peer is None && final(self)@ == old(self)@,
            context.allowed ==> out.response is Some
                && request_outcome(old(self)@, final(self)@, routing_table@, from, request, context, out),
    {
        if !context.allowed {
            return HandledRequest { response: None, announced_peer: None };
        }
        let ghost old_s = self@;
        let ghost context_token = context.token@;
        let requester_id = request.requester_id;
        let responder_id = *routing_table.id();
        match request.request_type {
            RequestTypeSpecific::Ping => {
                HandledRequest { response: Some(ping_response(responder_id)), announced_peer: None }
            },
            RequestTypeSpecific::FindNode(args) => {
                let nodes = routing_table.closest(args.target);
                HandledRequest {
                    response: Some(ServerResponse::Response(ResponseSpecific::FindNode(FindNodeResponseArguments {
                        responder_id,
                        nodes,
                    }))),
                    announced_peer: None,
                }
            },
            RequestTypeSpecific::GetPeers(args) => {
                let nodes = routing_table.closest(args.info_hash);
                let response = match context.peers {
                    Some(peers) => ResponseSpecific::GetPeers(GetPeersResponseArguments {
                        responder_id,
                        token: context.token,
                        nodes: Some(nodes),
                        values: peers,
                    }),
                    None => ResponseSpecific::NoValues(NoValuesResponseArguments {
                        responder_id,
                        token: context.token,
                        nodes: Some(nodes),
                    }),
                };
                HandledRequest { response: Some(ServerResponse::Response(response)), announced_peer: None }
            },
            RequestTypeSpecific::GetValue(args) => {
                let target = args.target;
                if args.seq.is_some() {
                    let response = self.handle_get_mutable(routing_table, target, args.seq, context.token);
                    return HandledRequest { response: Some(ServerResponse::Response(response)), announced_peer: None };
                }
                let immutable = match immutable_store_get(&mut self.immutable_values, &target.0) {
                    Some(v) => Some(copy_bytes(v.as_slice())),
                    None => None,
                };
                match immutable {
                    Some(v) => {
                        let nodes = routing_table.closest(target);
                        HandledRequest {
                            response: Some(ServerResponse::Response(ResponseSpecific::GetImmutable(GetImmutableResponseArguments {
                                responder_id,
                                token: context.token,
                                nodes: Some(nodes),
                                v,
                            }))),
                            announced_peer: None,
                        }
                    },
                    None => {
                        let response = self.handle_get_mutable(routing_table, target, args.seq, context.token);
                        HandledRequest { response: Some(ServerResponse::Response(response)), announced_peer: None }
                    },
                }
            },
            RequestTypeSpecific::Put(put) => {
                if !context.token_valid {
                    return HandledRequest { response: Some(error_response(203, "Bad token")), announced_peer: None };
                }
                match put.put_request_type {
                    PutRequestSpecific::AnnouncePeer(args) => {
                        let peer = match args.implied_port {
                            Some(true) => from,
                            _ => Address { ip: from.ip, port: args.port },
                        };
                        HandledRequest {
                            response: Some(ping_response(responder_id)),
                            announced_peer: Some(PeerAnnouncement { info_hash: args.info_hash, peer_id: requester_id, peer }),
                        }
                    },
                    PutRequestSpecific::PutImmutable(args) => {
                        if args.v.len() > MAX_VALUE_SIZE {
                            return HandledRequest {
                                response: Some(error_response(205, "Message (v field) too big.")),
                                announced_peer: None,
                            };
                        }
                        if !validate_immutable(args.v.as_slice(), args.target) {
                            return HandledRequest {
                                response: Some(error_response(203, "Target doesn't match the sha1 hash of v field")),
                                announced_peer: None,
                            };
                        }
                        immutable_store_put(&mut self.immutable_values, args.target.0, args.v);
                        HandledRequest { response: Some(ping_response(responder_id)), announced_peer: None }
                    },
                    PutRequestSpecific::PutMutable(args) => {
                        let ghost a = args;
                        let target = args.target;
                        if args.v.len() > MAX_VALUE_SIZE {
                            return HandledRequest {
                                response: Some(error_response(205, "Message (v field) too big.")),
                                announced_peer: None,
                            };
                        }
                        let salt_too_big = match &args.salt {
                            Some(salt) => salt.len() > MAX_SALT_SIZE,
                            None => false,
                        };
                        if salt_too_big {
                            return HandledRequest {
                                response: Some(error_response(207, "salt (salt field) too big.")),
                                announced_peer: None,
                            };
                        }
                        let previous_seq = match mutable_store_get(&mut self.mutable_values, &target.0) {
                            Some(previous) => Some(previous.seq()),
                            None => None,
                        };
                        if let Some(previous_seq) = previous_seq {
                            if let Some(cas) = args.cas {
                                if previous_seq != cas {
                                    return HandledRequest {
                                        response: Some(error_response(301, "CAS mismatched, re-read value and try again.")),
                                        announced_peer: None,
                                    };
                                }
                            }
                            if args.seq < previous_seq {
                                return HandledRequest {
                                    response: Some(error_response(302, "Sequence number less than current.")),
                                    announced_peer: None,
                                };
                            }
                        }
                        match MutableItem::from_dht_message(target, args.k.as_slice(), args.v, args.seq, args.sig.as_slice(), args.salt) {
                            Ok(item) => {
                                mutable_store_put(&mut self.mutable_values, target.0, item);
                                HandledRequest { response: Some(ping_response(responder_id)), announced_peer: None }
                            },
                            Err(_) => HandledRequest {
                                response: Some(error_response(206, "Invalid signature")),
                                announced_peer: None,
                            },
                        }
                    },
                }
            },
            RequestTypeSpecific::GetSignedPeers(_) => {
                HandledRequest { response: Some(ping_response(responder_id)), announced_peer: None }
            },
            RequestTypeSpecific::Unknown { .. } => {
                let response = match context.custom_response {
                    Some(r) => r,
                    None => ping_response(responder_id),
                };
                HandledRequest { response: Some(response), announced_peer: None }
            },
        }
    }

    /// The maximum number of info hashes the peer store keeps peers for.
    pub fn max_info_hashes(&self) -> (limit: usize)
        ensures
            limit == self@.max_info_hashes,
    {
        self.max_info_hashes
    }

    /// The maximum number of peers the peer store keeps per info hash.
    pub fn max_peers_per_info_hash(&self) -> (limit: usize)
        ensures
            limit == self@.max_peers_per_info_hash,
    {
        self.max_peers_per_info_hash
    }
}

} // verus!
