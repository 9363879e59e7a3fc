//! The KRPC requests a node receives and the responses it sends back
//! (BEP_0005, BEP_0044).

use std::collections::HashMap;

use serde_bencode::value::Value;

use vstd::prelude::*;

use crate::common::{Address, Id, Node};

verus! {

#[verifier::external_type_specification]
#[verifier::external_body]
pub struct ExBencodeValue(Value);

/// A request: who sent it and what it asks.
#[derive(Clone, Debug, PartialEq)]
pub struct RequestSpecific {
    pub requester_id: Id,
    pub request_type: RequestTypeSpecific,
}

/// The kinds of requests.
#[derive(Clone, Debug, PartialEq)]
pub enum RequestTypeSpecific {
    Ping,
    FindNode(FindNodeRequestArguments),
    GetPeers(GetPeersRequestArguments),
    GetSignedPeers(GetPeersRequestArguments),
    GetValue(GetValueRequestArguments),
    Put(PutRequest),
    /// A method this library does not define, handed to custom handlers.
    Unknown { q: String, arguments: HashMap<String, Value> },
}

#[derive(Clone, Copy, Debug, PartialEq, Eq)]
pub struct FindNodeRequestArguments {
    pub target: Id,
}

#[derive(Clone, Copy, Debug, PartialEq, Eq)]
pub struct GetPeersRequestArguments {
    pub info_hash: Id,
}

#[derive(Clone, Debug, PartialEq, Eq)]
pub struct GetValueRequestArguments {
    pub target: Id,
    pub seq: Option<i64>,
    pub salt: Option<Vec<u8>>,
}

/// A request to store something, with the token the requester got from an
/// earlier get request.
#[derive(Clone, Debug, PartialEq, Eq)]
pub struct PutRequest {
    pub token: Vec<u8>,
    pub put_request_type: PutRequestSpecific,
}

#[derive(Clone, Debug, PartialEq, Eq)]
pub enum PutRequestSpecific {
    AnnouncePeer(AnnouncePeerRequestArguments),
    PutImmutable(PutImmutableRequestArguments),
    PutMutable(PutMutableRequestArguments),
}

#[derive(Clone, Copy, Debug, PartialEq, Eq)]
pub struct AnnouncePeerRequestArguments {
    pub info_hash: Id,
    pub port: u16,
    pub implied_port: Option<bool>,
}

#[derive(Clone, Debug, PartialEq, Eq)]
pub struct PutImmutableRequestArguments {
    pub target: Id,
    pub v: Vec<u8>,
}

#[derive(Clone, Debug, PartialEq, Eq)]
pub struct PutMutableRequestArguments {
    pub target: Id,
    pub v: Vec<u8>,
    pub k: Vec<u8>,
    pub seq: i64,
    pub sig: Vec<u8>,
    pub salt: Option<Vec<u8>>,
    pub cas: Option<i64>,
}

/// The responses a server sends.
#[derive(Clone, Debug, PartialEq, Eq)]
pub enum ResponseSpecific {
    Ping(PingResponseArguments),
    FindNode(FindNodeResponseArguments),
    GetPeers(GetPeersResponseArguments),
    GetImmutable(GetImmutableResponseArguments),
    GetMutable(GetMutableResponseArguments),
    NoValues(NoValuesResponseArguments),
    NoMoreRecentValue(NoMoreRecentValueResponseArguments),
}

#[derive(Clone, Copy, Debug, PartialEq, Eq)]
pub struct PingResponseArguments {
    pub responder_id: Id,
}

#[derive(Clone, Debug, PartialEq, Eq)]
pub struct FindNodeResponseArguments {
    pub responder_id: Id,
    pub nodes: Vec<Node>,
}

#[derive(Clone, Debug, PartialEq, Eq)]
pub struct GetPeersResponseArguments {
    pub responder_id: Id,
    pub token: Vec<u8>,
    pub nodes: Option<Vec<Node>>,
    pub values: Vec<Address>,
}

#[derive(Clone, Debug, PartialEq, Eq)]
pub struct NoValuesResponseArguments {
    pub responder_id: Id,
    pub token: Vec<u8>,
    pub nodes: Option<Vec<Node>>,
}

#[derive(Clone, Debug, PartialEq, Eq)]
pub struct GetImmutableResponseArguments {
    pub responder_id: Id,
    pub token: Vec<u8>,
    pub nodes: Option<Vec<Node>>,
    pub v: Vec<u8>,
}

#[derive(Clone, Debug, PartialEq, Eq)]
pub struct GetMutableResponseArguments {
    pub responder_id: Id,
    pub token: Vec<u8>,
    pub nodes: Option<Vec<Node>>,
    pub v: Vec<u8>,
    pub k: [u8; 32],
    pub seq: i64,
    pub sig: [u8; 64],
}

#[derive(Clone, Debug, PartialEq, Eq)]
pub struct NoMoreRecentValueResponseArguments {
    pub responder_id: Id,
    pub token: Vec<u8>,
    pub nodes: Option<Vec<Node>>,
    pub seq: i64,
}

/// An error answer: a KRPC error code and its description.
#[derive(Clone, Debug, PartialEq, Eq)]
pub struct ErrorSpecific {
    pub code: i32,
    pub description: String,
}

} // verus!
