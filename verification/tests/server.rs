use std::collections::HashMap;

use dht::messages::{
    AnnouncePeerRequestArguments, ErrorSpecific, FindNodeRequestArguments, GetPeersRequestArguments,
    GetValueRequestArguments, PingResponseArguments, PutImmutableRequestArguments,
    PutMutableRequestArguments, PutRequest, PutRequestSpecific, RequestSpecific, RequestTypeSpecific,
    ResponseSpecific,
};
use dht::mutable::encode_signable;
use dht::routing_table::RoutingTable;
use dht::server::{HandledRequest, PeerAnnouncement, RequestContext, Server, ServerResponse, ServerSettings};
use dht::{Address, Id, Node, MAX_INFO_HASHES, MAX_PEERS};
use ed25519_dalek::{Signer, SigningKey};

const OWN_ID: Id = Id([1u8; 20]);
const FROM: Address = Address { ip: [10, 1, 2, 3], port: 4000 };
const SECRET: [u8; 32] = [21u8; 32];

fn table() -> RoutingTable {
    let mut table = RoutingTable::new(OWN_ID);
    table.add(Node::new(Id([2u8; 20]), Address::new([10, 0, 0, 2], 1)));
    table.add(Node::new(Id([3u8; 20]), Address::new([10, 0, 0, 3], 1)));
    table
}

fn context() -> RequestContext {
    RequestContext { allowed: true, token: vec![9, 9, 9, 9], token_valid: true, peers: None, custom_response: None }
}

fn request(request_type: RequestTypeSpecific) -> RequestSpecific {
    RequestSpecific { requester_id: Id([7u8; 20]), request_type }
}

fn put(put_request_type: PutRequestSpecific) -> RequestSpecific {
    request(RequestTypeSpecific::Put(PutRequest { token: vec![9, 9, 9, 9], put_request_type }))
}

fn get_value(target: Id, seq: Option<i64>) -> RequestSpecific {
    request(RequestTypeSpecific::GetValue(GetValueRequestArguments { target, seq, salt: None }))
}

fn ping() -> Option<ServerResponse> {
    Some(ServerResponse::Response(ResponseSpecific::Ping(PingResponseArguments { responder_id: OWN_ID })))
}

fn error(code: i32, description: &str) -> Option<ServerResponse> {
    Some(ServerResponse::Error(ErrorSpecific { code, description: description.to_string() }))
}

fn sha1_target(v: &[u8]) -> Id {
    Id(sha1_smol::Sha1::from(v).digest().bytes())
}

fn mutable_put(target: Id, v: &[u8], seq: i64, cas: Option<i64>, salt: Option<Vec<u8>>) -> RequestSpecific {
    let signer = SigningKey::from_bytes(&SECRET);
    let sig = signer.sign(&encode_signable(seq, v, salt.as_deref())).to_bytes();
    put(PutRequestSpecific::PutMutable(PutMutableRequestArguments {
        target,
        v: v.to_vec(),
        k: signer.verifying_key().to_bytes().to_vec(),
        seq,
        sig: sig.to_vec(),
        salt,
        cas,
    }))
}

#[test]
fn filtered_request_gets_no_answer() {
    let mut server = Server::new(ServerSettings::default());
    let ctx = RequestContext { allowed: false, ..context() };
    let out = server.handle_request(&table(), FROM, request(RequestTypeSpecific::Ping), ctx);
    assert_eq!(out, HandledRequest { response: None, announced_peer: None });
}

#[test]
fn ping_is_answered_with_own_id() {
    let mut server = Server::default();
    let out = server.handle_request(&table(), FROM, request(RequestTypeSpecific::Ping), context());
    assert_eq!(out.response, ping());
}

#[test]
fn find_node_returns_closest_nodes() {
    let mut server = Server::default();
    let target = Id([3u8; 20]);
    let out = server.handle_request(
        &table(),
        FROM,
        request(RequestTypeSpecific::FindNode(FindNodeRequestArguments { target })),
        context(),
    );
    match out.response {
        Some(ServerResponse::Response(ResponseSpecific::FindNode(r))) => {
            assert_eq!(r.responder_id, OWN_ID);
            assert_eq!(r.nodes, table().closest(target));
            assert_eq!(r.nodes[0].id, target);
        },
        other => panic!("unexpected {:?}", other),
    }
}

#[test]
fn get_peers_with_and_without_peers() {
    let mut server = Server::default();
    let info_hash = Id([5u8; 20]);
    let req = request(RequestTypeSpecific::GetPeers(GetPeersRequestArguments { info_hash }));
    match server.handle_request(&table(), FROM, req.clone(), context()).response {
        Some(ServerResponse::Response(ResponseSpecific::NoValues(r))) => {
            assert_eq!(r.token, vec![9, 9, 9, 9]);
            assert_eq!(r.nodes, Some(table().closest(info_hash)));
        },
        other => panic!("unexpected {:?}", other),
    }
    let peers = vec![Address::new([1, 2, 3, 4], 5)];
    let ctx = RequestContext { peers: Some(peers.clone()), ..context() };
    match server.handle_request(&table(), FROM, req, ctx).response {
        Some(ServerResponse::Response(ResponseSpecific::GetPeers(r))) => {
            assert_eq!(r.values, peers);
            assert_eq!(r.responder_id, OWN_ID);
        },
        other => panic!("unexpected {:?}", other),
    }
}

#[test]
fn immutable_put_then_get() {
    let mut server = Server::default();
    let v = b"hello".to_vec();
    let target = sha1_target(&v);
    let out = server.handle_request(
        &table(),
        FROM,
        put(PutRequestSpecific::PutImmutable(PutImmutableRequestArguments { target, v: v.clone() })),
        context(),
    );
    assert_eq!(out.response, ping());
    match server.handle_request(&table(), FROM, get_value(target, None), context()).response {
        Some(ServerResponse::Response(ResponseSpecific::GetImmutable(r))) => {
            assert_eq!(r.v, v);
            assert_eq!(r.token, vec![9, 9, 9, 9]);
        },
        other => panic!("unexpected {:?}", other),
    }
}

#[test]
fn get_of_unknown_target_has_no_values() {
    let mut server = Server::default();
    match server.handle_request(&table(), FROM, get_value(Id([8u8; 20]), None), context()).response {
        Some(ServerResponse::Response(ResponseSpecific::NoValues(r))) => assert_eq!(r.responder_id, OWN_ID),
        other => panic!("unexpected {:?}", other),
    }
}

#[test]
fn immutable_put_refusals() {
    let mut server = Server::default();
    let big = vec![0u8; 1001];
    let out = server.handle_request(
        &table(),
        FROM,
        put(PutRequestSpecific::PutImmutable(PutImmutableRequestArguments { target: sha1_target(&big), v: big })),
        context(),
    );
    assert_eq!(out.response, error(205, "Message (v field) too big."));
    let out = server.handle_request(
        &table(),
        FROM,
        put(PutRequestSpecific::PutImmutable(PutImmutableRequestArguments { target: Id([0u8; 20]), v: b"x".to_vec() })),
        context(),
    );
    assert_eq!(out.response, error(203, "Target doesn't match the sha1 hash of v field"));
    let v = b"x".to_vec();
    let ctx = RequestContext { token_valid: false, ..context() };
    let out = server.handle_request(
        &table(),
        FROM,
        put(PutRequestSpecific::PutImmutable(PutImmutableRequestArguments { target: sha1_target(&v), v })),
        ctx,
    );
    assert_eq!(out.response, error(203, "Bad token"));
    // None of the refused values was stored.
    let out = server.handle_request(&table(), FROM, get_value(sha1_target(b"x"), None), context());
    assert!(matches!(out.response, Some(ServerResponse::Response(ResponseSpecific::NoValues(_)))));
}

#[test]
fn value_of_exactly_1000_bytes_is_accepted() {
    let mut server = Server::default();
    let v = vec![1u8; 1000];
    let out = server.handle_request(
        &table(),
        FROM,
        put(PutRequestSpecific::PutImmutable(PutImmutableRequestArguments { target: sha1_target(&v), v })),
        context(),
    );
    assert_eq!(out.response, ping());
}

#[test]
fn mutable_put_then_get() {
    let mut server = Server::default();
    let target = Id([42u8; 20]);
    assert_eq!(server.handle_request(&table(), FROM, mutable_put(target, b"v1", 5, None, None), context()).response, ping());
    match server.handle_request(&table(), FROM, get_value(target, None), context()).response {
        Some(ServerResponse::Response(ResponseSpecific::GetMutable(r))) => {
            assert_eq!(r.v, b"v1".to_vec());
            assert_eq!(r.seq, 5);
            assert_eq!(r.k, SigningKey::from_bytes(&SECRET).verifying_key().to_bytes());
        },
        other => panic!("unexpected {:?}", other),
    }
    match server.handle_request(&table(), FROM, get_value(target, Some(4)), context()).response {
        Some(ServerResponse::Response(ResponseSpecific::GetMutable(r))) => assert_eq!(r.seq, 5),
        other => panic!("unexpected {:?}", other),
    }
    match server.handle_request(&table(), FROM, get_value(target, Some(5)), context()).response {
        Some(ServerResponse::Response(ResponseSpecific::NoMoreRecentValue(r))) => assert_eq!(r.seq, 5),
        other => panic!("unexpected {:?}", other),
    }
}

#[test]
fn mutable_put_refusals() {
    let mut server = Server::default();
    let target = Id([43u8; 20]);
    assert_eq!(server.handle_request(&table(), FROM, mutable_put(target, b"v", 5, None, None), context()).response, ping());
    assert_eq!(
        server.handle_request(&table(), FROM, mutable_put(target, b"w", 6, Some(4), None), context()).response,
        error(301, "CAS mismatched, re-read value and try again.")
    );
    assert_eq!(
        server.handle_request(&table(), FROM, mutable_put(target, b"w", 4, None, None), context()).response,
        error(302, "Sequence number less than current.")
    );
    assert_eq!(
        server.handle_request(&table(), FROM, mutable_put(target, &vec![0u8; 1001], 6, None, None), context()).response,
        error(205, "Message (v field) too big.")
    );
    assert_eq!(
        server.handle_request(&table(), FROM, mutable_put(target, b"w", 6, None, Some(vec![0u8; 65])), context()).response,
        error(207, "salt (salt field) too big.")
    );
    let mut forged = mutable_put(target, b"w", 6, None, None);
    if let RequestTypeSpecific::Put(PutRequest { put_request_type: PutRequestSpecific::PutMutable(ref mut a), .. }) = forged.request_type {
        a.v = b"forged".to_vec();
    }
    assert_eq!(server.handle_request(&table(), FROM, forged, context()).response, error(206, "Invalid signature"));
    // Still the first value.
    match server.handle_request(&table(), FROM, get_value(target, None), context()).response {
        Some(ServerResponse::Response(ResponseSpecific::GetMutable(r))) => assert_eq!((r.v, r.seq), (b"v".to_vec(), 5)),
        other => panic!("unexpected {:?}", other),
    }
    // A matching CAS and an equal sequence number are accepted.
    assert_eq!(server.handle_request(&table(), FROM, mutable_put(target, b"z", 5, Some(5), None), context()).response, ping());
}

#[test]
fn announce_peer_uses_implied_port_or_given_port() {
    let mut server = Server::default();
    let info_hash = Id([6u8; 20]);
    let announce = |implied_port| {
        put(PutRequestSpecific::AnnouncePeer(AnnouncePeerRequestArguments { info_hash, port: 7000, implied_port }))
    };
    let out = server.handle_request(&table(), FROM, announce(Some(true)), context());
    assert_eq!(out.response, ping());
    assert_eq!(out.announced_peer, Some(PeerAnnouncement { info_hash, peer_id: Id([7u8; 20]), peer: FROM }));
    let out = server.handle_request(&table(), FROM, announce(None), context());
    assert_eq!(out.announced_peer.unwrap().peer, Address::new([10, 1, 2, 3], 7000));
    let ctx = RequestContext { token_valid: false, ..context() };
    let out = server.handle_request(&table(), FROM, announce(Some(false)), ctx);
    assert_eq!(out, HandledRequest { response: error(203, "Bad token"), announced_peer: None });
}

#[test]
fn unknown_methods_use_custom_handlers() {
    let mut server = Server::default();
    let unknown = request(RequestTypeSpecific::Unknown { q: "custom".to_string(), arguments: HashMap::new() });
    assert_eq!(server.handle_request(&table(), FROM, unknown.clone(), context()).response, ping());
    let custom = error(204, "Method Unknown");
    let ctx = RequestContext { custom_response: custom.clone(), ..context() };
    assert_eq!(server.handle_request(&table(), FROM, unknown, ctx).response, custom);
}

#[test]
fn get_signed_peers_is_answered_with_ping() {
    let mut server = Server::default();
    let req = request(RequestTypeSpecific::GetSignedPeers(GetPeersRequestArguments { info_hash: Id([5u8; 20]) }));
    assert_eq!(server.handle_request(&table(), FROM, req, context()).response, ping());
}

#[test]
fn store_of_capacity_one_keeps_the_latest_value() {
    let settings = ServerSettings { max_immutable_values: 1, ..ServerSettings::default() };
    let mut server = Server::new(settings);
    for v in [b"a".to_vec(), b"b".to_vec()] {
        let out = server.handle_request(
            &table(),
            FROM,
            put(PutRequestSpecific::PutImmutable(PutImmutableRequestArguments { target: sha1_target(&v), v })),
            context(),
        );
        assert_eq!(out.response, ping());
    }
    let first = server.handle_request(&table(), FROM, get_value(sha1_target(b"a"), None), context()).response;
    assert!(matches!(first, Some(ServerResponse::Response(ResponseSpecific::NoValues(_)))));
    let second = server.handle_request(&table(), FROM, get_value(sha1_target(b"b"), None), context()).response;
    assert!(matches!(second, Some(ServerResponse::Response(ResponseSpecific::GetImmutable(_)))));
}

#[test]
fn zero_limits_mean_defaults() {
    let settings = ServerSettings { max_info_hashes: 0, max_peers_per_info_hash: 0, max_immutable_values: 0, max_mutable_values: 0 };
    let server = Server::new(settings);
    assert_eq!(server.max_info_hashes(), MAX_INFO_HASHES);
    assert_eq!(server.max_peers_per_info_hash(), MAX_PEERS);
    let server = Server::new(ServerSettings { max_info_hashes: 3, max_peers_per_info_hash: 4, ..settings });
    assert_eq!(server.max_info_hashes(), 3);
    assert_eq!(server.max_peers_per_info_hash(), 4);
}

#[test]
fn stored_value_survives_other_requests() {
    let mut server = Server::default();
    let v = b"kept".to_vec();
    let target = sha1_target(&v);
    let out = server.handle_request(
        &table(),
        FROM,
        put(PutRequestSpecific::PutImmutable(PutImmutableRequestArguments { target, v: v.clone() })),
        context(),
    );
    assert_eq!(out.response, ping());
    assert_eq!(server.handle_request(&table(), FROM, mutable_put(Id([44u8; 20]), b"other", 1, None, None), context()).response, ping());
    assert_eq!(server.handle_request(&table(), FROM, request(RequestTypeSpecific::Ping), context()).response, ping());
    match server.handle_request(&table(), FROM, get_value(target, None), context()).response {
        Some(ServerResponse::Response(ResponseSpecific::GetImmutable(r))) => assert_eq!(r.v, v),
        other => panic!("unexpected {:?}", other),
    }
}
