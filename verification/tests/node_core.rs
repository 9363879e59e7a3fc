
use dht::messages::{FindNodeRequestArguments, GetPeersRequestArguments, GetValueRequestArguments, RequestTypeSpecific};
use dht::node_core::{
    choose_relevant_routing_table_mut, done_put_queries, supports_signed_peers, Core, GetDecision, IterativeQuery, PutDecision,
    MaintenanceActions, PutQuery, TickEvent, MAX_CACHED_ITERATIVE_QUERIES, VERSION,
};
use dht::routing_table::RoutingTable;
use dht::{Address, Id, Node, ServerSettings};

fn new_core() -> Core {
    Core::new(Id([1u8; 20]), vec![Address::new([1, 1, 1, 1], 6881)], false, ServerSettings::default())
}

fn get_value(target: Id) -> RequestTypeSpecific {
    RequestTypeSpecific::GetValue(GetValueRequestArguments { target, seq: None, salt: None })
}

fn query(target: Id, request_type: RequestTypeSpecific, best_address: Option<Address>) -> IterativeQuery {
    IterativeQuery { target, request_type, best_address, subnets: 0, closest_nodes: vec![] }
}

#[test]
fn signed_peers_support_by_version() {
    assert!(supports_signed_peers(Some(VERSION)));
    assert!(supports_signed_peers(Some([82, 83, 0, 7])));
    assert!(supports_signed_peers(Some([82, 83, 1, 0])));
    assert!(!supports_signed_peers(Some([82, 83, 0, 5])));
    assert!(!supports_signed_peers(Some([76, 84, 0, 6])));
    assert!(!supports_signed_peers(Some([82, 84, 0, 6])));
    assert!(!supports_signed_peers(None));
}

#[test]
fn relevant_routing_table() {
    let mut basic = RoutingTable::new(Id([1u8; 20]));
    let mut signed = RoutingTable::new(Id([1u8; 20]));
    let node = Node::new(Id([2u8; 20]), Address::new([1, 2, 3, 4], 5));
    let signed_peers = RequestTypeSpecific::GetSignedPeers(GetPeersRequestArguments { info_hash: Id([3u8; 20]) });
    choose_relevant_routing_table_mut(&signed_peers, &mut basic, &mut signed).add(node);
    assert_eq!((basic.size(), signed.size()), (0, 1));
    let find_node = RequestTypeSpecific::FindNode(FindNodeRequestArguments { target: Id([3u8; 20]) });
    choose_relevant_routing_table_mut(&find_node, &mut basic, &mut signed).add(node);
    assert_eq!((basic.size(), signed.size()), (1, 1));
}

#[test]
fn new_core_is_firewalled_client() {
    let core = new_core();
    assert!(core.firewalled());
    assert!(!core.server_mode());
    assert_eq!(core.public_address(), None);
    assert_eq!(core.id(), &Id([1u8; 20]));
    assert!(core.iterative_queries().is_empty());
    assert!(core.put_queries().is_empty());
    assert_eq!(core.bootstrap(), &[Address::new([1, 1, 1, 1], 6881)]);
}

#[test]
fn address_votes() {
    let mut core = new_core();
    let a = Address::new([5, 6, 7, 8], 9);
    assert_eq!(core.update_address_votes_from_iterative_query(None), None);
    assert_eq!(core.public_address(), None);
    assert_eq!(core.update_address_votes_from_iterative_query(Some(a)), Some(a));
    assert_eq!(core.public_address(), Some(a));
    assert!(core.firewalled());
    assert_eq!(core.update_address_votes_from_iterative_query(Some(a)), None);
    let b = Address::new([5, 6, 7, 8], 10);
    assert_eq!(core.update_address_votes_from_iterative_query(Some(b)), Some(b));
    assert_eq!(core.public_address(), Some(b));
}

#[test]
fn insert_replaces_queries_with_the_same_target() {
    let mut core = new_core();
    let t = Id([9u8; 20]);
    core.insert_iterative_query(query(t, get_value(t), None));
    core.insert_iterative_query(query(t, get_value(t), Some(Address::new([1, 2, 3, 4], 5))));
    assert_eq!(core.iterative_queries().len(), 1);
    assert_eq!(core.iterative_queries()[0].best_address, Some(Address::new([1, 2, 3, 4], 5)));
    core.insert_put_query(PutQuery { target: t, started: false });
    core.insert_put_query(PutQuery { target: t, started: true });
    assert_eq!(core.put_queries(), &[PutQuery { target: t, started: true }]);
}

#[test]
fn cleanup_done_queries_schedules_waiting_puts() {
    let mut core = new_core();
    let get = Id([10u8; 20]);
    let find = Id([11u8; 20]);
    let started = Id([12u8; 20]);
    let running = Id([13u8; 20]);
    let voted = Address::new([9, 9, 9, 9], 1);
    core.insert_iterative_query(query(get, get_value(get), None));
    core.insert_iterative_query(query(find, RequestTypeSpecific::FindNode(FindNodeRequestArguments { target: find }), Some(voted)));
    core.insert_iterative_query(query(started, get_value(started), None));
    core.insert_iterative_query(query(running, get_value(running), None));
    core.insert_put_query(PutQuery { target: get, started: false });
    core.insert_put_query(PutQuery { target: find, started: false });
    core.insert_put_query(PutQuery { target: started, started: true });

    let done_get = vec![(get, vec![]), (find, vec![]), (started, vec![]), (Id([99u8; 20]), vec![])];
    let (to_start, to_ping) = core.cleanup_done_queries(&done_get, &vec![started]);
    assert_eq!(to_start, vec![get]);
    assert_eq!(to_ping, None);
    assert_eq!(core.public_address(), Some(voted));
    assert_eq!(core.iterative_queries().len(), 1);
    assert_eq!(core.iterative_queries()[0].target, running);
    assert_eq!(
        core.put_queries(),
        &[PutQuery { target: get, started: false }, PutQuery { target: find, started: false }]
    );
}

#[test]
fn cleanup_returns_the_last_vote() {
    let mut core = new_core();
    let t = Id([10u8; 20]);
    let voted = Address::new([9, 9, 9, 9], 1);
    core.insert_iterative_query(query(t, get_value(t), Some(voted)));
    let (_, to_ping) = core.cleanup_done_queries(&vec![(t, vec![])], &vec![]);
    assert_eq!(to_ping, Some(voted));
    assert!(core.firewalled());
}

#[test]
fn periodic_maintenance_adaptive_mode() {
    let mut core = new_core();
    assert_eq!(
        core.periodic_node_maintenance(false, false),
        MaintenanceActions { self_lookups: 1, refresh_table: false, ping_table: false }
    );
    // Firewalled: a refresh does not switch to server mode.
    assert_eq!(core.periodic_node_maintenance(true, true).self_lookups, 2);
    assert!(!core.server_mode());
    // Once the public address is confirmed the node is no longer firewalled.
    let mut core = Core::new(Id([1u8; 20]), vec![], false, ServerSettings::default());
    core.update_address_votes_from_iterative_query(Some(Address::new([1, 2, 3, 4], 5)));
    assert!(core.firewalled());
    assert_eq!(core.periodic_node_maintenance(true, false).self_lookups, 0);
    assert!(!core.server_mode());
    core.set_server_mode(true);
    assert!(core.server_mode());
}

#[test]
fn done_put_queries_keep_only_finished_ones() {
    let checks: Vec<(Id, Result<bool, String>)> = vec![
        (Id([1u8; 20]), Ok(true)),
        (Id([2u8; 20]), Ok(false)),
        (Id([3u8; 20]), Err("failed".to_string())),
    ];
    assert_eq!(
        done_put_queries(checks),
        vec![(Id([1u8; 20]), None), (Id([3u8; 20]), Some("failed".to_string()))]
    );
}

#[test]
fn nodes_join_the_tables_they_support() {
    let mut core = new_core();
    let a = Node::new(Id([2u8; 20]), Address::new([10, 0, 0, 2], 1));
    let b = Node::new(Id([3u8; 20]), Address::new([10, 0, 0, 3], 2));
    assert_eq!(core.add_node(a, Some(VERSION)), (true, true));
    assert_eq!(core.add_node(b, None), (true, false));
    assert_eq!(core.add_node(a, Some(VERSION)), (false, false));
    assert_eq!(core.routing_table().nodes(), &[a, b]);
    assert_eq!(core.signed_peers_routing_table().nodes(), &[a]);
}

#[test]
fn to_bootstrap_lists_each_address_once() {
    let mut core = new_core();
    assert!(core.to_bootstrap().is_empty());
    let a = Node::new(Id([2u8; 20]), Address::new([10, 0, 0, 2], 1));
    let b = Node::new(Id([3u8; 20]), Address::new([10, 0, 0, 3], 2));
    let c = Node::new(Id([4u8; 20]), Address::new([10, 0, 0, 2], 1));
    core.add_node(a, Some(VERSION));
    core.add_node(b, None);
    core.add_node(c, None);
    let mut list = core.to_bootstrap();
    list.sort();
    assert_eq!(list, vec!["10.0.0.2:1".to_string(), "10.0.0.3:2".to_string()]);
}

fn node(i: u8) -> Node {
    Node::new(Id([i; 20]), Address::new([10, 0, 0, i], 6881))
}

#[test]
fn cleanup_caches_the_closest_responding_nodes() {
    let mut core = new_core();
    let t = Id([20u8; 20]);
    let offline = Id([21u8; 20]);
    core.insert_iterative_query(IterativeQuery { closest_nodes: vec![node(1), node(2), node(3)], ..query(t, get_value(t), None) });
    core.insert_iterative_query(query(offline, get_value(offline), None));
    assert_eq!(core.cached_query_count(), 0);
    // The offline query found no node, whatever nodes are reported for it.
    core.cleanup_done_queries(&vec![(t, vec![node(1), node(2)]), (offline, vec![node(4)])], &vec![]);
    assert_eq!(core.cached_closest_nodes(&t), Some(vec![node(1), node(2)]));
    assert_eq!(core.cached_closest_nodes(&offline), None);
    assert_eq!(core.cached_query_count(), 1);
}

#[test]
fn cache_keeps_at_most_a_thousand_queries() {
    let mut core = new_core();
    for i in 0..=MAX_CACHED_ITERATIVE_QUERIES {
        let mut bytes = [0u8; 20];
        bytes[0] = (i % 256) as u8;
        bytes[1] = (i / 256) as u8;
        let target = Id(bytes);
        let signed = core.cache_iterative_query(target, get_value(target), &[node(1)], 3, false);
        assert!(!signed);
    }
    assert_eq!(core.cached_query_count(), MAX_CACHED_ITERATIVE_QUERIES);
    // The least recently used query, the first, left the cache.
    assert_eq!(core.cached_closest_nodes(&Id([0u8; 20])), None);
    let signed_peers = RequestTypeSpecific::GetSignedPeers(GetPeersRequestArguments { info_hash: Id([5u8; 20]) });
    assert!(core.cache_iterative_query(Id([5u8; 20]), signed_peers.clone(), &[node(1)], 1, false));
    assert!(!core.cache_iterative_query(Id([5u8; 20]), signed_peers, &[], 1, true));
}

#[test]
fn get_backs_off_while_a_query_runs() {
    let mut core = new_core();
    let t = Id([30u8; 20]);
    assert_eq!(core.get(t, get_value(t)), GetDecision::StartQuery(t));
    assert_eq!(core.iterative_queries().len(), 1);
    assert_eq!(core.iterative_queries()[0], query(t, get_value(t), None));
    assert_eq!(core.get(t, get_value(t)), GetDecision::AnswerFromRunningQuery);
    assert_eq!(core.iterative_queries().len(), 1);
    assert_eq!(core.get(t, RequestTypeSpecific::Ping), GetDecision::Ignored);
}

#[test]
fn tick_orders_done_puts_then_done_gets() {
    let mut core = new_core();
    let get = Id([40u8; 20]);
    let failing = Id([41u8; 20]);
    let checked = Id([42u8; 20]);
    let voted = Address::new([8, 8, 8, 8], 2);
    core.insert_iterative_query(query(get, get_value(get), None));
    core.insert_iterative_query(IterativeQuery { closest_nodes: vec![node(2)], ..query(failing, get_value(failing), Some(voted)) });
    core.insert_put_query(PutQuery { target: get, started: false });
    core.insert_put_query(PutQuery { target: failing, started: false });
    core.insert_put_query(PutQuery { target: checked, started: true });
    let done_gets = vec![(get, vec![node(1)]), (failing, vec![node(2)])];
    assert_eq!(core.put_queries_to_start(&done_gets), vec![get, failing]);
    // Reports of a query that is not running, or of one already reported,
    // and failures of put queries that wait on no done lookup, are dropped.
    let mut reported = done_gets.clone();
    reported.push((Id([77u8; 20]), vec![]));
    reported.push((get, vec![node(9)]));
    let event = TickEvent {
        should_refresh_table: false,
        should_ping_table: true,
        put_checks: vec![(checked, Ok(true)), (get, Ok(false))],
        done_get_queries: reported,
        put_start_failures: vec![(failing, "no nodes"), (checked, "not waiting"), (Id([77u8; 20]), "unknown")],
    };
    let actions = core.tick(event);
    assert_eq!(actions.done_put_queries, vec![(checked, None), (failing, Some("no nodes"))]);
    assert_eq!(actions.done_get_queries, done_gets);
    // Put queries are scheduled before the done ones are forgotten.
    assert_eq!(actions.should_start, vec![get, failing]);
    assert_eq!(actions.ping, Some(voted));
    assert_eq!(actions.maintenance, MaintenanceActions { self_lookups: 1, refresh_table: false, ping_table: true });
    assert_eq!(core.put_queries(), &[PutQuery { target: get, started: false }]);
    assert!(core.iterative_queries().is_empty());
    assert_eq!(core.cached_closest_nodes(&failing), Some(vec![node(2)]));
}

#[test]
fn put_starts_on_cached_nodes_or_looks_up_first() {
    let mut core = new_core();
    let cached = Id([50u8; 20]);
    let fresh = Id([51u8; 20]);
    core.cache_iterative_query(cached, get_value(cached), &[node(1), node(2)], 2, false);
    assert_eq!(core.put(cached, get_value(cached)), PutDecision::StartOn(vec![node(1), node(2)]));
    assert_eq!(core.put_queries(), &[PutQuery { target: cached, started: true }]);
    assert!(core.iterative_queries().is_empty());
    assert_eq!(core.put(fresh, get_value(fresh)), PutDecision::LookupFirst(GetDecision::StartQuery(fresh)));
    assert_eq!(core.put_queries()[1], PutQuery { target: fresh, started: false });
    assert_eq!(core.iterative_queries()[0].target, fresh);
}

#[test]
fn populate_looks_up_the_own_id() {
    let mut core = new_core();
    let own = *core.id();
    assert_eq!(core.populate(), Some(GetDecision::StartQuery(own)));
    assert_eq!(core.iterative_queries()[0].request_type, RequestTypeSpecific::FindNode(FindNodeRequestArguments { target: own }));
    assert_eq!(core.populate(), Some(GetDecision::AnswerFromRunningQuery));
    let mut lonely = Core::new(Id([1u8; 20]), vec![], false, ServerSettings::default());
    assert_eq!(lonely.populate(), None);
    assert!(lonely.iterative_queries().is_empty());
}
