//! The node core: which routing table a request type concerns, which peers
//! support signed announcements, and the bookkeeping of running queries.

use vstd::prelude::*;

use crate::common::{Address, Id, Node};
use crate::encoding::address_text;
use crate::response::{contains_id, copy_nodes};
use crate::messages::{FindNodeRequestArguments, RequestTypeSpecific};
use crate::routing_table::{id_eq, RoutingTable, RoutingTableModel};
use crate::messages::RequestSpecific;
use crate::store::{query_cache_capacity, query_cache_entries, query_cache_len, query_cache_new, query_cache_peek, query_cache_pop_lru, query_cache_put, QueryCache};
use crate::server::{request_outcome, server_wf, HandledRequest, RequestContext, Server, ServerModel, ServerSettings};

verus! {

/// The maximum number of finished get queries the node keeps.
pub const MAX_CACHED_ITERATIVE_QUERIES: usize = 1000;

/// The version this node announces: "RS" version 06.
pub const VERSION: [u8; 4] = [82, 83, 0, 6];

/// The versions of nodes known to support signed peers: this node's.
pub const VERSIONS_SUPPORTING_SIGNED_PEERS: [[u8; 4]; 1] = [[82, 83, 0, 6]];

/// `version` is of the same client as `supported` (first two bytes) and at
/// least as recent (last two bytes, compared in order).
pub open spec fn version_at_least(version: [u8; 4], supported: [u8; 4]) -> bool {
    &&& version[0] == supported[0]
    &&& version[1] == supported[1]
    &&& (version[2] > supported[2] || (version[2] == supported[2] && version[3] >= supported[3]))
}

/// Whether a node announcing `version` supports signed peers.
pub open spec fn signed_peers_supported(version: Option<[u8; 4]>) -> bool {
    match version {
        Some(v) => exists|i: int|
            0 <= i < VERSIONS_SUPPORTING_SIGNED_PEERS.len() && version_at_least(v, #[trigger] VERSIONS_SUPPORTING_SIGNED_PEERS[i]),
        None => false,
    }
}

/// Whether a node announcing `version` supports signed peers: a known
/// supporting client at that version or a later one.
pub fn supports_signed_peers(version: Option<[u8; 4]>) -> (supported: bool)
    ensures
        supported == signed_peers_supported(version),
{
    match version {
        Some(announced) => {
            let mut i: usize = 0;
            while i < VERSIONS_SUPPORTING_SIGNED_PEERS.len()
                invariant
                    version == Some(announced),
                    i <= VERSIONS_SUPPORTING_SIGNED_PEERS.len(),
                    forall|j: int| 0 <= j < i ==> !version_at_least(announced, #[trigger] VERSIONS_SUPPORTING_SIGNED_PEERS[j]),
                decreases VERSIONS_SUPPORTING_SIGNED_PEERS.len() - i,
            {
                let v = VERSIONS_SUPPORTING_SIGNED_PEERS[i];
                if announced[0] == v[0] && announced[1] == v[1] && (announced[2] > v[2] || (announced[2] == v[2] && announced[3] >= v[3])) {
                    assert(version_at_least(announced, VERSIONS_SUPPORTING_SIGNED_PEERS[i as int]));
                    return true;
                }
                i = i + 1;
            }
            false
        },
        None => false,
    }
}

/// Support for signed peers never goes away in a later release: a node of
/// the same client with a newer version is still supported.
pub proof fn lemma_signed_peers_support_monotone(version: [u8; 4], newer: [u8; 4])
    requires
        signed_peers_supported(Some(version)),
        newer[0] == version[0],
        newer[1] == version[1],
        newer[2] > version[2] || (newer[2] == version[2] && newer[3] >= version[3]),
    ensures
        signed_peers_supported(Some(newer)),
{
    let i = choose|i: int| 0 <= i < VERSIONS_SUPPORTING_SIGNED_PEERS.len() && version_at_least(version, #[trigger] VERSIONS_SUPPORTING_SIGNED_PEERS[i]);
    assert(version_at_least(newer, VERSIONS_SUPPORTING_SIGNED_PEERS[i]));
}

/// Whether requests of `request_type` concern the routing table of nodes
/// supporting signed peers rather than the basic one.
pub open spec fn uses_signed_peers_table(request_type: RequestTypeSpecific) -> bool {
    request_type is GetSignedPeers
}

/// The routing table that queries of `request_type` feed: the table of
/// nodes supporting signed peers for get_signed_peers, else the basic one.
pub fn choose_relevant_routing_table_mut<'a>(
    request_type: &'a RequestTypeSpecific,
    basic_routing_table: &'a mut RoutingTable,
    signed_peers_routing_table: &'a mut RoutingTable,
) -> (table: &'a mut RoutingTable)
    ensures
        uses_signed_peers_table(*request_type) ==> *table == *old(signed_peers_routing_table)
            && *final(signed_peers_routing_table) == *final(table)
            && *final(basic_routing_table) == *old(basic_routing_table),
        !uses_signed_peers_table(*request_type) ==> *table == *old(basic_routing_table)
            && *final(basic_routing_table) == *final(table)
            && *final(signed_peers_routing_table) == *old(signed_peers_routing_table),
{
    match request_type {
        RequestTypeSpecific::GetSignedPeers(_) => signed_peers_routing_table,
        _ => basic_routing_table,
    }
}

/// What the node core keeps of a running iterative query: its target, the
/// kind of request it sends, the public address most responders saw this
/// node at, if any, the number of subnets its responders came from, and the
/// closest nodes it has found so far. The caller that runs the query keeps
/// it up to date by inserting it again.
#[derive(Clone, Debug, PartialEq)]
pub struct IterativeQuery {
    pub target: Id,
    pub request_type: RequestTypeSpecific,
    pub best_address: Option<Address>,
    pub subnets: u8,
    pub closest_nodes: Vec<Node>,
}

/// What the node keeps of a finished get query: the closest nodes that
/// responded, the kind of request, and the number of subnets among its
/// responders.
#[derive(Debug)]
pub struct CachedQuery {
    pub closest_responding_nodes: Vec<Node>,
    pub request_type: RequestTypeSpecific,
    pub subnets: u8,
}

/// A [CachedQuery] as plain values.
pub struct CachedQueryModel {
    pub closest_responding_nodes: Seq<Node>,
    pub request_type: RequestTypeSpecific,
    pub subnets: u8,
}

impl View for CachedQuery {
    type V = CachedQueryModel;

    open spec fn view(&self) -> CachedQueryModel {
        CachedQueryModel {
            closest_responding_nodes: self.closest_responding_nodes@,
            request_type: self.request_type,
            subnets: self.subnets,
        }
    }
}

/// `kept` is the cache `before` once room is made for one more query: the
/// least recently used entry (some entry here) leaves a full cache, and a
/// cache with room stays as it is.
pub open spec fn cache_made_room(before: Map<[u8; 20], CachedQueryModel>, kept: Map<[u8; 20], CachedQueryModel>) -> bool {
    if before.len() >= MAX_CACHED_ITERATIVE_QUERIES {
        exists|evicted: [u8; 20]| before.dom().contains(evicted) && kept == before.remove(evicted)
    } else {
        kept == before
    }
}

/// Caching a finished query of `target`: room is made, then `entry`, if
/// any, is cached under the target.
pub open spec fn cache_outcome(before: Map<[u8; 20], CachedQueryModel>, after: Map<[u8; 20], CachedQueryModel>, target: Id, entry: Option<CachedQueryModel>) -> bool {
    exists|kept: Map<[u8; 20], CachedQueryModel>| #[trigger] cache_made_room(before, kept) && after == match entry {
        Some(e) => kept.insert(target.0, e),
        None => kept,
    }
}

/// What the node core keeps of a pending put query: its target and whether
/// it has started storing.
#[derive(Clone, Copy, Debug, PartialEq, Eq)]
pub struct PutQuery {
    pub target: Id,
    pub started: bool,
}

/// No two iterative queries share a target.
pub open spec fn distinct_query_targets(queries: Seq<IterativeQuery>) -> bool {
    forall|i: int, j: int| 0 <= i < queries.len() && 0 <= j < queries.len() && i != j ==> queries[i].target != queries[j].target
}

/// No two put queries share a target.
pub open spec fn distinct_put_targets(queries: Seq<PutQuery>) -> bool {
    forall|i: int, j: int| 0 <= i < queries.len() && 0 <= j < queries.len() && i != j ==> queries[i].target != queries[j].target
}

/// The iterative query with `target`, if any.
pub open spec fn query_for(queries: Seq<IterativeQuery>, target: Id) -> Option<IterativeQuery> {
    if exists|i: int| 0 <= i < queries.len() && #[trigger] queries[i].target == target {
        Some(queries[choose|i: int| 0 <= i < queries.len() && #[trigger] queries[i].target == target])
    } else {
        None
    }
}

/// The put query with `target`, if any.
pub open spec fn put_for(queries: Seq<PutQuery>, target: Id) -> Option<PutQuery> {
    if exists|i: int| 0 <= i < queries.len() && #[trigger] queries[i].target == target {
        Some(queries[choose|i: int| 0 <= i < queries.len() && #[trigger] queries[i].target == target])
    } else {
        None
    }
}

/// The iterative queries without the one with `target`.
pub open spec fn without_query(queries: Seq<IterativeQuery>, target: Id) -> Seq<IterativeQuery> {
    if exists|i: int| 0 <= i < queries.len() && #[trigger] queries[i].target == target {
        queries.remove(choose|i: int| 0 <= i < queries.len() && #[trigger] queries[i].target == target)
    } else {
        queries
    }
}

/// The iterative queries after inserting `query`: it replaces the query
/// with the same target, if any, else it is added at the end.
pub open spec fn with_query(queries: Seq<IterativeQuery>, query: IterativeQuery) -> Seq<IterativeQuery> {
    if exists|i: int| 0 <= i < queries.len() && #[trigger] queries[i].target == query.target {
        queries.update(choose|i: int| 0 <= i < queries.len() && #[trigger] queries[i].target == query.target, query)
    } else {
        queries.push(query)
    }
}

/// The put queries after inserting `query`: it replaces the query with the
/// same target, if any, else it is added at the end.
pub open spec fn with_put_query(queries: Seq<PutQuery>, query: PutQuery) -> Seq<PutQuery> {
    if exists|i: int| 0 <= i < queries.len() && #[trigger] queries[i].target == query.target {
        queries.update(choose|i: int| 0 <= i < queries.len() && #[trigger] queries[i].target == query.target, query)
    } else {
        queries.push(query)
    }
}

/// With distinct targets, the query with `target` is the one found at `i`.
proof fn lemma_query_at(queries: Seq<IterativeQuery>, target: Id, i: int)
    requires
        distinct_query_targets(queries),
        0 <= i < queries.len(),
        queries[i].target == target,
    ensures
        query_for(queries, target) == Some(queries[i]),
        without_query(queries, target) == queries.remove(i),
        distinct_query_targets(queries.remove(i)),
        forall|q: IterativeQuery| q.target == target ==> #[trigger] with_query(queries, q) == queries.update(i, q),
{
    let j = choose|j: int| 0 <= j < queries.len() && #[trigger] queries[j].target == target;
    assert(j == i);
    let r = queries.remove(i);
    assert forall|x: int, y: int| 0 <= x < r.len() && 0 <= y < r.len() && x != y implies r[x].target != r[y].target by {
        let ox = if x < i { x } else { x + 1 };
        let oy = if y < i { y } else { y + 1 };
        assert(r[x] == queries[ox]);
        assert(r[y] == queries[oy]);
    }
}

/// With distinct targets, the put query with `target` is the one at `i`.
proof fn lemma_put_at(queries: Seq<PutQuery>, target: Id, i: int)
    requires
        distinct_put_targets(queries),
        0 <= i < queries.len(),
        queries[i].target == target,
    ensures
        put_for(queries, target) == Some(queries[i]),
        forall|q: PutQuery| q.target == target ==> #[trigger] with_put_query(queries, q) == queries.update(i, q),
{
    let j = choose|j: int| 0 <= j < queries.len() && #[trigger] queries[j].target == target;
    assert(j == i);
}

/// Finds the position of the iterative query with `target`.
fn find_query(queries: &Vec<IterativeQuery>, target: &Id) -> (index: Option<usize>)
    ensures
        match index {
            Some(i) => i < queries@.len() && queries@[i as int].target == *target,
            None => forall|i: int| 0 <= i < queries@.len() ==> #[trigger] queries@[i].target != *target,
        },
{
    let mut i: usize = 0;
    while i < queries.len()
        invariant
            i <= queries@.len(),
            forall|j: int| 0 <= j < i ==> #[trigger] queries@[j].target != *target,
        decreases queries@.len() - i,
    {
        if id_eq(&queries[i].target, target) {
            return Some(i);
        }
        i = i + 1;
    }
    None
}

/// Finds the position of the put query with `target`.
fn find_put_query(queries: &Vec<PutQuery>, target: &Id) -> (index: Option<usize>)
    ensures
        match index {
            Some(i) => i < queries@.len() && queries@[i as int].target == *target,
            None => forall|i: int| 0 <= i < queries@.len() ==> #[trigger] queries@[i].target != *target,
        },
{
    let mut i: usize = 0;
    while i < queries.len()
        invariant
            i <= queries@.len(),
            forall|j: int| 0 <= j < i ==> #[trigger] queries@[j].target != *target,
        decreases queries@.len() - i,
    {
        if id_eq(&queries[i].target, target) {
            return Some(i);
        }
        i = i + 1;
    }
    None
}

/// The put queries whose target is not in `done`.
pub open spec fn without_put_queries(queries: Seq<PutQuery>, done: Seq<Id>) -> Seq<PutQuery> {
    queries.filter(|q: PutQuery| !done.contains(q.target))
}

/// The public address vote of a finished query with `best_address`: the
/// node takes the address as its public address; when it differs from the
/// previous one, the node considers itself firewalled until the new address
/// is confirmed, and the address is to be pinged. Returns the new public
/// address, the new firewalled flag and the address to ping.
pub open spec fn address_vote(public_address: Option<Address>, firewalled: bool, best_address: Option<Address>) -> (Option<Address>, bool, Option<Address>) {
    match best_address {
        Some(address) => if public_address != Some(address) {
            (Some(address), true, Some(address))
        } else {
            (Some(address), firewalled, None)
        },
        None => (public_address, firewalled, None),
    }
}

/// A vote for the address the node already has changes nothing and asks for
/// no ping; so voting twice for the same address pings at most once, and
/// leaves that address as the public address.
pub proof fn lemma_address_vote_settles(public_address: Option<Address>, firewalled: bool, address: Address)
    ensures
        address_vote(Some(address), firewalled, Some(address)) == (Some(address), firewalled, None::<Address>),
        ({
            let first = address_vote(public_address, firewalled, Some(address));
            let second = address_vote(first.0, first.1, Some(address));
            &&& second.0 == Some(address)
            &&& second.1 == first.1
            &&& second.2 is None
        }),
{
}

/// The bookkeeping state threaded through the done get queries.
pub struct CleanupState {
    pub iterative: Seq<IterativeQuery>,
    pub public_address: Option<Address>,
    pub firewalled: bool,
    pub should_start: Seq<Id>,
    pub ping: Option<Address>,
}

/// Handling of one done get query `id`: remove its iterative query, take
/// its address vote, and, unless it only looked for nodes, schedule the put
/// query waiting for it if that has not started.
pub open spec fn cleanup_step(state: CleanupState, put: Seq<PutQuery>, id: Id) -> CleanupState {
    match query_for(state.iterative, id) {
        Some(query) => {
            let vote = address_vote(state.public_address, state.firewalled, query.best_address);
            let starts = !(query.request_type is FindNode) && (put_for(put, id) matches Some(p) && !p.started);
            CleanupState {
                iterative: without_query(state.iterative, id),
                public_address: vote.0,
                firewalled: vote.1,
                should_start: if starts { state.should_start.push(id) } else { state.should_start },
                ping: vote.2,
            }
        },
        None => state,
    }
}

/// Handling of the done get queries `ids`, in order.
pub open spec fn cleanup_fold(state: CleanupState, put: Seq<PutQuery>, ids: Seq<Id>) -> CleanupState
    decreases ids.len(),
{
    if ids.len() == 0 {
        state
    } else {
        cleanup_step(cleanup_fold(state, put, ids.drop_last()), put, ids.last())
    }
}

/// Removing the query at `i` keeps targets distinct, drops the target at
/// `i`, and keeps absent targets absent.
proof fn lemma_remove_query(queries: Seq<IterativeQuery>, i: int)
    requires
        distinct_query_targets(queries),
        0 <= i < queries.len(),
    ensures
        distinct_query_targets(queries.remove(i)),
        query_for(queries.remove(i), queries[i].target) is None,
        forall|t: Id| query_for(queries, t) is None ==> #[trigger] query_for(queries.remove(i), t) is None,
{
    let r = queries.remove(i);
    assert forall|x: int| 0 <= x < r.len() implies #[trigger] r[x] == queries[if x < i { x } else { x + 1 }] by {}
    assert forall|x: int, y: int| 0 <= x < r.len() && 0 <= y < r.len() && x != y implies r[x].target != r[y].target by {
        assert(r[x] == queries[if x < i { x } else { x + 1 }]);
        assert(r[y] == queries[if y < i { y } else { y + 1 }]);
    }
    if exists|x: int| 0 <= x < r.len() && #[trigger] r[x].target == queries[i].target {
        let x = choose|x: int| 0 <= x < r.len() && #[trigger] r[x].target == queries[i].target;
        assert(r[x] == queries[if x < i { x } else { x + 1 }]);
    }
    assert forall|t: Id| query_for(queries, t) is None implies #[trigger] query_for(queries.remove(i), t) is None by {
        if exists|x: int| 0 <= x < r.len() && #[trigger] r[x].target == t {
            let x = choose|x: int| 0 <= x < r.len() && #[trigger] r[x].target == t;
            assert(r[x] == queries[if x < i { x } else { x + 1 }]);
        }
    }
}

/// Handling done get queries keeps targets distinct and leaves none of the
/// handled targets running.
proof fn lemma_fold_forgets(state: CleanupState, put: Seq<PutQuery>, ids: Seq<Id>)
    requires
        distinct_query_targets(state.iterative),
    ensures
        distinct_query_targets(cleanup_fold(state, put, ids).iterative),
        forall|k: int| 0 <= k < ids.len() ==> query_for(cleanup_fold(state, put, ids).iterative, #[trigger] ids[k]) is None,
    decreases ids.len(),
{
    if ids.len() > 0 {
        let prefix = ids.drop_last();
        lemma_fold_forgets(state, put, prefix);
        let before = cleanup_fold(state, put, prefix);
        let id = ids.last();
        match query_for(before.iterative, id) {
            Some(_) => {
                let i = choose|i: int| 0 <= i < before.iterative.len() && #[trigger] before.iterative[i].target == id;
                lemma_remove_query(before.iterative, i);
                assert forall|k: int| 0 <= k < ids.len() implies query_for(cleanup_fold(state, put, ids).iterative, #[trigger] ids[k]) is None by {
                    if k < ids.len() - 1 {
                        assert(prefix[k] == ids[k]);
                    }
                }
            },
            None => {
                assert forall|k: int| 0 <= k < ids.len() implies query_for(cleanup_fold(state, put, ids).iterative, #[trigger] ids[k]) is None by {
                    if k < ids.len() - 1 {
                        assert(prefix[k] == ids[k]);
                    }
                }
            },
        }
    }
}

/// Filtering by a predicate that every element meets changes nothing.
proof fn lemma_filter_all<A>(s: Seq<A>, pred: spec_fn(A) -> bool)
    requires
        forall|i: int| 0 <= i < s.len() ==> pred(#[trigger] s[i]),
    ensures
        s.filter(pred) == s,
    decreases s.len(),
{
    reveal_with_fuel(Seq::<_>::filter, 1);
    if s.len() > 0 {
        lemma_filter_all(s.drop_last(), pred);
        assert(s.drop_last().push(s.last()) =~= s);
    } else {
        assert(s.filter(pred) =~= s);
    }
}

/// Filtering twice is filtering by both predicates.
proof fn lemma_filter_filter<A>(s: Seq<A>, first: spec_fn(A) -> bool, second: spec_fn(A) -> bool, both: spec_fn(A) -> bool)
    requires
        forall|a: A| #[trigger] both(a) == (first(a) && second(a)),
    ensures
        s.filter(first).filter(second) == s.filter(both),
    decreases s.len(),
{
    reveal_with_fuel(Seq::<_>::filter, 1);
    if s.len() > 0 {
        lemma_filter_filter(s.drop_last(), first, second, both);
        let x = s.last();
        if first(x) {
            assert(s.filter(first) == s.drop_last().filter(first).push(x));
            assert(s.filter(first).drop_last() =~= s.drop_last().filter(first));
        } else {
            assert(s.filter(first) == s.drop_last().filter(first));
        }
    } else {
        assert(s.filter(first).filter(second) =~= s.filter(both));
    }
}

/// With distinct targets, removing the query at `i` is keeping the queries
/// of other targets.
proof fn lemma_remove_is_filter(queries: Seq<IterativeQuery>, i: int)
    requires
        distinct_query_targets(queries),
        0 <= i < queries.len(),
    ensures
        queries.remove(i) == queries.filter(|q: IterativeQuery| q.target != queries[i].target),
    decreases queries.len(),
{
    reveal_with_fuel(Seq::<_>::filter, 1);
    let id = queries[i].target;
    let pred = |q: IterativeQuery| q.target != id;
    let init = queries.drop_last();
    assert(distinct_query_targets(init)) by {
        assert forall|x: int, y: int| 0 <= x < init.len() && 0 <= y < init.len() && x != y implies init[x].target != init[y].target by {
            assert(init[x] == queries[x] && init[y] == queries[y]);
        }
    }
    if i == queries.len() - 1 {
        assert forall|k: int| 0 <= k < init.len() implies pred(#[trigger] init[k]) by {
            assert(init[k] == queries[k]);
        }
        lemma_filter_all(init, pred);
        assert(queries.remove(i) =~= init);
    } else {
        lemma_remove_is_filter(init, i);
        assert(init[i] == queries[i]);
        assert(pred(queries.last()));
        assert(queries.remove(i) =~= init.remove(i).push(queries.last()));
    }
}

/// The running queries after the done get queries `ids` are handled in
/// closed form: those of the starting state whose target is not among
/// `ids`, in order.
pub proof fn lemma_cleanup_keeps_other_queries(state: CleanupState, put: Seq<PutQuery>, ids: Seq<Id>)
    requires
        distinct_query_targets(state.iterative),
    ensures
        cleanup_fold(state, put, ids).iterative == state.iterative.filter(|q: IterativeQuery| !ids.contains(q.target)),
    decreases ids.len(),
{
    reveal_with_fuel(Seq::<_>::filter, 1);
    if ids.len() == 0 {
        lemma_filter_all(state.iterative, |q: IterativeQuery| !ids.contains(q.target));
    } else {
        let prefix = ids.drop_last();
        let id = ids.last();
        lemma_cleanup_keeps_other_queries(state, put, prefix);
        lemma_fold_forgets(state, put, prefix);
        let before = cleanup_fold(state, put, prefix).iterative;
        let earlier = |q: IterativeQuery| !prefix.contains(q.target);
        let other = |q: IterativeQuery| q.target != id;
        let all = |q: IterativeQuery| !ids.contains(q.target);
        assert forall|q: IterativeQuery| #[trigger] all(q) == (earlier(q) && other(q)) by {
            assert(ids =~= prefix.push(id));
            if prefix.contains(q.target) {
                let j = choose|j: int| 0 <= j < prefix.len() && prefix[j] == q.target;
                assert(ids[j] == q.target);
            }
            if ids.contains(q.target) && q.target != id {
                let j = choose|j: int| 0 <= j < ids.len() && ids[j] == q.target;
                assert(prefix[j] == q.target);
            }
        }
        lemma_filter_filter(state.iterative, earlier, other, all);
        match query_for(before, id) {
            Some(_) => {
                let i = choose|i: int| 0 <= i < before.len() && #[trigger] before[i].target == id;
                lemma_remove_is_filter(before, i);
                assert(without_query(before, id) == before.remove(i));
            },
            None => {
                assert forall|k: int| 0 <= k < before.len() implies other(#[trigger] before[k]) by {
                    if before[k].target == id {
                        assert(exists|i: int| 0 <= i < before.len() && #[trigger] before[i].target == id);
                    }
                }
                lemma_filter_all(before, other);
            },
        }
    }
}

/// Once done queries are cleaned up, none of them is tracked any more: no
/// running iterative query has the target of a done get query, and no put
/// query the target of a done put query.
pub proof fn lemma_cleanup_forgets_done(old_core: CoreModel, new_core: CoreModel, done_get: Seq<(Id, Vec<Node>)>, done_put: Seq<Id>)
    requires
        core_wf(old_core),
        new_core.iterative_queries == cleanup_fold(cleanup_start(old_core), old_core.put_queries, done_ids(done_get)).iterative,
        new_core.put_queries == without_put_queries(old_core.put_queries, done_put),
    ensures
        forall|k: int| 0 <= k < done_get.len() ==> query_for(new_core.iterative_queries, (#[trigger] done_get[k]).0) is None,
        forall|k: int| 0 <= k < done_put.len() ==> put_for(new_core.put_queries, #[trigger] done_put[k]) is None,
{
    let ids = done_ids(done_get);
    lemma_fold_forgets(cleanup_start(old_core), old_core.put_queries, ids);
    assert forall|k: int| 0 <= k < done_get.len() implies query_for(new_core.iterative_queries, (#[trigger] done_get[k]).0) is None by {
        assert(ids[k] == done_get[k].0);
    }
    let pred = |q: PutQuery| !done_put.contains(q.target);
    old_core.put_queries.filter_lemma(pred);
    assert forall|k: int| 0 <= k < done_put.len() implies put_for(new_core.put_queries, #[trigger] done_put[k]) is None by {
        if exists|i: int| 0 <= i < new_core.put_queries.len() && #[trigger] new_core.put_queries[i].target == done_put[k] {
            let i = choose|i: int| 0 <= i < new_core.put_queries.len() && #[trigger] new_core.put_queries[i].target == done_put[k];
            assert(pred(new_core.put_queries[i]));
            assert(done_put.contains(done_put[k]));
        }
    }
}

/// What handling the done get query `done` does to the query cache
/// `before`, given the running queries `queries` at that point: a running
/// query of its target is cached (room being made first), with the closest
/// responding nodes reported for it, unless it found no node at all; a done
/// query that is not running leaves the cache as it is.
pub open spec fn cache_step(before: Map<[u8; 20], CachedQueryModel>, after: Map<[u8; 20], CachedQueryModel>, queries: Seq<IterativeQuery>, done: (Id, Vec<Node>)) -> bool {
    match query_for(queries, done.0) {
        Some(q) => cache_outcome(before, after, done.0, if q.closest_nodes@.len() == 0 {
            None
        } else {
            Some(CachedQueryModel { closest_responding_nodes: done.1@, request_type: q.request_type, subnets: q.subnets })
        }),
        None => after == before,
    }
}

/// `caches` are the successive caches while the done get queries `done`
/// are handled in order from cache `start` to cache `after`, the
/// bookkeeping starting at `state`: each step is a [cache_step] over the
/// queries still running at that point.
pub open spec fn cache_trace(caches: Seq<Map<[u8; 20], CachedQueryModel>>, start: Map<[u8; 20], CachedQueryModel>, after: Map<[u8; 20], CachedQueryModel>, state: CleanupState, put: Seq<PutQuery>, done: Seq<(Id, Vec<Node>)>) -> bool {
    &&& caches.len() == done.len() + 1
    &&& caches[0] == start
    &&& caches.last() == after
    &&& forall|j: int| 0 <= j < done.len() ==> cache_step(#[trigger] caches[j], caches[j + 1], cleanup_fold(state, put, done_ids(done).take(j)).iterative, done[j])
}

/// The caches that handling the done get queries `done`, in order, can
/// leave from cache `start`.
pub open spec fn cache_fold(start: Map<[u8; 20], CachedQueryModel>, after: Map<[u8; 20], CachedQueryModel>, state: CleanupState, put: Seq<PutQuery>, done: Seq<(Id, Vec<Node>)>) -> bool {
    exists|caches: Seq<Map<[u8; 20], CachedQueryModel>>| #[trigger] cache_trace(caches, start, after, state, put, done)
}

/// The ids of done get queries.
pub open spec fn done_ids(done: Seq<(Id, Vec<Node>)>) -> Seq<Id> {
    done.map_values(|d: (Id, Vec<Node>)| d.0)
}

/// What the periodic maintenance of the node asks the caller to do.
#[derive(Clone, Copy, Debug, PartialEq, Eq)]
pub struct MaintenanceActions {
    /// How many lookups of the node's own id to start, to populate the
    /// routing table from the bootstrap nodes.
    pub self_lookups: usize,
    /// Whether to restart the routing table refresh timer.
    pub refresh_table: bool,
    /// Whether to restart the ping timer and ping the nodes due for it.
    pub ping_table: bool,
}

/// The periodic maintenance of a node in state `c`: an empty routing table
/// is populated from the bootstrap nodes, and so is a table due for a
/// refresh, by a lookup of the node's own id; no lookup without bootstrap
/// nodes.
pub open spec fn maintenance_for(c: CoreModel, should_refresh_table: bool, should_ping_table: bool) -> MaintenanceActions {
    MaintenanceActions {
        self_lookups: if c.bootstrap.len() == 0 {
            0
        } else {
            ((if c.routing_table.nodes.len() == 0 { 1usize } else { 0usize })
                + (if should_refresh_table { 1usize } else { 0usize })) as usize
        },
        refresh_table: should_refresh_table,
        ping_table: should_ping_table,
    }
}

/// What the periodic maintenance asks for, in terms of the node's state:
/// without bootstrap nodes no lookup; with them, a due refresh always asks
/// for a lookup of the node's own id whatever the routing table holds, and
/// an empty routing table asks for one more; the timers are restarted as
/// they are due.
pub proof fn lemma_maintenance_lookups(c: CoreModel, should_refresh_table: bool, should_ping_table: bool)
    ensures
        c.bootstrap.len() == 0 ==> maintenance_for(c, should_refresh_table, should_ping_table).self_lookups == 0,
        c.bootstrap.len() > 0 && should_refresh_table ==> maintenance_for(c, should_refresh_table, should_ping_table).self_lookups >= 1,
        c.bootstrap.len() > 0 && c.routing_table.nodes.len() > 0
            ==> maintenance_for(c, should_refresh_table, should_ping_table).self_lookups == (if should_refresh_table { 1int } else { 0int }),
        c.bootstrap.len() > 0 && c.routing_table.nodes.len() == 0
            ==> maintenance_for(c, should_refresh_table, should_ping_table).self_lookups == (if should_refresh_table { 2int } else { 1int }),
        c.bootstrap.len() > 0 ==> maintenance_for(c, true, should_ping_table).self_lookups
            == maintenance_for(c, false, should_ping_table).self_lookups + 1,
        maintenance_for(c, should_refresh_table, should_ping_table).refresh_table == should_refresh_table,
        maintenance_for(c, should_refresh_table, should_ping_table).ping_table == should_ping_table,
{
}

/// A get request of any kind but a ping or a put, for a target no query
/// runs for, registers a new query of that target with that request type,
/// after the running ones, and asks the caller to start it; a running query
/// of the target makes the request back off; pings and puts are ignored.
pub proof fn lemma_get_starts_lookups(old_c: CoreModel, new_c: CoreModel, target: Id, request_type: RequestTypeSpecific, decision: GetDecision)
    requires
        get_outcome(old_c, new_c, target, request_type, decision),
    ensures
        (request_type is Ping || request_type is Put) ==> decision == GetDecision::Ignored && new_c == old_c,
        !(request_type is Ping || request_type is Put) && query_for(old_c.iterative_queries, target) is Some
            ==> decision == GetDecision::AnswerFromRunningQuery && new_c == old_c,
        !(request_type is Ping || request_type is Put) && query_for(old_c.iterative_queries, target) is None ==> {
            &&& decision == GetDecision::StartQuery(target)
            &&& new_c.iterative_queries.len() == old_c.iterative_queries.len() + 1
            &&& new_c.iterative_queries.drop_last() == old_c.iterative_queries
            &&& new_c.iterative_queries.last().target == target
            &&& new_c.iterative_queries.last().request_type == request_type
            &&& new_c.iterative_queries.last().best_address is None
            &&& query_for(new_c.iterative_queries, target) is Some
            &&& new_c.put_queries == old_c.put_queries
            &&& new_c.cached_queries == old_c.cached_queries
        },
{
    if !(request_type is Ping || request_type is Put) && query_for(old_c.iterative_queries, target) is None {
        let query = choose|query: IterativeQuery| #[trigger] fresh_query(query, target, request_type)
            && new_c == (CoreModel { iterative_queries: with_query(old_c.iterative_queries, query), ..old_c });
        assert(with_query(old_c.iterative_queries, query) == old_c.iterative_queries.push(query));
        assert(old_c.iterative_queries.push(query).drop_last() =~= old_c.iterative_queries);
        let n = old_c.iterative_queries.len() as int;
        assert(new_c.iterative_queries[n].target == target);
    }
}

/// What one tick of the node learned from its socket and its queries.
pub struct TickEvent<E> {
    /// Whether the routing table is due for a refresh.
    pub should_refresh_table: bool,
    /// Whether the routing table is due for a ping round.
    pub should_ping_table: bool,
    /// The check of each put query: done, still running, or failed.
    pub put_checks: Vec<(Id, Result<bool, E>)>,
    /// The get queries found done, with their closest responding nodes.
    pub done_get_queries: Vec<(Id, Vec<Node>)>,
    /// The put queries waiting on those get queries that failed to start,
    /// with their errors.
    pub put_start_failures: Vec<(Id, E)>,
}

/// What one tick of the node reports and asks the caller to do.
pub struct TickActions<E> {
    /// The periodic maintenance to carry out.
    pub maintenance: MaintenanceActions,
    /// The done get queries, with their closest responding nodes.
    pub done_get_queries: Vec<(Id, Vec<Node>)>,
    /// The done put queries, with the error of those that failed.
    pub done_put_queries: Vec<(Id, Option<E>)>,
    /// The put queries that waited on a done get query and had not started.
    pub should_start: Vec<Id>,
    /// The address to ping to confirm a new public address, if any.
    pub ping: Option<Address>,
}

/// The done get queries of `done` whose query is running in `queries`,
/// each target once (its first report), in order.
pub open spec fn running_done(queries: Seq<IterativeQuery>, done: Seq<(Id, Vec<Node>)>) -> Seq<(Id, Vec<Node>)>
    decreases done.len(),
{
    if done.len() == 0 {
        Seq::empty()
    } else {
        let earlier = running_done(queries, done.drop_last());
        if query_for(queries, done.last().0) is Some && !done_ids(earlier).contains(done.last().0) {
            earlier.push(done.last())
        } else {
            earlier
        }
    }
}

/// The reported done get queries are of running queries, with distinct
/// targets.
pub proof fn lemma_running_done(queries: Seq<IterativeQuery>, done: Seq<(Id, Vec<Node>)>)
    ensures
        forall|j: int| 0 <= j < running_done(queries, done).len() ==> query_for(queries, (#[trigger] running_done(queries, done)[j]).0) is Some,
        forall|j: int, k: int| 0 <= j < k < running_done(queries, done).len()
            ==> (#[trigger] running_done(queries, done)[j]).0 != (#[trigger] running_done(queries, done)[k]).0,
    decreases done.len(),
{
    if done.len() > 0 {
        lemma_running_done(queries, done.drop_last());
        let earlier = running_done(queries, done.drop_last());
        let r = running_done(queries, done);
        if query_for(queries, done.last().0) is Some && !done_ids(earlier).contains(done.last().0) {
            assert forall|j: int, k: int| 0 <= j < k < r.len() implies (#[trigger] r[j]).0 != (#[trigger] r[k]).0 by {
                if k == r.len() - 1 {
                    assert(done_ids(earlier)[j] == r[j].0);
                }
                else {
                    assert(r[j] == earlier[j] && r[k] == earlier[k]);
                }
            }
            assert forall|j: int| 0 <= j < r.len() implies query_for(queries, (#[trigger] r[j]).0) is Some by {
                if j < r.len() - 1 {
                    assert(r[j] == earlier[j]);
                }
            }
        }
    }
}

/// The failures to start of put queries that exist in `puts` and wait on
/// one of the done get queries `gets`.
pub open spec fn waiting_failures<E>(puts: Seq<PutQuery>, gets: Seq<(Id, Vec<Node>)>, failures: Seq<(Id, E)>) -> Seq<(Id, E)> {
    failures.filter(|f: (Id, E)| done_ids(gets).contains(f.0) && put_for(puts, f.0) is Some)
}

/// The put queries that failed to start, as done put queries.
pub open spec fn failed_puts<E>(failures: Seq<(Id, E)>) -> Seq<(Id, Option<E>)> {
    failures.map_values(|f: (Id, E)| (f.0, Some(f.1)))
}

/// The targets of done put queries.
pub open spec fn put_done_ids<E>(done: Seq<(Id, Option<E>)>) -> Seq<Id> {
    done.map_values(|d: (Id, Option<E>)| d.0)
}

/// The ids of the done get queries that a put query waits on, in order.
pub open spec fn waiting_puts(puts: Seq<PutQuery>, done: Seq<(Id, Vec<Node>)>) -> Seq<Id> {
    done_ids(done).filter(|id: Id| put_for(puts, id) is Some)
}

/// A done put query check: `Ok(true)` when the query is done, `Ok(false)`
/// while it runs, `Err` when it failed.
pub open spec fn done_put_entry<E>(check: (Id, Result<bool, E>)) -> Seq<(Id, Option<E>)> {
    match check.1 {
        Ok(true) => seq![(check.0, None)],
        Ok(false) => Seq::empty(),
        Err(e) => seq![(check.0, Some(e))],
    }
}

/// The done put queries among `checks`, in order, with their errors.
pub open spec fn done_puts<E>(checks: Seq<(Id, Result<bool, E>)>) -> Seq<(Id, Option<E>)>
    decreases checks.len(),
{
    if checks.len() == 0 {
        Seq::empty()
    } else {
        done_put_entry(checks[0]) + done_puts(checks.drop_first())
    }
}

/// Picks the done put queries out of the checks of all put queries: a
/// query that is done is reported without error, one that failed with its
/// error, and one still running is left out.
pub fn done_put_queries<E>(checks: Vec<(Id, Result<bool, E>)>) -> (done: Vec<(Id, Option<E>)>)
    ensures
        done@ == done_puts(checks@),
{
    let ghost all = checks@;
    let mut checks = checks;
    let mut done: Vec<(Id, Option<E>)> = Vec::new();
    while checks.len() > 0
        invariant
            done@ + done_puts(checks@) == done_puts(all),
        decreases checks@.len(),
    {
        let ghost before = checks@;
        let (id, check) = checks.remove(0);
        proof {
            assert(before.drop_first() =~= checks@);
        }
        let ghost head = done_put_entry(before[0]);
        match check {
            Ok(true) => done.push((id, None)),
            Ok(false) => {},
            Err(e) => done.push((id, Some(e))),
        }
        proof {
            assert(done_puts(before) == head + done_puts(checks@));
        }
        assert(done@ + done_puts(checks@) =~= done_puts(all));
    }
    assert(done@ =~= done_puts(all));
    done
}

/// `query` is a new query of `target` with `request_type`: no address
/// vote, no responder, no node found yet.
pub open spec fn fresh_query(query: IterativeQuery, target: Id, request_type: RequestTypeSpecific) -> bool {
    &&& query.target == target
    &&& query.request_type == request_type
    &&& query.best_address is None
    &&& query.subnets == 0
    &&& query.closest_nodes@.len() == 0
}

/// How a get request for `target` with `request_type` is decided from core
/// state `old_c`, leaving `new_c`: pings and puts are ignored; while a query
/// of the target runs, the caller answers from it; else a fresh query of
/// the target is registered.
pub open spec fn get_outcome(old_c: CoreModel, new_c: CoreModel, target: Id, request_type: RequestTypeSpecific, decision: GetDecision) -> bool {
    if request_type is Ping || request_type is Put {
        decision == GetDecision::Ignored && new_c == old_c
    } else if query_for(old_c.iterative_queries, target) is Some {
        decision == GetDecision::AnswerFromRunningQuery && new_c == old_c
    } else {
        decision == GetDecision::StartQuery(target) && exists|query: IterativeQuery| #[trigger] fresh_query(query, target, request_type)
            && new_c == (CoreModel { iterative_queries: with_query(old_c.iterative_queries, query), ..old_c })
    }
}

/// What to do on a put request: start storing at the cached closest nodes
/// of the target, or look the target up first.
#[derive(Clone, Debug, PartialEq, Eq)]
pub enum PutDecision {
    /// A finished query of the target is cached: start storing at its
    /// closest responding nodes.
    StartOn(Vec<Node>),
    /// No query of the target is cached: the put waits for this lookup.
    LookupFirst(GetDecision),
}

/// What to do on a get request for a target.
#[derive(Clone, Copy, Debug, PartialEq, Eq)]
pub enum GetDecision {
    /// The request type is not a lookup (ping, put): nothing is done.
    Ignored,
    /// A query of the target is running: answer with the responses it has
    /// seen so far, and start no other.
    AnswerFromRunningQuery,
    /// A new iterative query of the target was registered: visit the nodes
    /// closest to it.
    StartQuery(Id),
}

/// The node core: routing tables, running queries and the server.
#[derive(Debug)]
pub struct Core {
    bootstrap: Vec<Address>,
    routing_table: RoutingTable,
    signed_peers_routing_table: RoutingTable,
    iterative_queries: Vec<IterativeQuery>,
    put_queries: Vec<PutQuery>,
    cached_iterative_queries: QueryCache,
    server: Server,
    public_address: Option<Address>,
    firewalled: bool,
    server_mode: bool,
}

/// The state of a [Core] as plain values.
pub struct CoreModel {
    pub bootstrap: Seq<Address>,
    pub routing_table: RoutingTableModel,
    pub signed_peers_routing_table: RoutingTableModel,
    pub iterative_queries: Seq<IterativeQuery>,
    pub put_queries: Seq<PutQuery>,
    pub cached_queries: Map<[u8; 20], CachedQueryModel>,
    pub cache_capacity: nat,
    pub server: ServerModel,
    pub public_address: Option<Address>,
    pub firewalled: bool,
    pub server_mode: bool,
}

impl View for Core {
    type V = CoreModel;

    closed spec fn view(&self) -> CoreModel {
        CoreModel {
            bootstrap: self.bootstrap@,
            routing_table: self.routing_table@,
            signed_peers_routing_table: self.signed_peers_routing_table@,
            iterative_queries: self.iterative_queries@,
            put_queries: self.put_queries@,
            cached_queries: query_cache_entries(self.cached_iterative_queries),
            cache_capacity: query_cache_capacity(self.cached_iterative_queries),
            server: self.server@,
            public_address: self.public_address,
            firewalled: self.firewalled,
            server_mode: self.server_mode,
        }
    }
}

/// Queries have distinct targets, the query cache is within its capacity
/// and the server is well formed.
pub open spec fn core_wf(c: CoreModel) -> bool {
    &&& distinct_query_targets(c.iterative_queries)
    &&& distinct_put_targets(c.put_queries)
    &&& c.cached_queries.dom().finite()
    &&& c.cached_queries.len() <= c.cache_capacity
    &&& c.cache_capacity == MAX_CACHED_ITERATIVE_QUERIES
    &&& server_wf(c.server)
}

/// The text forms of the addresses of the nodes of both routing tables.
pub open spec fn known_addresses(c: CoreModel) -> Seq<Seq<char>> {
    (c.routing_table.nodes + c.signed_peers_routing_table.nodes).map_values(|n: Node| address_text(n.address))
}

/// The state the handling of done get queries starts from.
pub open spec fn cleanup_start(c: CoreModel) -> CleanupState {
    CleanupState {
        iterative: c.iterative_queries,
        public_address: c.public_address,
        firewalled: c.firewalled,
        should_start: Seq::empty(),
        ping: None,
    }
}

/// No two texts of `list` are the same.
pub open spec fn distinct_texts(list: Seq<String>) -> bool {
    forall|i: int, j: int| 0 <= i < list.len() && 0 <= j < list.len() && i != j ==> list[i]@ != list[j]@
}

/// Whether `text` is one of the texts of `list`.
pub open spec fn has_text(list: Seq<String>, text: Seq<char>) -> bool {
    exists|i: int| 0 <= i < list.len() && #[trigger] list[i]@ == text
}

/// Appends the text of each address of `nodes` not yet in `list`.
fn add_addresses(list: &mut Vec<String>, nodes: &[Node])
    requires
        distinct_texts(old(list)@),
    ensures
        distinct_texts(final(list)@),
        forall|t: Seq<char>|
            has_text(final(list)@, t) <==> (has_text(old(list)@, t)
                || nodes@.map_values(|n: Node| address_text(n.address)).contains(t)),
{
    let ghost texts = nodes@.map_values(|n: Node| address_text(n.address));
    let mut k: usize = 0;
    while k < nodes.len()
        invariant
            k <= nodes@.len(),
            texts == nodes@.map_values(|n: Node| address_text(n.address)),
            distinct_texts(list@),
            forall|t: Seq<char>|
                has_text(list@, t) <==> (has_text(old(list)@, t) || texts.take(k as int).contains(t)),
        decreases nodes@.len() - k,
    {
        let text = nodes[k].address.to_string();
        let ghost before = list@;
        if !contains_text(list, &text) {
            list.push(text);
            proof {
                assert forall|i: int, j: int| 0 <= i < list@.len() && 0 <= j < list@.len() && i != j implies list@[i]@ != list@[j]@ by {
                    if i < before.len() && j < before.len() {
                    } else if i < before.len() {
                        assert(list@[i] == before[i]);
                    } else {
                        assert(list@[j] == before[j]);
                    }
                }
            }
        }
        proof {
            assert(texts.take(k + 1) =~= texts.take(k as int).push(address_text(nodes@[k as int].address)));
            assert forall|t: Seq<char>| has_text(list@, t) <==> (has_text(old(list)@, t) || texts.take(k + 1).contains(t)) by {
                if has_text(list@, t) {
                    let i = choose|i: int| 0 <= i < list@.len() && #[trigger] list@[i]@ == t;
                    if i < before.len() {
                        assert(before[i] == list@[i]);
                        assert(has_text(before, t));
                    } else {
                        assert(texts.take(k + 1)[k as int] == t);
                    }
                }
                if texts.take(k + 1).contains(t) {
                    let j = choose|j: int| 0 <= j < texts.take(k + 1).len() && #[trigger] texts.take(k + 1)[j] == t;
                    if j < k {
                        assert(texts.take(k as int)[j] == t);
                    } else {
                        if list@.len() > before.len() {
                            assert(list@[before.len() as int]@ == t);
                        }
                    }
                }
                if has_text(old(list)@, t) || texts.take(k as int).contains(t) {
                    assert(has_text(before, t));
                    let i = choose|i: int| 0 <= i < before.len() && #[trigger] before[i]@ == t;
                    assert(list@[i] == before[i]);
                }
            }
        }
        k = k + 1;
    }
    assert(texts.take(nodes@.len() as int) =~= texts);
}

/// Whether the text `s` is in `list`.
pub fn contains_text(list: &Vec<String>, s: &String) -> (found: bool)
    ensures
        found == exists|i: int| 0 <= i < list@.len() && #[trigger] list@[i]@ == s@,
{
    let mut i: usize = 0;
    while i < list.len()
        invariant
            i <= list@.len(),
            forall|j: int| 0 <= j < i ==> #[trigger] list@[j]@ != s@,
        decreases list@.len() - i,
    {
        if list[i] == *s {
            return true;
        }
        i = i + 1;
    }
    false
}

impl Core {
    /// Creates the core of a node with `id`, firewalled until proven
    /// otherwise, with empty routing tables and no query.
    pub fn new(id: Id, bootstrap: Vec<Address>, server_mode: bool, server_settings: ServerSettings) -> (core: Core)
        ensures
            core_wf(core@),
            core@.bootstrap == bootstrap@,
            core@.routing_table.id == id,
            core@.routing_table.nodes.len() == 0,
            core@.signed_peers_routing_table.id == id,
            core@.signed_peers_routing_table.nodes.len() == 0,
            core@.iterative_queries.len() == 0,
            core@.put_queries.len() == 0,
            core@.cached_queries.dom().is_empty(),
            core@.cache_capacity == MAX_CACHED_ITERATIVE_QUERIES,
            core@.public_address is None,
            core@.firewalled,
            core@.server_mode == server_mode,
            core@.server.immutable_values.dom().is_empty(),
            core@.server.mutable_values.dom().is_empty(),
    {
        let server = Server::new(server_settings);
        Core {
            bootstrap,
            routing_table: RoutingTable::new(id),
            signed_peers_routing_table: RoutingTable::new(id),
            iterative_queries: Vec::new(),
            put_queries: Vec::new(),
            cached_iterative_queries: query_cache_new(MAX_CACHED_ITERATIVE_QUERIES),
            server,
            public_address: None,
            firewalled: true,
            server_mode,
        }
    }

    /// Starts tracking `query`, replacing a query with the same target.
    pub fn insert_iterative_query(&mut self, query: IterativeQuery)
        requires
            core_wf(old(self)@),
        ensures
            core_wf(final(self)@),
            final(self)@ == (CoreModel { iterative_queries: with_query(old(self)@.iterative_queries, query), ..old(self)@ }),
    {
        let ghost old_queries = self.iterative_queries@;
        match find_query(&self.iterative_queries, &query.target) {
            Some(i) => {
                proof {
                    lemma_query_at(old_queries, query.target, i as int);
                }
                self.iterative_queries.set(i, query);
                proof {
                    let qs = self.iterative_queries@;
                    assert forall|x: int, y: int| 0 <= x < qs.len() && 0 <= y < qs.len() && x != y implies qs[x].target != qs[y].target by {
                        if x != i && y != i {
                            assert(qs[x] == old_queries[x]);
                            assert(qs[y] == old_queries[y]);
                        } else if x == i {
                            assert(qs[y] == old_queries[y]);
                        } else {
                            assert(qs[x] == old_queries[x]);
                        }
                    }
                }
            },
            None => {
                self.iterative_queries.push(query);
            },
        }
    }

    /// Starts tracking the put query `query`, replacing one with the same
    /// target.
    pub fn insert_put_query(&mut self, query: PutQuery)
        requires
            core_wf(old(self)@),
        ensures
            core_wf(final(self)@),
            final(self)@ == (CoreModel { put_queries: with_put_query(old(self)@.put_queries, query), ..old(self)@ }),
    {
        let ghost old_queries = self.put_queries@;
        match find_put_query(&self.put_queries, &query.target) {
            Some(i) => {
                proof {
                    lemma_put_at(old_queries, query.target, i as int);
                }
                self.put_queries.set(i, query);
                proof {
                    let qs = self.put_queries@;
                    assert forall|x: int, y: int| 0 <= x < qs.len() && 0 <= y < qs.len() && x != y implies qs[x].target != qs[y].target by {
                        if x != i && y != i {
                            assert(qs[x] == old_queries[x]);
                            assert(qs[y] == old_queries[y]);
                        } else if x == i {
                            assert(qs[y] == old_queries[y]);
                        } else {
                            assert(qs[x] == old_queries[x]);
                        }
                    }
                }
            },
            None => {
                self.put_queries.push(query);
            },
        }
    }

    /// Decides a get request for `target` with `request_type`: pings and
    /// puts are ignored; while a query of the target runs, the caller is to
    /// answer from its responses so far, backing off the network; else a
    /// new iterative query of the target is registered, to be started by
    /// the caller.
    pub fn get(&mut self, target: Id, request_type: RequestTypeSpecific) -> (decision: GetDecision)
        requires
            core_wf(old(self)@),
        ensures
            core_wf(final(self)@),
            get_outcome(old(self)@, final(self)@, target, request_type, decision),
            !(request_type is Ping || request_type is Put) && query_for(old(self)@.iterative_queries, target) is None
                ==> decision == GetDecision::StartQuery(target)
                    && final(self)@.iterative_queries.len() == old(self)@.iterative_queries.len() + 1
                    && final(self)@.iterative_queries.last().target == target
                    && final(self)@.iterative_queries.last().request_type == request_type,
    {
        let ignored = match &request_type {
            RequestTypeSpecific::Ping => true,
            RequestTypeSpecific::Put(_) => true,
            _ => false,
        };
        if ignored {
            return GetDecision::Ignored;
        }
        match find_query(&self.iterative_queries, &target) {
            Some(i) => {
                proof {
                    lemma_query_at(self.iterative_queries@, target, i as int);
                }
                GetDecision::AnswerFromRunningQuery
            },
            None => {
                let query = IterativeQuery { target, request_type, best_address: None, subnets: 0, closest_nodes: Vec::new() };
                assert(fresh_query(query, target, request_type));
                self.insert_iterative_query(query);
                GetDecision::StartQuery(target)
            },
        }
    }

    /// Decides a put request for `target`, whose lookup would be a get of
    /// `lookup_type`: with a cached finished query of the target, the put
    /// query is registered as started and the caller stores at that query's
    /// closest responding nodes; else the put query is registered as waiting
    /// and the lookup is decided as a get.
    pub fn put(&mut self, target: Id, lookup_type: RequestTypeSpecific) -> (decision: PutDecision)
        requires
            core_wf(old(self)@),
        ensures
            core_wf(final(self)@),
            old(self)@.cached_queries.dom().contains(target.0) ==> (decision matches PutDecision::StartOn(nodes)
                && nodes@ == old(self)@.cached_queries[target.0].closest_responding_nodes
                && final(self)@ == (CoreModel {
                    put_queries: with_put_query(old(self)@.put_queries, PutQuery { target, started: true }),
                    ..old(self)@
                })),
            !old(self)@.cached_queries.dom().contains(target.0) ==> (decision matches PutDecision::LookupFirst(lookup)
                && exists|looked_up: CoreModel| #[trigger] get_outcome(old(self)@, looked_up, target, lookup_type, lookup)
                    && final(self)@ == (CoreModel {
                        put_queries: with_put_query(old(self)@.put_queries, PutQuery { target, started: false }),
                        ..looked_up
                    })),
    {
        match self.cached_closest_nodes(&target) {
            Some(nodes) => {
                self.insert_put_query(PutQuery { target, started: true });
                PutDecision::StartOn(nodes)
            },
            None => {
                let lookup = self.get(target, lookup_type);
                let ghost looked_up = self@;
                self.insert_put_query(PutQuery { target, started: false });
                assert(get_outcome(old(self)@, looked_up, target, lookup_type, lookup));
                PutDecision::LookupFirst(lookup)
            },
        }
    }

    /// Populates the routing table: with bootstrap nodes, a lookup of the
    /// node's own id is decided as a get; without, nothing is done.
    pub fn populate(&mut self) -> (lookup: Option<GetDecision>)
        requires
            core_wf(old(self)@),
        ensures
            core_wf(final(self)@),
            old(self)@.bootstrap.len() == 0 ==> lookup is None && final(self)@ == old(self)@,
            old(self)@.bootstrap.len() > 0 ==> (lookup matches Some(g) && get_outcome(
                old(self)@,
                final(self)@,
                old(self)@.routing_table.id,
                RequestTypeSpecific::FindNode(FindNodeRequestArguments { target: old(self)@.routing_table.id }),
                g,
            )),
    {
        if self.bootstrap.len() == 0 {
            return None;
        }
        let id = *self.routing_table.id();
        Some(self.get(id, RequestTypeSpecific::FindNode(FindNodeRequestArguments { target: id })))
    }

    /// Caches a finished get query of `target`: when the cache is full the
    /// least recently used query leaves it; then, unless the query found no
    /// node at all (`offline`), its closest responding nodes, request type
    /// and responders' subnet count are cached under the target. Returns
    /// whether the statistics of the query belong to the routing table of
    /// nodes supporting signed peers (an offline query's belong to the basic
    /// table).
    pub fn cache_iterative_query(
        &mut self,
        target: Id,
        request_type: RequestTypeSpecific,
        closest_responding_nodes: &[Node],
        subnets: u8,
        offline: bool,
    ) -> (signed_table: bool)
        requires
            core_wf(old(self)@),
        ensures
            core_wf(final(self)@),
            signed_table == (!offline && uses_signed_peers_table(request_type)),
            cache_outcome(old(self)@.cached_queries, final(self)@.cached_queries, target, if offline {
                None
            } else {
                Some(CachedQueryModel { closest_responding_nodes: closest_responding_nodes@, request_type, subnets })
            }),
            final(self)@ == (CoreModel { cached_queries: final(self)@.cached_queries, ..old(self)@ }),
    {
        let ghost before = self@.cached_queries;
        if query_cache_len(&self.cached_iterative_queries) >= MAX_CACHED_ITERATIVE_QUERIES {
            let popped = query_cache_pop_lru(&mut self.cached_iterative_queries);
            proof {
                if let Some((key, _)) = popped {
                    assert(cache_made_room(before, self@.cached_queries));
                }
            }
        }
        let ghost kept = self@.cached_queries;
        assert(cache_made_room(before, kept));
        assert(kept.len() < MAX_CACHED_ITERATIVE_QUERIES);
        if offline {
            return false;
        }
        let signed = match &request_type {
            RequestTypeSpecific::GetSignedPeers(_) => true,
            _ => false,
        };
        let entry = CachedQuery { closest_responding_nodes: copy_nodes(closest_responding_nodes), request_type, subnets };
        query_cache_put(&mut self.cached_iterative_queries, target.0, entry);
        signed
    }

    /// Takes in the public address vote of a finished query (the address
    /// most of its responders saw this node at, if any), and returns the
    /// address to ping to confirm it when it is new.
    pub fn update_address_votes_from_iterative_query(&mut self, best_address: Option<Address>) -> (to_ping: Option<Address>)
        requires
            core_wf(old(self)@),
        ensures
            core_wf(final(self)@),
            (final(self)@.public_address, final(self)@.firewalled, to_ping)
                == address_vote(old(self)@.public_address, old(self)@.firewalled, best_address),
            final(self)@ == (CoreModel {
                public_address: final(self)@.public_address,
                firewalled: final(self)@.firewalled,
                ..old(self)@
            }),
    {
        if let Some(new_address) = best_address {
            let changed = match self.public_address {
                Some(previous) => !previous.same_as(&new_address),
                None => true,
            };
            self.public_address = Some(new_address);
            if changed {
                self.firewalled = true;
                return Some(new_address);
            }
        }
        None
    }

    /// Forgets the done get queries `done_get_queries`, in order: each
    /// still running one is removed, its public address vote taken, and,
    /// unless it only looked for nodes, the put query waiting for it is
    /// scheduled when not yet started. Then forgets the done put queries.
    /// Returns the targets of the put queries to start and the address to
    /// ping to confirm a new public address (of the last query that voted).
    pub fn cleanup_done_queries(&mut self, done_get_queries: &Vec<(Id, Vec<Node>)>, done_put_queries: &Vec<Id>) -> (result: (Vec<Id>, Option<Address>))
        requires
            core_wf(old(self)@),
        ensures
            core_wf(final(self)@),
            ({
                let folded = cleanup_fold(cleanup_start(old(self)@), old(self)@.put_queries, done_ids(done_get_queries@));
                &&& final(self)@.iterative_queries == folded.iterative
                &&& final(self)@.public_address == folded.public_address
                &&& final(self)@.firewalled == folded.firewalled
                &&& result.0@ == folded.should_start
                &&& result.1 == folded.ping
            }),
            final(self)@.iterative_queries == old(self)@.iterative_queries.filter(
                |q: IterativeQuery| !done_ids(done_get_queries@).contains(q.target),
            ),
            final(self)@.put_queries == without_put_queries(old(self)@.put_queries, done_put_queries@),
            cache_fold(old(self)@.cached_queries, final(self)@.cached_queries, cleanup_start(old(self)@), old(self)@.put_queries, done_get_queries@),
            final(self)@ == (CoreModel {
                iterative_queries: final(self)@.iterative_queries,
                put_queries: final(self)@.put_queries,
                public_address: final(self)@.public_address,
                firewalled: final(self)@.firewalled,
                cached_queries: final(self)@.cached_queries,
                ..old(self)@
            }),
    {
        let ghost start = cleanup_start(self@);
        let ghost puts = self@.put_queries;
        let ghost ids = done_ids(done_get_queries@);
        let ghost mut caches: Seq<Map<[u8; 20], CachedQueryModel>> = seq![self@.cached_queries];
        let mut should_start: Vec<Id> = Vec::new();
        let mut ping: Option<Address> = None;
        let mut i: usize = 0;
        while i < done_get_queries.len()
            invariant
                caches.len() == i + 1,
                caches[0] == old(self)@.cached_queries,
                caches.last() == self@.cached_queries,
                forall|j: int| 0 <= j < i ==> cache_step(#[trigger] caches[j], caches[j + 1], cleanup_fold(start, puts, ids.take(j)).iterative, done_get_queries@[j]),
                i <= done_get_queries@.len(),
                ids == done_ids(done_get_queries@),
                core_wf(self@),
                self@.put_queries == puts,
                self@ == (CoreModel {
                    iterative_queries: self@.iterative_queries,
                    public_address: self@.public_address,
                    firewalled: self@.firewalled,
                    cached_queries: self@.cached_queries,
                    ..old(self)@
                }),
                cleanup_fold(start, puts, ids.take(i as int)) == (CleanupState {
                    iterative: self@.iterative_queries,
                    public_address: self@.public_address,
                    firewalled: self@.firewalled,
                    should_start: should_start@,
                    ping,
                }),
            decreases done_get_queries@.len() - i,
        {
            let id = done_get_queries[i].0;
            proof {
                assert(ids.take(i + 1).drop_last() =~= ids.take(i as int));
                assert(ids.take(i + 1).last() == id);
            }
            let ghost state = cleanup_fold(start, puts, ids.take(i as int));
            let ghost cache_before = self@.cached_queries;
            match find_query(&self.iterative_queries, &id) {
                Some(index) => {
                    proof {
                        lemma_query_at(self.iterative_queries@, id, index as int);
                    }
                    let query = self.iterative_queries.remove(index);
                    ping = self.update_address_votes_from_iterative_query(query.best_address);
                    let only_nodes = match query.request_type {
                        RequestTypeSpecific::FindNode(_) => true,
                        _ => false,
                    };
                    let offline = query.closest_nodes.len() == 0;
                    self.cache_iterative_query(id, query.request_type, done_get_queries[i].1.as_slice(), query.subnets, offline);
                    proof {
                        assert(query_for(state.iterative, id) == Some(query));
                        assert(cache_step(cache_before, self@.cached_queries, state.iterative, done_get_queries@[i as int]));
                        caches = caches.push(self@.cached_queries);
                        assert(caches[i as int] == cache_before);
                    }
                    if !only_nodes {
                        match find_put_query(&self.put_queries, &id) {
                            Some(p) => {
                                proof {
                                    lemma_put_at(puts, id, p as int);
                                }
                                if !self.put_queries[p].started {
                                    should_start.push(id);
                                }
                            },
                            None => {},
                        }
                    }
                },
                None => {
                    proof {
                        assert(query_for(state.iterative, id) is None);
                        assert(cache_step(cache_before, self@.cached_queries, state.iterative, done_get_queries@[i as int]));
                        caches = caches.push(self@.cached_queries);
                        assert(caches[i as int] == cache_before);
                    }
                },
            }
            i = i + 1;
        }
        proof {
            assert(ids.take(done_get_queries@.len() as int) =~= ids);
            assert(cache_trace(caches, old(self)@.cached_queries, self@.cached_queries, start, puts, done_get_queries@));
            lemma_cleanup_keeps_other_queries(start, puts, ids);
        }
        let ghost old_puts = self.put_queries@;
        let mut kept: Vec<PutQuery> = Vec::new();
        let ghost pred = |q: PutQuery| !done_put_queries@.contains(q.target);
        let mut k: usize = 0;
        while k < self.put_queries.len()
            invariant
                k <= old_puts.len(),
                self.put_queries@ == old_puts,
                distinct_put_targets(old_puts),
                pred == (|q: PutQuery| !done_put_queries@.contains(q.target)),
                kept@ == old_puts.take(k as int).filter(pred),
                distinct_put_targets(kept@),
                forall|x: int| 0 <= x < kept@.len() ==> exists|j: int| 0 <= j < k && old_puts[j] == #[trigger] kept@[x],
            decreases old_puts.len() - k,
        {
            proof {
                reveal_with_fuel(Seq::<_>::filter, 1);
                assert(old_puts.take(k + 1).drop_last() =~= old_puts.take(k as int));
            }
            let query = self.put_queries[k];
            if !contains_id(done_put_queries.as_slice(), &query.target) {
                let ghost before = kept@;
                kept.push(query);
                proof {
                    assert forall|x: int, y: int| 0 <= x < kept@.len() && 0 <= y < kept@.len() && x != y implies kept@[x].target != kept@[y].target by {
                        if x < before.len() && y < before.len() {
                            assert(kept@[x] == before[x]);
                            assert(kept@[y] == before[y]);
                        } else if x < before.len() {
                            assert(kept@[x] == before[x]);
                            let j = choose|j: int| 0 <= j < k && old_puts[j] == #[trigger] before[x];
                        } else {
                            assert(kept@[y] == before[y]);
                            let j = choose|j: int| 0 <= j < k && old_puts[j] == #[trigger] before[y];
                        }
                    }
                    assert forall|x: int| 0 <= x < kept@.len() implies exists|j: int| 0 <= j < k + 1 && old_puts[j] == #[trigger] kept@[x] by {
                        if x < before.len() {
                            assert(kept@[x] == before[x]);
                            let j = choose|j: int| 0 <= j < k && old_puts[j] == #[trigger] before[x];
                        } else {
                            assert(old_puts[k as int] == kept@[x]);
                        }
                    }
                }
            }
            k = k + 1;
        }
        proof {
            assert(old_puts.take(old_puts.len() as int) =~= old_puts);
        }
        self.put_queries = kept;
        (should_start, ping)
    }

    /// The text forms of the addresses of all the nodes of both routing
    /// tables, each once: bootstrapping nodes for a next session.
    pub fn to_bootstrap(&self) -> (list: Vec<String>)
        ensures
            distinct_texts(list@),
            forall|t: Seq<char>| has_text(list@, t) <==> known_addresses(self@).contains(t),
    {
        let mut list: Vec<String> = Vec::new();
        add_addresses(&mut list, self.routing_table.nodes());
        add_addresses(&mut list, self.signed_peers_routing_table.nodes());
        proof {
            let a = self@.routing_table.nodes;
            let b = self@.signed_peers_routing_table.nodes;
            let f = |n: Node| address_text(n.address);
            assert((a + b).map_values(f) =~= a.map_values(f) + b.map_values(f));
            assert forall|t: Seq<char>| has_text(list@, t) <==> known_addresses(self@).contains(t) by {
                let all = a.map_values(f) + b.map_values(f);
                if a.map_values(f).contains(t) {
                    let j = choose|j: int| 0 <= j < a.map_values(f).len() && #[trigger] a.map_values(f)[j] == t;
                    assert(all[j] == t);
                }
                if b.map_values(f).contains(t) {
                    let j = choose|j: int| 0 <= j < b.map_values(f).len() && #[trigger] b.map_values(f)[j] == t;
                    assert(all[a.len() + j] == t);
                }
                if all.contains(t) {
                    let j = choose|j: int| 0 <= j < all.len() && #[trigger] all[j] == t;
                    if j < a.len() {
                        assert(a.map_values(f)[j] == t);
                    } else {
                        assert(b.map_values(f)[j - a.len()] == t);
                    }
                }
            }
        }
        list
    }

    /// Records a node that answered: it joins the basic routing table, and
    /// also the table of nodes supporting signed peers when its announced
    /// `version` does. Returns whether it joined each table.
    pub fn add_node(&mut self, node: Node, version: Option<[u8; 4]>) -> (added: (bool, bool))
        requires
            core_wf(old(self)@),
        ensures
            core_wf(final(self)@),
            added.0 == (node.id != old(self)@.routing_table.id
                && forall|i: int| 0 <= i < old(self)@.routing_table.nodes.len()
                    ==> #[trigger] old(self)@.routing_table.nodes[i].id != node.id),
            final(self)@.routing_table.nodes == if added.0 {
                old(self)@.routing_table.nodes.push(node)
            } else {
                old(self)@.routing_table.nodes
            },
            added.1 ==> signed_peers_supported(version),
            signed_peers_supported(version) ==> added.1 == (node.id != old(self)@.signed_peers_routing_table.id
                && forall|i: int| 0 <= i < old(self)@.signed_peers_routing_table.nodes.len()
                    ==> #[trigger] old(self)@.signed_peers_routing_table.nodes[i].id != node.id),
            final(self)@.signed_peers_routing_table.nodes == if added.1 {
                old(self)@.signed_peers_routing_table.nodes.push(node)
            } else {
                old(self)@.signed_peers_routing_table.nodes
            },
            final(self)@ == (CoreModel {
                routing_table: final(self)@.routing_table,
                signed_peers_routing_table: final(self)@.signed_peers_routing_table,
                ..old(self)@
            }),
            final(self)@.routing_table.id == old(self)@.routing_table.id,
            final(self)@.signed_peers_routing_table.id == old(self)@.signed_peers_routing_table.id,
    {
        let basic = self.routing_table.add(node);
        let signed = if supports_signed_peers(version) {
            self.signed_peers_routing_table.add(node)
        } else {
            false
        };
        (basic, signed)
    }

    /// Answers `request` from `from` as this node's server, with the basic
    /// routing table supplying the closest nodes.
    pub fn handle_server_request(&mut self, from: Address, request: RequestSpecific, context: RequestContext) -> (out: HandledRequest)
        requires
            core_wf(old(self)@),
        ensures
            core_wf(final(self)@),
            final(self)@ == (CoreModel { server: final(self)@.server, ..old(self)@ }),
            final(self)@.server.immutable_capacity == old(self)@.server.immutable_capacity,
            final(self)@.server.mutable_capacity == old(self)@.server.mutable_capacity,
            !context.allowed ==> out.response is None && out.announced_peer is None && final(self)@.server == old(self)@.server,
            context.allowed ==> out.response is Some
                && request_outcome(old(self)@.server, final(self)@.server, old(self)@.routing_table, from, request, context, out),
    {
        self.server.handle_request(&self.routing_table, from, request, context)
    }

    /// Returns the node's server.
    pub fn server(&self) -> (server: &Server)
        ensures
            server@ == self@.server,
    {
        &self.server
    }

    /// Sets whether the node answers requests.
    pub fn set_server_mode(&mut self, mode: bool)
        requires
            core_wf(old(self)@),
        ensures
            core_wf(final(self)@),
            final(self)@ == (CoreModel { server_mode: mode, ..old(self)@ }),
    {
        self.server_mode = mode;
    }

    /// The targets of the done get queries `done_get_queries` that a put
    /// query waits on, in order: the put queries to start storing now.
    pub fn put_queries_to_start(&self, done_get_queries: &Vec<(Id, Vec<Node>)>) -> (ids: Vec<Id>)
        requires
            core_wf(self@),
        ensures
            ids@ == waiting_puts(self@.put_queries, done_get_queries@),
    {
        let ghost all = done_ids(done_get_queries@);
        let ghost pred = |id: Id| put_for(self@.put_queries, id) is Some;
        let mut ids: Vec<Id> = Vec::new();
        let mut i: usize = 0;
        while i < done_get_queries.len()
            invariant
                i <= done_get_queries@.len(),
                all == done_ids(done_get_queries@),
                core_wf(self@),
                pred == (|id: Id| put_for(self@.put_queries, id) is Some),
                ids@ == all.take(i as int).filter(pred),
            decreases done_get_queries@.len() - i,
        {
            proof {
                reveal_with_fuel(Seq::<_>::filter, 1);
                assert(all.take(i + 1).drop_last() =~= all.take(i as int));
            }
            let id = done_get_queries[i].0;
            assert(all[i as int] == id);
            match find_put_query(&self.put_queries, &id) {
                Some(p) => {
                    proof {
                        lemma_put_at(self@.put_queries, id, p as int);
                    }
                    ids.push(id);
                },
                None => {},
            }
            i = i + 1;
        }
        assert(all.take(done_get_queries@.len() as int) =~= all);
        ids
    }

    /// One tick of the node, after the caller has run its queries: first the
    /// periodic maintenance; then the done put queries, those the checks
    /// found done or failed, followed by those waiting on a done get query
    /// that failed to start; then the done get queries are cleaned up (votes,
    /// cache, put queries to start) and the done put queries forgotten.
    /// Reports the done queries and the address to ping, if any.
    pub fn tick<E>(&mut self, event: TickEvent<E>) -> (actions: TickActions<E>)
        requires
            core_wf(old(self)@),
        ensures
            core_wf(final(self)@),
            actions.maintenance == maintenance_for(old(self)@, event.should_refresh_table, event.should_ping_table),
            actions.done_get_queries@ == running_done(old(self)@.iterative_queries, event.done_get_queries@),
            forall|j: int| 0 <= j < actions.done_get_queries@.len()
                ==> query_for(old(self)@.iterative_queries, (#[trigger] actions.done_get_queries@[j]).0) is Some,
            forall|j: int, k: int| 0 <= j < k < actions.done_get_queries@.len()
                ==> (#[trigger] actions.done_get_queries@[j]).0 != (#[trigger] actions.done_get_queries@[k]).0,
            actions.done_put_queries@ == done_puts(event.put_checks@)
                + failed_puts(waiting_failures(old(self)@.put_queries, actions.done_get_queries@, event.put_start_failures@)),
            cache_fold(old(self)@.cached_queries, final(self)@.cached_queries, cleanup_start(old(self)@), old(self)@.put_queries, actions.done_get_queries@),
            ({
                let folded = cleanup_fold(cleanup_start(old(self)@), old(self)@.put_queries, done_ids(actions.done_get_queries@));
                &&& final(self)@.iterative_queries == folded.iterative
                &&& final(self)@.public_address == folded.public_address
                &&& final(self)@.firewalled == folded.firewalled
                &&& actions.should_start@ == folded.should_start
                &&& actions.ping == folded.ping
            }),
            final(self)@.put_queries == without_put_queries(old(self)@.put_queries, put_done_ids(actions.done_put_queries@)),
            final(self)@ == (CoreModel {
                iterative_queries: final(self)@.iterative_queries,
                put_queries: final(self)@.put_queries,
                public_address: final(self)@.public_address,
                firewalled: final(self)@.firewalled,
                cached_queries: final(self)@.cached_queries,
                server_mode: old(self)@.server_mode || (event.should_refresh_table && !old(self)@.firewalled),
                ..old(self)@
            }),
    {
        let ghost checks = event.put_checks@;
        let ghost all_failures = event.put_start_failures@;
        let maintenance = self.periodic_node_maintenance(event.should_refresh_table, event.should_ping_table);
        let TickEvent { put_checks, done_get_queries, put_start_failures, .. } = event;
        let ghost queries = self@.iterative_queries;
        let ghost puts = self@.put_queries;
        let ghost all_gets = done_get_queries@;
        // The done get queries of running queries, each once.
        let mut rest = done_get_queries;
        let mut gets: Vec<(Id, Vec<Node>)> = Vec::new();
        let mut seen: Vec<Id> = Vec::new();
        let ghost mut n: int = 0;
        while rest.len() > 0
            invariant
                0 <= n <= all_gets.len(),
                rest@ == all_gets.subrange(n, all_gets.len() as int),
                gets@ == running_done(queries, all_gets.take(n)),
                seen@ == done_ids(gets@),
                self@.iterative_queries == queries,
                self@.put_queries == puts,
                core_wf(self@),
            decreases rest@.len(),
        {
            let ghost before = rest@;
            let (id, nodes) = rest.remove(0);
            proof {
                assert(all_gets.take(n + 1).drop_last() =~= all_gets.take(n));
                assert(before[0] == all_gets[n]);
                assert(rest@ =~= all_gets.subrange(n + 1, all_gets.len() as int));
            }
            let running = match find_query(&self.iterative_queries, &id) {
                Some(i) => {
                    proof {
                        lemma_query_at(queries, id, i as int);
                    }
                    true
                },
                None => false,
            };
            if running && !contains_id(seen.as_slice(), &id) {
                let ghost earlier = gets@;
                gets.push((id, nodes));
                seen.push(id);
                assert(done_ids(gets@) =~= done_ids(earlier).push(id));
            }
            proof {
                n = n + 1;
            }
        }
        proof {
            assert(all_gets.take(n) =~= all_gets);
            lemma_running_done(queries, all_gets);
        }
        // Then the done put queries: checked, then failed to start.
        let mut done = done_put_queries(put_checks);
        let ghost base = done@;
        let ghost pred = |f: (Id, E)| done_ids(gets@).contains(f.0) && put_for(puts, f.0) is Some;
        let mut failures = put_start_failures;
        let ghost mut m: int = 0;
        while failures.len() > 0
            invariant
                0 <= m <= all_failures.len(),
                failures@ == all_failures.subrange(m, all_failures.len() as int),
                base == done_puts(checks),
                pred == (|f: (Id, E)| done_ids(gets@).contains(f.0) && put_for(puts, f.0) is Some),
                done@ == base + failed_puts(all_failures.take(m).filter(pred)),
                seen@ == done_ids(gets@),
                self@.put_queries == puts,
                core_wf(self@),
            decreases failures@.len(),
        {
            let ghost before = failures@;
            let (id, error) = failures.remove(0);
            proof {
                reveal_with_fuel(Seq::<_>::filter, 1);
                assert(all_failures.take(m + 1).drop_last() =~= all_failures.take(m));
                assert(before[0] == all_failures[m]);
                assert(failures@ =~= all_failures.subrange(m + 1, all_failures.len() as int));
            }
            let waiting = contains_id(seen.as_slice(), &id) && match find_put_query(&self.put_queries, &id) {
                Some(p) => {
                    proof {
                        lemma_put_at(puts, id, p as int);
                    }
                    true
                },
                None => false,
            };
            let ghost kept_before = all_failures.take(m).filter(pred);
            if waiting {
                let ghost done_before = done@;
                done.push((id, Some(error)));
                assert(failed_puts(kept_before.push((id, error))) =~= failed_puts(kept_before).push((id, Some(error))));
                assert(done@ =~= base + failed_puts(kept_before.push((id, error))));
            }
            proof {
                m = m + 1;
            }
        }
        proof {
            assert(all_failures.take(m) =~= all_failures);
        }
        let done_get_queries = gets;
        let mut ids: Vec<Id> = Vec::new();
        let mut k: usize = 0;
        while k < done.len()
            invariant
                k <= done@.len(),
                ids@ == put_done_ids(done@.take(k as int)),
            decreases done@.len() - k,
        {
            ids.push(done[k].0);
            assert(put_done_ids(done@.take(k + 1)) =~= put_done_ids(done@.take(k as int)).push(done@[k as int].0));
            k = k + 1;
        }
        assert(done@.take(done@.len() as int) =~= done@);
        let (should_start, ping) = self.cleanup_done_queries(&done_get_queries, &ids);
        TickActions { maintenance, done_get_queries, done_put_queries: done, should_start, ping }
    }

    /// Decides the periodic maintenance of the node, given whether the
    /// routing table is due for a refresh and for a ping round: an empty
    /// routing table is populated from the bootstrap nodes; a refresh
    /// populates again, and a node that is not firewalled after running
    /// that long switches to server mode (adaptive mode).
    pub fn periodic_node_maintenance(&mut self, should_refresh_table: bool, should_ping_table: bool) -> (actions: MaintenanceActions)
        requires
            core_wf(old(self)@),
        ensures
            core_wf(final(self)@),
            final(self)@ == (CoreModel {
                server_mode: old(self)@.server_mode || (should_refresh_table && !old(self)@.firewalled),
                ..old(self)@
            }),
            actions == maintenance_for(old(self)@, should_refresh_table, should_ping_table),
            old(self)@.bootstrap.len() > 0 && should_refresh_table ==> actions.self_lookups >= 1,
    {
        let mut populate: usize = 0;
        if self.routing_table.is_empty() {
            populate = populate + 1;
        }
        if should_refresh_table {
            if !self.server_mode && !self.firewalled {
                self.set_server_mode(true);
            }
            populate = populate + 1;
        }
        let self_lookups = if self.bootstrap.len() == 0 { 0 } else { populate };
        MaintenanceActions { self_lookups, refresh_table: should_refresh_table, ping_table: should_ping_table }
    }

    /// Returns the addresses to bootstrap from given at start.
    pub fn bootstrap(&self) -> (bootstrap: &[Address])
        ensures
            bootstrap@ == self@.bootstrap,
    {
        self.bootstrap.as_slice()
    }

    /// Returns the basic routing table.
    pub fn routing_table(&self) -> (table: &RoutingTable)
        ensures
            table@ == self@.routing_table,
    {
        &self.routing_table
    }

    /// Returns the routing table of nodes supporting signed peers.
    pub fn signed_peers_routing_table(&self) -> (table: &RoutingTable)
        ensures
            table@ == self@.signed_peers_routing_table,
    {
        &self.signed_peers_routing_table
    }

    /// Returns the running iterative queries.
    pub fn iterative_queries(&self) -> (queries: &[IterativeQuery])
        ensures
            queries@ == self@.iterative_queries,
    {
        self.iterative_queries.as_slice()
    }

    /// Returns the pending put queries.
    pub fn put_queries(&self) -> (queries: &[PutQuery])
        ensures
            queries@ == self@.put_queries,
    {
        self.put_queries.as_slice()
    }

    /// The closest responding nodes of the cached finished query of
    /// `target`, if any: the nodes to store a value at without a new lookup.
    pub fn cached_closest_nodes(&self, target: &Id) -> (nodes: Option<Vec<Node>>)
        ensures
            match nodes {
                Some(n) => self@.cached_queries.dom().contains(target.0)
                    && n@ == self@.cached_queries[target.0].closest_responding_nodes,
                None => !self@.cached_queries.dom().contains(target.0),
            },
    {
        match query_cache_peek(&self.cached_iterative_queries, &target.0) {
            Some(query) => Some(copy_nodes(query.closest_responding_nodes.as_slice())),
            None => None,
        }
    }

    /// Returns the number of cached finished queries.
    pub fn cached_query_count(&self) -> (count: usize)
        ensures
            count == self@.cached_queries.len(),
    {
        query_cache_len(&self.cached_iterative_queries)
    }

    /// Returns the public address the node believes it has, if any.
    pub fn public_address(&self) -> (address: Option<Address>)
        ensures
            address == self@.public_address,
    {
        self.public_address
    }

    /// Returns whether the node considers itself firewalled.
    pub fn firewalled(&self) -> (firewalled: bool)
        ensures
            firewalled == self@.firewalled,
    {
        self.firewalled
    }

    /// Returns whether the node answers requests.
    pub fn server_mode(&self) -> (server_mode: bool)
        ensures
            server_mode == self@.server_mode,
    {
        self.server_mode
    }

    /// Returns the node's id.
    pub fn id(&self) -> (id: &Id)
        ensures
            *id == self@.routing_table.id,
    {
        self.routing_table.id()
    }
}

} // verus!
