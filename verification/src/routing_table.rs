//! A flat routing table: the node's own id and the nodes it knows, with the
//! Kademlia lookup of the nodes closest to a target by XOR distance.

use vstd::prelude::*;

use crate::common::{Id, Node};

verus! {

/// The number of closest nodes a lookup returns (Kademlia's `k`).
pub const MAX_BUCKET_SIZE_K: usize = 20;

/// The XOR distance between two ids, byte by byte, most significant first.
pub open spec fn distance(a: Id, b: Id) -> Seq<u8> {
    Seq::new(20, |i: int| a.0@[i] ^ b.0@[i])
}

/// Strict lexicographic order of byte sequences of equal length.
pub open spec fn lex_lt(a: Seq<u8>, b: Seq<u8>) -> bool
    decreases a.len(),
{
    if a.len() == 0 || b.len() == 0 {
        false
    } else if a[0] < b[0] {
        true
    } else if a[0] > b[0] {
        false
    } else {
        lex_lt(a.drop_first(), b.drop_first())
    }
}

/// `a` is strictly closer to `target` than `b`.
pub open spec fn closer(a: Id, b: Id, target: Id) -> bool {
    lex_lt(distance(a, target), distance(b, target))
}

pub proof fn lemma_lex_irreflexive(a: Seq<u8>)
    ensures
        !lex_lt(a, a),
    decreases a.len(),
{
    if a.len() > 0 {
        lemma_lex_irreflexive(a.drop_first());
    }
}

pub proof fn lemma_lex_transitive(a: Seq<u8>, b: Seq<u8>, c: Seq<u8>)
    requires
        lex_lt(a, b),
        lex_lt(b, c),
    ensures
        lex_lt(a, c),
    decreases a.len(),
{
    if a.len() > 0 && b.len() > 0 && c.len() > 0 && a[0] == b[0] && b[0] == c[0] {
        lemma_lex_transitive(a.drop_first(), b.drop_first(), c.drop_first());
    }
}

pub proof fn lemma_lex_total(a: Seq<u8>, b: Seq<u8>)
    requires
        a.len() == b.len(),
        a != b,
    ensures
        lex_lt(a, b) || lex_lt(b, a),
    decreases a.len(),
{
    if a.len() == 0 {
        assert(a =~= b);
    } else if a[0] == b[0] {
        if a.drop_first() == b.drop_first() {
            assert(a =~= seq![a[0]] + a.drop_first());
            assert(b =~= seq![b[0]] + b.drop_first());
        }
        lemma_lex_total(a.drop_first(), b.drop_first());
    }
}

/// Distinct ids are at distinct distances from any target.
pub proof fn lemma_distance_injective(a: Id, b: Id, target: Id)
    requires
        distance(a, target) == distance(b, target),
    ensures
        a == b,
{
    assert forall|i: int| 0 <= i < 20 implies a.0@[i] == b.0@[i] by {
        let x = a.0@[i];
        let y = b.0@[i];
        let t = target.0@[i];
        assert(distance(a, target)[i] == distance(b, target)[i]);
        assert(distance(a, target)[i] == x ^ t);
        assert(distance(b, target)[i] == y ^ t);
        assert(x == y) by (bit_vector)
            requires
                x ^ t == y ^ t,
        ;
    }
    assert(a.0@ =~= b.0@);
    assert(a.0 == b.0);
}

/// Compares two ids byte by byte.
pub fn id_eq(a: &Id, b: &Id) -> (equal: bool)
    ensures
        equal == (*a == *b),
{
    let mut i: usize = 0;
    while i < 20
        invariant
            i <= 20,
            forall|j: int| 0 <= j < i ==> a.0@[j] == b.0@[j],
        decreases 20 - i,
    {
        if a.0[i] != b.0[i] {
            return false;
        }
        i = i + 1;
    }
    assert(a.0@ =~= b.0@);
    assert(a.0 == b.0);
    true
}

/// Whether `a` is strictly closer to `target` than `b`.
pub fn is_closer(a: &Id, b: &Id, target: &Id) -> (result: bool)
    ensures
        result == closer(*a, *b, *target),
{
    let ghost da = distance(*a, *target);
    let ghost db = distance(*b, *target);
    assert(da.skip(0) =~= da);
    assert(db.skip(0) =~= db);
    let mut i: usize = 0;
    while i < 20
        invariant
            i <= 20,
            da == distance(*a, *target),
            db == distance(*b, *target),
            forall|j: int| 0 <= j < i ==> da[j] == db[j],
            lex_lt(da, db) == lex_lt(da.skip(i as int), db.skip(i as int)),
        decreases 20 - i,
    {
        let x: u8 = a.0[i] ^ target.0[i];
        let y: u8 = b.0[i] ^ target.0[i];
        assert(da.skip(i as int)[0] == x);
        assert(db.skip(i as int)[0] == y);
        if x < y {
            return true;
        }
        if x > y {
            return false;
        }
        assert(da.skip(i as int).drop_first() =~= da.skip(i + 1));
        assert(db.skip(i as int).drop_first() =~= db.skip(i + 1));
        i = i + 1;
    }
    assert(da.skip(20).len() == 0);
    false
}

/// No two nodes share an id.
pub open spec fn distinct_ids(nodes: Seq<Node>) -> bool {
    forall|i: int, j: int| 0 <= i < nodes.len() && 0 <= j < nodes.len() && i != j ==> nodes[i].id != nodes[j].id
}

/// `result` is what a lookup of `target` among `nodes` returns: the
/// `min(K, |nodes|)` nodes closest to `target`, closest first.
pub open spec fn is_closest(nodes: Seq<Node>, target: Id, result: Seq<Node>) -> bool {
    &&& result.len() == if nodes.len() < MAX_BUCKET_SIZE_K { nodes.len() } else { MAX_BUCKET_SIZE_K as nat }
    &&& forall|r: int| 0 <= r < result.len() ==> nodes.contains(#[trigger] result[r])
    &&& forall|r1: int, r2: int|
        0 <= r1 < r2 < result.len() ==> closer(#[trigger] result[r1].id, #[trigger] result[r2].id, target)
    &&& forall|j: int, r: int|
        0 <= j < nodes.len() && !result.contains(#[trigger] nodes[j]) && 0 <= r < result.len()
            ==> closer(#[trigger] result[r].id, nodes[j].id, target)
}

/// The contents of a [RoutingTable] as plain values.
pub struct RoutingTableModel {
    pub id: Id,
    pub nodes: Seq<Node>,
}

/// The node's own id and the nodes it knows, each id at most once.
#[derive(Debug)]
pub struct RoutingTable {
    id: Id,
    nodes: Vec<Node>,
}

impl View for RoutingTable {
    type V = RoutingTableModel;

    closed spec fn view(&self) -> RoutingTableModel {
        RoutingTableModel { id: self.id, nodes: self.nodes@ }
    }
}

impl RoutingTable {
    #[verifier::type_invariant]
    closed spec fn inv(&self) -> bool {
        &&& distinct_ids(self.nodes@)
        &&& forall|i: int| 0 <= i < self.nodes@.len() ==> #[trigger] self.nodes@[i].id != self.id
    }

    /// Creates an empty routing table for the node with `id`.
    pub fn new(id: Id) -> (table: RoutingTable)
        ensures
            table@.id == id,
            table@.nodes == Seq::<Node>::empty(),
    {
        RoutingTable { id, nodes: Vec::new() }
    }

    /// Returns the id of the node owning this table.
    pub fn id(&self) -> (id: &Id)
        ensures
            *id == self@.id,
    {
        &self.id
    }

    /// Returns whether the table knows no node.
    pub fn is_empty(&self) -> (empty: bool)
        ensures
            empty == (self@.nodes.len() == 0),
    {
        self.nodes.len() == 0
    }

    /// Returns the number of nodes in the table.
    pub fn size(&self) -> (size: usize)
        ensures
            size == self@.nodes.len(),
    {
        self.nodes.len()
    }

    /// Returns the nodes in the table, in the order they were added.
    pub fn nodes(&self) -> (nodes: &[Node])
        ensures
            nodes@ == self@.nodes,
    {
        self.nodes.as_slice()
    }

    /// Adds `node` unless it carries the table's own id or an id already in
    /// the table; returns whether it was added.
    pub fn add(&mut self, node: Node) -> (added: bool)
        ensures
            final(self)@.id == old(self)@.id,
            added == (node.id != old(self)@.id && forall|i: int| 0 <= i < old(self)@.nodes.len() ==> #[trigger] old(self)@.nodes[i].id != node.id),
            added ==> final(self)@.nodes == old(self)@.nodes.push(node),
            !added ==> final(self)@.nodes == old(self)@.nodes,
    {
        proof {
            use_type_invariant(&*self);
        }
        if id_eq(&node.id, &self.id) {
            return false;
        }
        let mut i: usize = 0;
        while i < self.nodes.len()
            invariant
                i <= self.nodes@.len(),
                forall|j: int| 0 <= j < i ==> #[trigger] self.nodes@[j].id != node.id,
            decreases self.nodes@.len() - i,
        {
            if id_eq(&self.nodes[i].id, &node.id) {
                assert(old(self)@.nodes[i as int].id == node.id);
                return false;
            }
            i = i + 1;
        }
        let mut nodes: Vec<Node> = Vec::new();
        std::mem::swap(&mut nodes, &mut self.nodes);
        nodes.push(node);
        self.nodes = nodes;
        true
    }

    /// Returns the `k` nodes of the table closest to `target` by XOR
    /// distance (all of them when there are fewer), closest first.
    pub fn closest(&self, target: Id) -> (result: Vec<Node>)
        ensures
            is_closest(self@.nodes, target, result@),
    {
        proof {
            use_type_invariant(self);
        }
        let ghost nodes = self.nodes@;
        let n = self.nodes.len();
        let want: usize = if n < MAX_BUCKET_SIZE_K { n } else { MAX_BUCKET_SIZE_K };
        let mut rest: Vec<Node> = self.nodes.clone();
        proof {
            assert(rest@ =~= nodes);
        }
        let mut result: Vec<Node> = Vec::new();
        while result.len() < want
            invariant
                nodes == self.nodes@,
                distinct_ids(nodes),
                n == nodes.len(),
                want <= n,
                want == if n < MAX_BUCKET_SIZE_K { n } else { MAX_BUCKET_SIZE_K },
                result@.len() <= want,
                result@.len() + rest@.len() == n,
                distinct_ids(rest@),
                forall|r: int| 0 <= r < result@.len() ==> nodes.contains(#[trigger] result@[r]),
                forall|x: int| 0 <= x < rest@.len() ==> nodes.contains(#[trigger] rest@[x]),
                forall|j: int| 0 <= j < nodes.len() ==> result@.contains(#[trigger] nodes[j]) || rest@.contains(nodes[j]),
                forall|r1: int, r2: int|
                    0 <= r1 < r2 < result@.len() ==> closer(#[trigger] result@[r1].id, #[trigger] result@[r2].id, target),
                forall|x: int, r: int|
                    0 <= x < rest@.len() && 0 <= r < result@.len() ==> closer(#[trigger] result@[r].id, #[trigger] rest@[x].id, target),
            decreases want - result@.len(),
        {
            // Find the position of the closest remaining node.
            let mut best: usize = 0;
            let mut k: usize = 1;
            proof {
                lemma_lex_irreflexive(distance(rest@[0].id, target));
            }
            while k < rest.len()
                invariant
                    rest@.len() > 0,
                    best < rest@.len(),
                    1 <= k <= rest@.len(),
                    best < k,
                    forall|x: int| 0 <= x < k ==> !closer(#[trigger] rest@[x].id, rest@[best as int].id, target),
                decreases rest@.len() - k,
            {
                if is_closer(&rest[k].id, &rest[best].id, &target) {
                    proof {
                        assert forall|x: int| 0 <= x < k + 1 implies !closer(#[trigger] rest@[x].id, rest@[k as int].id, target) by {
                            if x < k {
                                if closer(rest@[x].id, rest@[k as int].id, target) {
                                    lemma_lex_transitive(distance(rest@[x].id, target), distance(rest@[k as int].id, target), distance(rest@[best as int].id, target));
                                }
                            } else {
                                lemma_lex_irreflexive(distance(rest@[x].id, target));
                            }
                        }
                    }
                    best = k;
                } else {
                    proof {
                        assert forall|x: int| 0 <= x < k + 1 implies !closer(#[trigger] rest@[x].id, rest@[best as int].id, target) by {
                        }
                    }
                }
                k = k + 1;
            }
            let ghost old_rest = rest@;
            let ghost old_result = result@;
            let picked = rest.remove(best);
            proof {
                // The picked node is strictly closer than every other remaining node.
                assert forall|x: int| 0 <= x < old_rest.len() && x != best implies closer(picked.id, #[trigger] old_rest[x].id, target) by {
                    assert(!closer(old_rest[x].id, picked.id, target));
                    if distance(picked.id, target) == distance(old_rest[x].id, target) {
                        lemma_distance_injective(picked.id, old_rest[x].id, target);
                    }
                    lemma_lex_total(distance(picked.id, target), distance(old_rest[x].id, target));
                }
                assert forall|x: int| 0 <= x < rest@.len() implies #[trigger] rest@[x] == old_rest[if x < best { x } else { x + 1 }] by {}
            }
            result.push(picked);
            proof {
                assert forall|j: int| 0 <= j < nodes.len() implies result@.contains(#[trigger] nodes[j]) || rest@.contains(nodes[j]) by {
                    if old_result.contains(nodes[j]) {
                        let r = choose|r: int| 0 <= r < old_result.len() && old_result[r] == nodes[j];
                        assert(result@[r] == nodes[j]);
                    } else {
                        let x = choose|x: int| 0 <= x < old_rest.len() && old_rest[x] == nodes[j];
                        if x == best {
                            assert(result@[old_result.len() as int] == nodes[j]);
                        } else if x < best {
                            assert(rest@[x] == nodes[j]);
                        } else {
                            assert(rest@[x - 1] == nodes[j]);
                        }
                    }
                }
                assert forall|x: int, y: int| 0 <= x < rest@.len() && 0 <= y < rest@.len() && x != y implies #[trigger] rest@[x].id != #[trigger] rest@[y].id by {
                    let ox = if x < best { x } else { x + 1 };
                    let oy = if y < best { y } else { y + 1 };
                    assert(rest@[x] == old_rest[ox]);
                    assert(rest@[y] == old_rest[oy]);
                }
                assert forall|x: int, r: int| 0 <= x < rest@.len() && 0 <= r < result@.len() implies closer(#[trigger] result@[r].id, #[trigger] rest@[x].id, target) by {
                    let ox = if x < best { x } else { x + 1 };
                    assert(rest@[x] == old_rest[ox]);
                    if r < old_result.len() {
                        assert(result@[r] == old_result[r]);
                    }
                }
                assert forall|r1: int, r2: int| 0 <= r1 < r2 < result@.len() implies closer(#[trigger] result@[r1].id, #[trigger] result@[r2].id, target) by {
                    if r2 < old_result.len() {
                        assert(result@[r1] == old_result[r1]);
                        assert(result@[r2] == old_result[r2]);
                    } else {
                        assert(result@[r1] == old_result[r1]);
                        assert(old_rest[best as int] == picked);
                    }
                }
                assert forall|x: int| 0 <= x < rest@.len() implies nodes.contains(#[trigger] rest@[x]) by {
                    let ox = if x < best { x } else { x + 1 };
                    assert(rest@[x] == old_rest[ox]);
                }
                assert forall|r: int| 0 <= r < result@.len() implies nodes.contains(#[trigger] result@[r]) by {
                    if r < old_result.len() {
                        assert(result@[r] == old_result[r]);
                    } else {
                        assert(old_rest[best as int] == picked);
                    }
                }
            }
        }
        proof {
            assert forall|j: int, r: int|
                0 <= j < nodes.len() && !result@.contains(#[trigger] nodes[j]) && 0 <= r < result@.len()
                implies closer(#[trigger] result@[r].id, nodes[j].id, target) by {
                assert(rest@.contains(nodes[j]));
                let x = choose|x: int| 0 <= x < rest@.len() && rest@[x] == nodes[j];
                assert(closer(result@[r].id, rest@[x].id, target));
            }
        }
        result
    }
}

} // verus!
