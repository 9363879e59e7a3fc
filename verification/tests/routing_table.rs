use dht::routing_table::RoutingTable;
use dht::{Address, Id, Node};

fn id(first: u8, last: u8) -> Id {
    let mut bytes = [0u8; 20];
    bytes[0] = first;
    bytes[19] = last;
    Id(bytes)
}

fn node(first: u8, last: u8) -> Node {
    Node::new(id(first, last), Address::new([10, 0, first, last], 6881))
}

#[test]
fn new_table_is_empty() {
    let table = RoutingTable::new(id(0, 0));
    assert!(table.is_empty());
    assert_eq!(table.size(), 0);
    assert_eq!(table.id(), &id(0, 0));
    assert!(table.closest(id(1, 1)).is_empty());
}

#[test]
fn add_refuses_own_id_and_duplicates() {
    let mut table = RoutingTable::new(id(0, 0));
    assert!(!table.add(node(0, 0)));
    assert!(table.add(node(1, 0)));
    assert!(!table.add(Node::new(id(1, 0), Address::new([9, 9, 9, 9], 1))));
    assert!(table.add(node(2, 0)));
    assert_eq!(table.size(), 2);
    assert_eq!(table.nodes(), &[node(1, 0), node(2, 0)]);
}

#[test]
fn closest_orders_by_xor_distance() {
    let mut table = RoutingTable::new(id(0, 0));
    for n in [node(0b1000, 0), node(0b0001, 0), node(0b0100, 0), node(0b0010, 1), node(0b0010, 0)] {
        assert!(table.add(n));
    }
    // Target 0b0011.. : distances 1011, 0010, 0111, 0001(+1 at the end), 0001
    let closest = table.closest(id(0b0011, 0));
    assert_eq!(
        closest,
        vec![node(0b0010, 0), node(0b0010, 1), node(0b0001, 0), node(0b0100, 0), node(0b1000, 0)]
    );
}

#[test]
fn closest_returns_at_most_twenty() {
    let mut table = RoutingTable::new(id(0, 0));
    for i in 1..=25u8 {
        assert!(table.add(node(i, 0)));
    }
    let closest = table.closest(id(0, 0));
    let expected: Vec<Node> = (1..=20u8).map(|i| node(i, 0)).collect();
    assert_eq!(closest, expected);
}
