use dht::{Address, Id, Node};

#[test]
fn address_text_form() {
    assert_eq!(Address::new([127, 0, 0, 1], 6881).to_string(), "127.0.0.1:6881");
    assert_eq!(Address::new([0, 10, 255, 9], 0).to_string(), "0.10.255.9:0");
    assert_eq!(Address::new([192, 168, 1, 100], 65535).to_string(), "192.168.1.100:65535");
}

#[test]
fn address_comparison() {
    let a = Address::new([1, 2, 3, 4], 5);
    assert!(a.same_as(&Address::new([1, 2, 3, 4], 5)));
    assert!(!a.same_as(&Address::new([1, 2, 3, 4], 6)));
    assert!(!a.same_as(&Address::new([1, 2, 3, 5], 5)));
}

#[test]
fn node_and_id_accessors() {
    let id = Id([5u8; 20]);
    let node = Node::new(id, Address::new([1, 1, 1, 1], 1));
    assert_eq!(node.id, id);
    assert_eq!(id.as_bytes(), &[5u8; 20]);
}
