use dht::response::{ResponseDone, ResponseMessage, Response, StoreQueryMetdata};
use dht::{Address, Id, Node};

fn node(i: u8) -> Node {
    Node::new(Id([i; 20]), Address::new([10, 0, 0, i], 6881))
}

#[test]
fn response_yields_values_then_records_statistics() {
    let (sender, receiver) = flume::unbounded();
    sender.send(ResponseMessage::ResponseValue(1u32)).unwrap();
    sender.send(ResponseMessage::ResponseValue(2u32)).unwrap();
    sender
        .send(ResponseMessage::ResponseDone(ResponseDone { visited: 7, closest_nodes: vec![node(1)] }))
        .unwrap();
    let mut response = Response::new(receiver);
    assert_eq!(response.next(), Some(1));
    assert_eq!(response.next(), Some(2));
    assert_eq!(response.visited, 0);
    assert_eq!(response.next(), None);
    assert_eq!(response.visited, 7);
    assert_eq!(response.closest_nodes, vec![node(1)]);
}

#[test]
fn closed_channel_ends_the_response() {
    let (sender, receiver) = flume::unbounded::<ResponseMessage<u32>>();
    drop(sender);
    let mut response = Response::new(receiver);
    assert_eq!(response.next(), None);
    assert_eq!(response.visited, 0);
    assert!(response.closest_nodes.is_empty());
}

#[test]
fn store_query_metadata() {
    let closest = vec![node(1), node(2), node(3), node(4)];
    let metadata = StoreQueryMetdata::new(Id([9u8; 20]), closest.clone(), vec![Id([3u8; 20]), Id([1u8; 20]), Id([8u8; 20])]);
    assert_eq!(metadata.target(), Id([9u8; 20]));
    assert_eq!(metadata.stored_at(), vec![node(1), node(3)]);
    assert_eq!(metadata.closest_nodes(), closest);
}
