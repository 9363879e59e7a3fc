use dht::testnet::{NodeOptions, TestnetStep};
use dht::Testnet;

fn run(mut setup: dht::testnet::TestnetSetup<u16>, first_port: u16) -> (Testnet<u16>, Vec<NodeOptions>, Vec<usize>) {
    let mut built = vec![];
    let mut awaited = vec![];
    loop {
        match setup.next_step() {
            TestnetStep::BuildNode(options) => {
                let port = first_port + built.len() as u16;
                built.push(options);
                setup.node_built(port, port);
            },
            TestnetStep::AwaitBootstrapped(i) => {
                awaited.push(i);
                setup.node_bootstrapped();
            },
            TestnetStep::Done => return (setup.finish(), built, awaited),
        }
    }
}

#[test]
fn testnet_nodes_bootstrap_from_the_first_node() {
    let (testnet, built, awaited) = run(Testnet::new(3), 5000);
    assert_eq!(testnet.nodes, vec![5000, 5001, 5002]);
    assert_eq!(testnet.bootstrap, vec!["127.0.0.1:5000".to_string()]);
    assert_eq!(built[0].bootstrap, Vec::<String>::new());
    assert_eq!(built[1].bootstrap, vec!["127.0.0.1:5000".to_string()]);
    assert_eq!(built[2].bootstrap, vec!["127.0.0.1:5000".to_string()]);
    assert!(built.iter().all(|o| o.server_mode && !o.disable_signed_peers));
    assert_eq!(awaited, vec![0, 1, 2]);
}

#[test]
fn testnet_with_extra_bootstrap_and_without_signed_peers() {
    let extra = vec!["10.0.0.1:1".to_string()];
    let (testnet, built, _) = run(Testnet::new_with_bootstrap(2, &extra), 7000);
    assert_eq!(testnet.bootstrap, vec!["10.0.0.1:1".to_string(), "127.0.0.1:7000".to_string()]);
    assert_eq!(built[0].bootstrap, extra);
    let (_, built, _) = run(Testnet::new_without_signed_peers(1), 7000);
    assert!(built[0].disable_signed_peers);
}

#[test]
fn empty_testnet_is_done_at_once() {
    let (testnet, built, awaited) = run(Testnet::new(0), 1);
    assert!(testnet.nodes.is_empty() && testnet.bootstrap.is_empty());
    assert!(built.is_empty() && awaited.is_empty());
}

#[test]
fn leak_keeps_clones_alive() {
    let (testnet, _, _) = run(Testnet::new(2), 1);
    testnet.leak();
    assert_eq!(testnet.nodes.len(), 2);
}
