//! Setting up a testnet of local DHT nodes to run tests against instead of
//! the real mainline network.
//!
//! Building and bootstrapping nodes is I/O, done by the caller: a
//! [TestnetSetup] says what to do next ([TestnetSetup::next_step]) and is
//! told what happened ([TestnetSetup::node_built],
//! [TestnetSetup::node_bootstrapped]) until it yields the [Testnet].

use vstd::prelude::*;

use crate::common::Address;
use crate::encoding::address_text;

verus! {

/// The address local testnet nodes are reached at, with `port`.
pub open spec fn local_address(port: u16) -> Address {
    Address { ip: [127, 0, 0, 1], port }
}

/// A testnet of DHT nodes.
#[derive(Debug)]
pub struct Testnet<N> {
    /// bootstrapping nodes for this testnet.
    pub bootstrap: Vec<String>,
    /// all nodes in this testnet
    pub nodes: Vec<N>,
}

/// How to build the next node of a testnet.
#[derive(Clone, Debug, PartialEq, Eq)]
pub struct NodeOptions {
    /// The nodes to bootstrap from.
    pub bootstrap: Vec<String>,
    /// Whether the node answers requests (always, in a testnet).
    pub server_mode: bool,
    /// Whether the node must act as if it did not support signed peers.
    pub disable_signed_peers: bool,
}

/// What to do next to set up a testnet.
#[derive(Clone, Debug, PartialEq, Eq)]
pub enum TestnetStep {
    /// Build one more node with these options, then report it with
    /// [TestnetSetup::node_built].
    BuildNode(NodeOptions),
    /// Wait until the node at this index is bootstrapped, then report it
    /// with [TestnetSetup::node_bootstrapped].
    AwaitBootstrapped(usize),
    /// Every node is built and bootstrapped: call [TestnetSetup::finish].
    Done,
}

/// A testnet being set up.
#[derive(Debug)]
pub struct TestnetSetup<N> {
    count: usize,
    disable_signed_peers: bool,
    bootstrapped: usize,
    testnet: Testnet<N>,
}

/// The step that follows a setup of `count` nodes with `built` nodes built,
/// `bootstrapped` of them bootstrapped, and the bootstrap list `bootstrap`.
pub open spec fn expected_step(count: usize, disable_signed_peers: bool, built: nat, bootstrapped: usize, bootstrap: Seq<String>, step: TestnetStep) -> bool {
    if built < count {
        step matches TestnetStep::BuildNode(options) && options.bootstrap@ == bootstrap && options.server_mode
            && options.disable_signed_peers == disable_signed_peers
    } else if bootstrapped < count {
        step == TestnetStep::AwaitBootstrapped(bootstrapped)
    } else {
        step == TestnetStep::Done
    }
}

/// Copies a list of strings.
pub fn copy_strings(strings: &Vec<String>) -> (copy: Vec<String>)
    ensures
        copy@ == strings@,
{
    let mut out: Vec<String> = Vec::new();
    let mut i: usize = 0;
    while i < strings.len()
        invariant
            i <= strings@.len(),
            out@ == strings@.subrange(0, i as int),
        decreases strings@.len() - i,
    {
        out.push(strings[i].clone());
        assert(strings@.subrange(0, i + 1) =~= strings@.subrange(0, i as int).push(strings@[i as int]));
        i = i + 1;
    }
    assert(strings@.subrange(0, strings@.len() as int) =~= strings@);
    out
}

impl<N> TestnetSetup<N> {
    /// The number of nodes the testnet will have.
    pub closed spec fn count(&self) -> usize {
        self.count
    }

    /// Whether the nodes act as if they did not support signed peers.
    pub closed spec fn signed_peers_disabled(&self) -> bool {
        self.disable_signed_peers
    }

    /// How many nodes are bootstrapped so far.
    pub closed spec fn bootstrapped(&self) -> usize {
        self.bootstrapped
    }

    /// The nodes built so far.
    pub closed spec fn built(&self) -> Seq<N> {
        self.testnet.nodes@
    }

    /// The bootstrap list so far.
    pub closed spec fn bootstrap(&self) -> Seq<String> {
        self.testnet.bootstrap@
    }

    /// At most `count` nodes are built, and only built nodes bootstrapped.
    pub closed spec fn wf(&self) -> bool {
        self.testnet.nodes@.len() <= self.count && self.bootstrapped <= self.testnet.nodes@.len()
    }

    /// Plans a testnet of `count` nodes, bootstrapping from `bootstrap` (none
    /// when absent) and from the first node once it is built.
    pub fn new_inner(count: usize, disable_signed_peers: bool, bootstrap: Option<Vec<String>>) -> (setup: TestnetSetup<N>)
        ensures
            setup.wf(),
            setup.count() == count,
            setup.signed_peers_disabled() == disable_signed_peers,
            setup.bootstrapped() == 0,
            setup.built() == Seq::<N>::empty(),
            setup.bootstrap() == match bootstrap { Some(b) => b@, None => Seq::<String>::empty() },
    {
        let bootstrap = match bootstrap {
            Some(b) => b,
            None => Vec::new(),
        };
        TestnetSetup { count, disable_signed_peers, bootstrapped: 0, testnet: Testnet { bootstrap, nodes: Vec::new() } }
    }

    /// What to do next: build the nodes one by one, then wait for each to be
    /// bootstrapped, in order.
    pub fn next_step(&self) -> (step: TestnetStep)
        requires
            self.wf(),
        ensures
            expected_step(self.count(), self.signed_peers_disabled(), self.built().len(), self.bootstrapped(), self.bootstrap(), step),
    {
        if self.testnet.nodes.len() < self.count {
            TestnetStep::BuildNode(NodeOptions {
                bootstrap: copy_strings(&self.testnet.bootstrap),
                server_mode: true,
                disable_signed_peers: self.disable_signed_peers,
            })
        } else if self.bootstrapped < self.count {
            TestnetStep::AwaitBootstrapped(self.bootstrapped)
        } else {
            TestnetStep::Done
        }
    }

    /// Records a node built as [TestnetStep::BuildNode] asked, listening on
    /// `local_port`. The first node's local address joins the bootstrap list
    /// of the nodes built after it.
    pub fn node_built(&mut self, node: N, local_port: u16)
        requires
            old(self).wf(),
            old(self).built().len() < old(self).count(),
        ensures
            final(self).wf(),
            final(self).count() == old(self).count(),
            final(self).signed_peers_disabled() == old(self).signed_peers_disabled(),
            final(self).bootstrapped() == old(self).bootstrapped(),
            final(self).built() == old(self).built().push(node),
            old(self).built().len() == 0 ==> final(self).bootstrap().len() == old(self).bootstrap().len() + 1
                && final(self).bootstrap().drop_last() == old(self).bootstrap()
                && final(self).bootstrap().last()@ == address_text(local_address(local_port)),
            old(self).built().len() > 0 ==> final(self).bootstrap() == old(self).bootstrap(),
    {
        if self.testnet.nodes.len() == 0 {
            let address = Address { ip: [127, 0, 0, 1], port: local_port };
            let text = address.to_string();
            self.testnet.bootstrap.push(text);
            assert(self.testnet.bootstrap@.drop_last() =~= old(self).testnet.bootstrap@);
        }
        self.testnet.nodes.push(node);
    }

    /// The number of nodes built so far.
    pub fn built_count(&self) -> (count: usize)
        ensures
            count == self.built().len(),
    {
        self.testnet.nodes.len()
    }

    /// The node built at `index`.
    pub fn built_node(&self, index: usize) -> (node: &N)
        requires
            index < self.built().len(),
        ensures
            *node == self.built()[index as int],
    {
        &self.testnet.nodes[index]
    }

    /// Records that the node [TestnetStep::AwaitBootstrapped] named is
    /// bootstrapped.
    pub fn node_bootstrapped(&mut self)
        requires
            old(self).wf(),
            old(self).built().len() == old(self).count(),
            old(self).bootstrapped() < old(self).count(),
        ensures
            final(self).wf(),
            final(self).count() == old(self).count(),
            final(self).signed_peers_disabled() == old(self).signed_peers_disabled(),
            final(self).bootstrapped() == old(self).bootstrapped() + 1,
            final(self).built() == old(self).built(),
            final(self).bootstrap() == old(self).bootstrap(),
    {
        self.bootstrapped = self.bootstrapped + 1;
    }

    /// The testnet, once every node is built and bootstrapped.
    pub fn finish(self) -> (testnet: Testnet<N>)
        requires
            self.wf(),
            self.bootstrapped() == self.count(),
        ensures
            testnet.nodes@ == self.built(),
            testnet.nodes@.len() == self.count(),
            testnet.bootstrap@ == self.bootstrap(),
    {
        self.testnet
    }
}

/// Calls `Box::leak` on `node`: it is never dropped.
#[verifier::external_body]
pub(crate) fn leak_node<N>(node: Box<N>) {
    Box::leak(node);
}

impl<N> Testnet<N> {
    /// Plans a testnet of `count` nodes.
    ///
    /// Note: the network will be shutdown as soon as the testnet gets
    /// dropped, if you want the network to be `'static`, then you should
    /// call [Self::leak].
    pub fn new(count: usize) -> (setup: TestnetSetup<N>)
        ensures
            setup.wf(),
            setup.count() == count,
            !setup.signed_peers_disabled(),
            setup.bootstrapped() == 0,
            setup.built() == Seq::<N>::empty(),
            setup.bootstrap() == Seq::<String>::empty(),
    {
        TestnetSetup::new_inner(count, false, None)
    }

    /// Plans a testnet of `count` nodes that act as if they did not support
    /// signed peers.
    pub fn new_without_signed_peers(count: usize) -> (setup: TestnetSetup<N>)
        ensures
            setup.wf(),
            setup.count() == count,
            setup.signed_peers_disabled(),
            setup.bootstrapped() == 0,
            setup.built() == Seq::<N>::empty(),
            setup.bootstrap() == Seq::<String>::empty(),
    {
        TestnetSetup::new_inner(count, true, None)
    }

    /// Plans a testnet of `count` nodes that also bootstrap from `bootstrap`.
    pub fn new_with_bootstrap(count: usize, bootstrap: &Vec<String>) -> (setup: TestnetSetup<N>)
        ensures
            setup.wf(),
            setup.count() == count,
            !setup.signed_peers_disabled(),
            setup.bootstrapped() == 0,
            setup.built() == Seq::<N>::empty(),
            setup.bootstrap() == bootstrap@,
    {
        TestnetSetup::new_inner(count, false, Some(copy_strings(bootstrap)))
    }

    /// By default as soon as this testnet gets dropped, all the nodes get
    /// dropped and the entire network is shutdown. This method leaks a
    /// clone of every node to keep them running.
    pub fn leak(&self) where N: Clone {
        let mut i: usize = 0;
        while i < self.nodes.len()
            invariant
                i <= self.nodes@.len(),
            decreases self.nodes@.len() - i,
        {
            leak_node(Box::new(self.nodes[i].clone()));
            i = i + 1;
        }
    }
}

} // verus!
