//! A Mainline DHT node's protocol logic: node identities and XOR-distance
//! lookups, signed peer announcements, mutable and immutable items, the
//! request handling of the server, the bookkeeping of the node core, the
//! responses of queries and the setup plan of a local testnet.

pub mod common;
pub mod crypto;
pub mod encoding;
pub mod errors;
pub mod messages;
pub mod mutable;
pub mod node_core;
pub mod response;
pub mod routing_table;
pub mod server;
pub mod signed_announce;
pub mod store;
pub mod testnet;

pub use common::{Address, Id, Node};
pub use messages::{PutRequestSpecific, RequestSpecific, RequestTypeSpecific};
pub use mutable::MutableItem;
pub use routing_table::RoutingTable;
pub use server::{ServerResponse, ServerSettings, MAX_INFO_HASHES, MAX_PEERS, MAX_VALUES};
pub use signed_announce::SignedAnnounce;
pub use testnet::Testnet;

pub use ed25519_dalek::SigningKey;
