//! The trust-session layer of a node-based secure-overlay network.
//!
//! The library establishes authenticated encrypted channels to remote
//! identities, retrieves signed credentials over those channels, and relays
//! application messages across multi-hop routes, while a session registry
//! decides which hops may produce or consume traffic on a logical flow.
//! Every function here carries a contract; the surrounding application
//! performs the socket, vault and wire I/O and feeds the outcomes back in.

pub mod addr;
pub mod credentials;
pub mod errors;
pub mod hexutil;
pub mod message;
pub mod multiaddr;
pub mod relay;
pub mod resolver;
pub mod sessions;
pub mod transport;
