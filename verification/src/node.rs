//! The node engine: configuration, wire protocol and the event-driven core
//! that ties chain, pending pool, sync policy and peer index together.

pub mod config;
pub mod effect;
pub mod error;
pub mod event;
pub mod mode;
pub mod model;
pub mod node;
pub mod peers;
pub mod protocol;

pub use config::{DiscoveryMode, NodeConfig};
pub use effect::{Effect, SwarmInput, Topic};
pub use error::NodeError;
pub use event::{NodeEvent, PeerAddr};
pub use mode::NodeMode;
pub use node::Node;
pub use protocol::{GossipMessage, ProtocolError, SyncRequest, SyncResponse};
