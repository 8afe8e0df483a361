//! Configuration of a node.

use crate::node::mode::NodeMode;
use crate::sync::strategy::SyncStrategy;
use std::ops::RangeInclusive;
use vstd::prelude::*;
use vstd::std_specs::range::RangeInclusiveView;

verus! {

/// The port a node listens on unless told otherwise.
pub const DEFAULT_PORT: u16 = 51025;

/// Seconds between two discovery scans unless told otherwise.
pub const DEFAULT_DISCOVERY_INTERVAL_SECS: u64 = 60;

/// Which peer-discovery mechanisms the node acts on.
#[derive(Debug, Clone, Copy, PartialEq, Eq, Structural)]
pub enum DiscoveryMode {
    /// Only the distributed hash table.
    KademliaDht,
    /// Only local-network discovery.
    Mdns,
    /// Both mechanisms.
    Both,
}

impl Default for DiscoveryMode {
    fn default() -> (mode: Self)
        ensures
            mode == DiscoveryMode::Both,
    {
        DiscoveryMode::Both
    }
}

/// The bounds of an optional port range.
pub open spec fn filter_view(filter: Option<RangeInclusive<u16>>) -> Option<
    RangeInclusiveView<u16>,
> {
    match filter {
        None => None,
        Some(range) => Some(range@),
    }
}

/// True iff `port` passes the optional port filter: no filter lets every
/// port pass, a range lets its own ports pass.
pub open spec fn port_in_filter(filter: Option<RangeInclusiveView<u16>>, port: u16) -> bool {
    match filter {
        None => true,
        Some(range) => range.start <= port && if range.exhausted {
            port < range.end
        } else {
            port <= range.end
        },
    }
}

/// Applies the optional port filter to `port`.
pub fn port_passes(filter: &Option<RangeInclusive<u16>>, port: u16) -> (allowed: bool)
    ensures
        allowed == port_in_filter(filter_view(*filter), port),
{
    match filter {
        None => true,
        Some(range) => range.contains(&port),
    }
}

/// The bounds of the discovery port range that an optional lowest and an
/// optional highest port stand for: a missing bound is the lowest or the
/// highest port there is, and two missing bounds are no range.
pub open spec fn bounds_view(min: Option<u16>, max: Option<u16>) -> Option<
    RangeInclusiveView<u16>,
> {
    match (min, max) {
        (None, None) => None,
        (Some(start), None) => Some(RangeInclusiveView { start, end: u16::MAX, exhausted: false }),
        (None, Some(end)) => Some(RangeInclusiveView { start: 0, end, exhausted: false }),
        (Some(start), Some(end)) => Some(RangeInclusiveView { start, end, exhausted: false }),
    }
}

/// The discovery port range for an optional lowest and an optional highest
/// port.
pub fn port_range_from_bounds(min: Option<u16>, max: Option<u16>) -> (range: Option<
    RangeInclusive<u16>,
>)
    ensures
        filter_view(range) == bounds_view(min, max),
{
    match (min, max) {
        (None, None) => None,
        (Some(start), None) => Some(RangeInclusive::new(start, u16::MAX)),
        (None, Some(end)) => Some(RangeInclusive::new(0, end)),
        (Some(start), Some(end)) => Some(RangeInclusive::new(start, end)),
    }
}

/// Full configuration of a node.
#[derive(Debug, Clone)]
pub struct NodeConfig {
    /// TCP port the node listens on.
    pub port: u16,
    /// If set, only peer addresses whose port lies in this range are acted
    /// on during discovery.
    pub discovery_port_range: Option<RangeInclusive<u16>>,
    /// Which peer-discovery mechanisms to act on.
    pub discovery_mode: DiscoveryMode,
    /// Full participant or relay only.
    pub mode: NodeMode,
    /// Which blocks are synced from peers.
    pub sync_strategy: SyncStrategy,
    /// Tells the host program to keep the node's log output off the terminal.
    pub quiet: bool,
}

impl Default for NodeConfig {
    fn default() -> (config: Self)
        ensures
            config.port == DEFAULT_PORT,
            config.discovery_port_range is None,
            config.discovery_mode == DiscoveryMode::Both,
            config.mode == NodeMode::Full,
            config.sync_strategy == SyncStrategy::OnDemand,
            !config.quiet,
    {
        NodeConfig {
            port: DEFAULT_PORT,
            discovery_port_range: None,
            discovery_mode: DiscoveryMode::Both,
            mode: NodeMode::Full,
            sync_strategy: SyncStrategy::OnDemand,
            quiet: false,
        }
    }
}

impl NodeConfig {
    /// A relay-only configuration on the default port.
    pub fn gossip() -> (config: Self)
        ensures
            config.port == DEFAULT_PORT,
            config.discovery_port_range is None,
            config.discovery_mode == DiscoveryMode::Both,
            config.mode == NodeMode::Gossip,
            config.sync_strategy == SyncStrategy::OnDemand,
            !config.quiet,
    {
        NodeConfig::gossip_on_port(DEFAULT_PORT)
    }

    /// A relay-only configuration on the given port.
    pub fn gossip_on_port(port: u16) -> (config: Self)
        ensures
            config.port == port,
            config.discovery_port_range is None,
            config.discovery_mode == DiscoveryMode::Both,
            config.mode == NodeMode::Gossip,
            config.sync_strategy == SyncStrategy::OnDemand,
            !config.quiet,
    {
        NodeConfig {
            port,
            discovery_port_range: None,
            discovery_mode: DiscoveryMode::Both,
            mode: NodeMode::Gossip,
            sync_strategy: SyncStrategy::OnDemand,
            quiet: false,
        }
    }

    /// A full-node configuration on the given port.
    pub fn on_port(port: u16) -> (config: Self)
        ensures
            config.port == port,
            config.discovery_port_range is None,
            config.discovery_mode == DiscoveryMode::Both,
            config.mode == NodeMode::Full,
            config.sync_strategy == SyncStrategy::OnDemand,
            !config.quiet,
    {
        NodeConfig {
            port,
            discovery_port_range: None,
            discovery_mode: DiscoveryMode::Both,
            mode: NodeMode::Full,
            sync_strategy: SyncStrategy::OnDemand,
            quiet: false,
        }
    }

    /// True when `port` lies in the configured discovery port range, or when
    /// no range is configured.
    pub fn port_allowed(&self, port: u16) -> (allowed: bool)
        ensures
            allowed == port_in_filter(filter_view(self.discovery_port_range), port),
    {
        port_passes(&self.discovery_port_range, port)
    }
}

} // verus!
