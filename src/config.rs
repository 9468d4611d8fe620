//! Tunable parameters of a node. Durations are in milliseconds.
use vstd::prelude::*;

use crate::addr::{Ipv4Addr, SocketAddr};

verus! {

/// The UDP port that the presets bind to.
pub const DEFAULT_PORT: u16 = 7201;

/// The parameters of one node.
///
/// Only `name`, `bind_addr`, `probe_interval` and `probe_timeout` drive the
/// protocol; the others are accepted for SWIM extensions that this crate
/// does not run (indirect probes, suspicion, push/pull sync, gossip fan-out,
/// compression).
#[derive(Clone, Debug)]
pub struct Config {
    /// This node's identity in the cluster.
    pub name: String,
    pub bind_addr: SocketAddr,
    /// Timeout for a TCP connection of a full state sync.
    pub tcp_timeout: u64,
    /// Number of nodes asked to probe a node that missed its ack.
    pub indirect_checks: usize,
    /// Retransmissions of a gossiped message scale as
    /// `retransmit_mult * log(N + 1)`.
    pub retransmit_mult: i64,
    /// A suspect node is declared dead after
    /// `suspicion_mult * log(N + 1) * probe_interval`.
    pub suspicion_mult: i64,
    /// Interval between full state syncs with a random node.
    pub push_pull_interval: u64,
    /// Interval between probe rounds; zero disables probing.
    pub probe_interval: u64,
    /// How long a probe waits for its ack.
    pub probe_timeout: u64,
    /// Interval between gossip rounds that do not ride on probes.
    pub gossip_interval: u64,
    /// Number of nodes that each gossip round reaches.
    pub gossip_nodes: usize,
    pub enable_compression: bool,
}

/// Conservative parameters for a LAN, bound to all interfaces on
/// `DEFAULT_PORT`.
pub fn lan(name: String) -> (c: Config)
    ensures
        c.name@ == name@,
        c.bind_addr == (SocketAddr { ip: Ipv4Addr(0, 0, 0, 0), port: DEFAULT_PORT }),
        c.tcp_timeout == 10_000,
        c.indirect_checks == 3,
        c.retransmit_mult == 4,
        c.suspicion_mult == 5,
        c.push_pull_interval == 30_000,
        c.probe_interval == 1_000,
        c.probe_timeout == 500,
        c.gossip_interval == 200,
        c.gossip_nodes == 3,
        c.enable_compression,
{
    Config {
        name,
        bind_addr: SocketAddr { ip: Ipv4Addr(0, 0, 0, 0), port: DEFAULT_PORT },
        tcp_timeout: 10_000,
        indirect_checks: 3,
        retransmit_mult: 4,
        suspicion_mult: 5,
        push_pull_interval: 30_000,
        probe_interval: 1_000,
        probe_timeout: 500,
        gossip_interval: 200,
        gossip_nodes: 3,
        enable_compression: true,
    }
}

/// Like `lan`, with the slower rounds and longer timeouts of a WAN.
pub fn wan(name: String) -> (c: Config)
    ensures
        c.name@ == name@,
        c.bind_addr == (SocketAddr { ip: Ipv4Addr(0, 0, 0, 0), port: DEFAULT_PORT }),
        c.tcp_timeout == 30_000,
        c.indirect_checks == 3,
        c.retransmit_mult == 4,
        c.suspicion_mult == 6,
        c.push_pull_interval == 60_000,
        c.probe_interval == 5_000,
        c.probe_timeout == 3_000,
        c.gossip_interval == 500,
        c.gossip_nodes == 4,
        c.enable_compression,
{
    let mut config = lan(name);
    config.tcp_timeout = 30_000;
    config.suspicion_mult = 6;
    config.push_pull_interval = 60_000;
    config.probe_interval = 5_000;
    config.probe_timeout = 3_000;
    config.gossip_interval = 500;
    config.gossip_nodes = 4;
    config
}

/// Like `lan`, with the short timeouts of a loopback network.
pub fn local(name: String) -> (c: Config)
    ensures
        c.name@ == name@,
        c.bind_addr == (SocketAddr { ip: Ipv4Addr(0, 0, 0, 0), port: DEFAULT_PORT }),
        c.tcp_timeout == 1_000,
        c.indirect_checks == 1,
        c.retransmit_mult == 2,
        c.suspicion_mult == 3,
        c.push_pull_interval == 15_000,
        c.probe_interval == 1_000,
        c.probe_timeout == 200,
        c.gossip_interval == 100,
        c.gossip_nodes == 3,
        c.enable_compression,
{
    let mut config = lan(name);
    config.tcp_timeout = 1_000;
    config.indirect_checks = 1;
    config.retransmit_mult = 2;
    config.suspicion_mult = 3;
    config.push_pull_interval = 15_000;
    config.probe_timeout = 200;
    config.gossip_interval = 100;
    config
}

} // verus!
