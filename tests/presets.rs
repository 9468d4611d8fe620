use erosion::addr::{Ipv4Addr, SocketAddr};
use erosion::config::{lan, local, wan};

#[test]
fn lan_preset() {
    let c = lan("n".to_string());
    assert_eq!(c.name, "n");
    assert_eq!(c.bind_addr, SocketAddr { ip: Ipv4Addr(0, 0, 0, 0), port: 7201 });
    assert_eq!(c.tcp_timeout, 10_000);
    assert_eq!(c.indirect_checks, 3);
    assert_eq!(c.retransmit_mult, 4);
    assert_eq!(c.suspicion_mult, 5);
    assert_eq!(c.push_pull_interval, 30_000);
    assert_eq!(c.probe_interval, 1_000);
    assert_eq!(c.probe_timeout, 500);
    assert_eq!(c.gossip_interval, 200);
    assert_eq!(c.gossip_nodes, 3);
    assert!(c.enable_compression);
}

#[test]
fn wan_preset() {
    let c = wan("w".to_string());
    assert_eq!(c.name, "w");
    assert_eq!(c.tcp_timeout, 30_000);
    assert_eq!(c.indirect_checks, 3);
    assert_eq!(c.suspicion_mult, 6);
    assert_eq!(c.push_pull_interval, 60_000);
    assert_eq!(c.probe_interval, 5_000);
    assert_eq!(c.probe_timeout, 3_000);
    assert_eq!(c.gossip_interval, 500);
    assert_eq!(c.gossip_nodes, 4);
}

#[test]
fn local_preset() {
    let c = local("l".to_string());
    assert_eq!(c.name, "l");
    assert_eq!(c.tcp_timeout, 1_000);
    assert_eq!(c.indirect_checks, 1);
    assert_eq!(c.retransmit_mult, 2);
    assert_eq!(c.suspicion_mult, 3);
    assert_eq!(c.push_pull_interval, 15_000);
    assert_eq!(c.probe_interval, 1_000);
    assert_eq!(c.probe_timeout, 200);
    assert_eq!(c.gossip_interval, 100);
    assert_eq!(c.gossip_nodes, 3);
}
