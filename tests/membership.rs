use erosion::addr::{Ipv4Addr, SocketAddr};
use erosion::config::{local, Config};
use erosion::gossip::Gossip;
use erosion::member::{Member, MemberState};
use erosion::membership::{Launch, Membership, MembershipMeta};
use erosion::message::Message;

fn addr(port: u16) -> SocketAddr {
    SocketAddr { ip: Ipv4Addr(127, 0, 0, 1), port }
}

fn member(name: &str, port: u16, state: MemberState) -> Member {
    Member { name: name.to_string(), addr: addr(port), state, inc: 0 }
}

fn meta_with(local_name: &str, members: Vec<Member>) -> MembershipMeta {
    let mut meta = MembershipMeta::new(local(local_name.to_string()));
    for m in members {
        meta.add_member(m);
    }
    meta
}

fn names(meta: &MembershipMeta) -> Vec<String> {
    meta.members().iter().map(|m| m.name.clone()).collect()
}

/// The name that the one datagram in the outbox pings, and where it goes.
fn sent_ping(g: &mut Gossip) -> (u32, String, SocketAddr) {
    let out = g.take_outbox();
    assert_eq!(out.len(), 1);
    match Message::read(&out[0].payload) {
        Ok(Message::Ping { seq, name }) => (seq, name, out[0].to),
        other => panic!("unexpected {:?}", other),
    }
}

#[test]
fn bind_starts_empty() {
    let m = Membership::bind(local("a".to_string()));
    assert!(!m.is_running());
    assert!(m.meta().members().is_empty());
    assert_eq!(m.meta().current_seq(), 0);
    assert_eq!(m.meta().probe_index(), 0);
    assert_eq!(m.meta().config().name, "a");
}

#[test]
fn start_launches_once() {
    let mut m = Membership::bind(local("a".to_string()));
    assert_eq!(m.start(), Launch { probe_loop: true, receive_loop: true });
    assert!(m.is_running());
    assert_eq!(m.start(), Launch { probe_loop: false, receive_loop: false });
}

#[test]
fn zero_probe_interval_disables_probing() {
    let mut config: Config = local("a".to_string());
    config.probe_interval = 0;
    let mut m = Membership::bind(config);
    assert_eq!(m.start(), Launch { probe_loop: false, receive_loop: true });
}

#[test]
fn join_adds_alive_seed_and_starts() {
    let mut m = Membership::bind(local("b".to_string()));
    assert_eq!(m.join("a".to_string(), addr(7201)), Launch { probe_loop: true, receive_loop: true });
    assert!(m.is_running());
    let ms = m.meta().members();
    assert_eq!(ms.len(), 1);
    assert_eq!(ms[0].name, "a");
    assert_eq!(ms[0].addr, addr(7201));
    assert_eq!(ms[0].state, MemberState::Alive);
    assert_eq!(ms[0].inc, 0);
}

#[test]
fn join_after_start_changes_nothing() {
    let mut m = Membership::bind(local("b".to_string()));
    m.start();
    assert_eq!(m.join("a".to_string(), addr(7201)), Launch { probe_loop: false, receive_loop: false });
    assert!(m.meta().members().is_empty());
}

#[test]
fn stop_ends_the_loops() {
    let mut m = Membership::bind(local("b".to_string()));
    m.start();
    m.stop();
    assert!(!m.is_running());
}

#[test]
fn next_seq_counts_up_from_one() {
    let mut meta = meta_with("a", vec![]);
    assert_eq!(meta.next_seq(), 1);
    assert_eq!(meta.next_seq(), 2);
    assert_eq!(meta.current_seq(), 2);
}

#[test]
fn probe_with_no_members_sends_nothing() {
    let mut meta = meta_with("a", vec![]);
    let mut g = Gossip::new();
    assert_eq!(meta.probe(&mut g, &[]), None);
    assert!(g.take_outbox().is_empty());
    assert_eq!(meta.current_seq(), 0);
}

#[test]
fn reset_members_applies_the_draws() {
    let mut meta = meta_with(
        "z",
        vec![
            member("a", 1, MemberState::Alive),
            member("b", 2, MemberState::Alive),
            member("c", 3, MemberState::Alive),
        ],
    );
    // Step 0 exchanges 0 with 0 + 2 % 3 = 2; step 1 exchanges 1 with 1 + 4 % 2 = 1.
    meta.reset_members(&[2, 4, 9]);
    assert_eq!(names(&meta), vec!["c", "b", "a"]);
    // Without draws nothing moves.
    meta.reset_members(&[]);
    assert_eq!(names(&meta), vec!["c", "b", "a"]);
}

#[test]
fn sweep_visits_each_other_member_once_before_wrapping() {
    let members = vec![
        member("a", 1, MemberState::Alive),
        member("b", 2, MemberState::Alive),
        member("self", 3, MemberState::Alive),
        member("c", 4, MemberState::Alive),
    ];
    let mut meta = meta_with("self", members);
    let mut g = Gossip::new();
    let mut probed = Vec::new();
    // Four rounds over four members; the reshuffle happens when the cursor wraps.
    for _ in 0..4 {
        let at_end = meta.probe_index() >= meta.members().len();
        if at_end {
            break;
        }
        if meta.probe(&mut g, &[0, 0, 0, 0]).is_some() {
            let (_, name, _) = sent_ping(&mut g);
            probed.push(name);
        }
    }
    probed.sort();
    assert_eq!(probed, vec!["a", "b", "c"]);
    assert_eq!(meta.probe_index(), meta.members().len());
}

#[test]
fn probe_picks_first_eligible_and_advances_past_it() {
    let mut meta = meta_with(
        "self",
        vec![
            member("self", 1, MemberState::Alive),
            member("dead", 2, MemberState::Dead),
            member("b", 3, MemberState::Suspect),
            member("c", 4, MemberState::Alive),
        ],
    );
    let mut g = Gossip::new();
    assert_eq!(meta.probe(&mut g, &[]), Some(1));
    assert_eq!(meta.probe_index(), 3);
    assert_eq!(sent_ping(&mut g), (1, "b".to_string(), addr(3)));
    assert!(meta.is_waiting(1));
    assert_eq!(meta.probe(&mut g, &[]), Some(2));
    assert_eq!(meta.probe_index(), 4);
    assert_eq!(sent_ping(&mut g), (2, "c".to_string(), addr(4)));
    // Wrap: without draws the order stays, and the sweep starts again.
    assert_eq!(meta.probe(&mut g, &[]), Some(3));
    assert_eq!(sent_ping(&mut g).1, "b");
}

#[test]
fn probe_skips_when_only_self_and_dead() {
    let mut meta = meta_with(
        "self",
        vec![member("self", 1, MemberState::Alive), member("d", 2, MemberState::Dead)],
    );
    let mut g = Gossip::new();
    assert_eq!(meta.probe(&mut g, &[]), None);
    assert_eq!(meta.probe_index(), 2);
    assert!(g.take_outbox().is_empty());
    assert_eq!(meta.current_seq(), 0);
}

#[test]
fn ack_before_timeout_confirms() {
    let mut meta = meta_with("a", vec![member("b", 2, MemberState::Alive)]);
    let mut g = Gossip::new();
    let seq = meta.probe(&mut g, &[]).unwrap();
    assert!(meta.is_waiting(seq));
    assert_eq!(meta.handle_message(&mut g, Message::Ack { seq }, addr(2)), Some(seq));
    assert!(!meta.is_waiting(seq));
    // The timeout comes too late: nothing left to remove.
    assert!(!meta.ack_timeout(seq));
    assert!(!meta.is_waiting(seq));
}

#[test]
fn timeout_before_ack_times_out() {
    let mut meta = meta_with("a", vec![member("b", 2, MemberState::Alive)]);
    let mut g = Gossip::new();
    let seq = meta.probe(&mut g, &[]).unwrap();
    assert!(meta.ack_timeout(seq));
    assert!(!meta.is_waiting(seq));
    // A late ack is for an unknown sequence number.
    assert_eq!(meta.handle_message(&mut g, Message::Ack { seq }, addr(2)), None);
    assert!(!meta.is_waiting(seq));
}

#[test]
fn ack_for_unknown_seq_is_ignored() {
    let mut meta = meta_with("a", vec![]);
    let mut g = Gossip::new();
    assert_eq!(meta.handle_message(&mut g, Message::Ack { seq: 77 }, addr(2)), None);
    assert!(g.take_outbox().is_empty());
}

#[test]
fn wait_ack_registers() {
    let mut meta = meta_with("a", vec![]);
    meta.wait_ack(12);
    assert!(meta.is_waiting(12));
    assert!(meta.ack_timeout(12));
}

#[test]
fn ping_for_own_name_is_acked() {
    let mut meta = meta_with("a", vec![]);
    let mut g = Gossip::new();
    let r = meta.handle_message(&mut g, Message::Ping { seq: 9, name: "a".to_string() }, addr(5));
    assert_eq!(r, None);
    let out = g.take_outbox();
    assert_eq!(out.len(), 1);
    assert_eq!(out[0].payload, vec![2, 0, 0, 0, 9]);
    assert_eq!(out[0].to, addr(5));
}

#[test]
fn ping_for_other_name_gets_no_ack() {
    let mut meta = meta_with("a", vec![]);
    let mut g = Gossip::new();
    let r = meta.handle_message(&mut g, Message::Ping { seq: 9, name: "old".to_string() }, addr(5));
    assert_eq!(r, None);
    assert!(g.take_outbox().is_empty());
}

#[test]
fn placeholder_messages_are_inert() {
    let mut meta = meta_with("a", vec![member("b", 2, MemberState::Alive)]);
    let mut g = Gossip::new();
    meta.wait_ack(1);
    let msgs = vec![
        Message::IndirectPing { addr: addr(2), seq: 1, name: "a".to_string() },
        Message::Suspect,
        Message::Alive,
        Message::Dead,
        Message::Empty,
    ];
    for msg in msgs {
        assert_eq!(meta.handle_message(&mut g, msg, addr(2)), None);
    }
    assert!(g.take_outbox().is_empty());
    assert!(meta.is_waiting(1));
    assert_eq!(names(&meta), vec!["b"]);
}

#[test]
fn undecodable_datagram_is_dropped() {
    let mut m = Membership::bind(local("a".to_string()));
    assert_eq!(m.handle_datagram(&[200, 1, 2], addr(9)), None);
    assert_eq!(m.handle_datagram(&[0, 0, 0, 0, 1, 4, b'a'], addr(9)), None);
    assert!(m.take_outbox().is_empty());
}

#[test]
fn two_nodes_complete_a_probe() {
    let addr_a = addr(7201);
    let addr_b = addr(7202);
    let mut config_a = local("A".to_string());
    config_a.bind_addr = addr_a;
    let mut config_b = local("B".to_string());
    config_b.bind_addr = addr_b;

    let mut a = Membership::bind(config_a);
    assert_eq!(a.start(), Launch { probe_loop: true, receive_loop: true });
    let mut b = Membership::bind(config_b);
    b.join("A".to_string(), addr_a);

    // B's probe round picks its seed.
    assert_eq!(b.probe_tick(&[]), Some(1));
    assert!(b.meta().is_waiting(1));
    let out = b.take_outbox();
    assert_eq!(out.len(), 1);
    assert_eq!(out[0].to, addr_a);
    assert_eq!(out[0].payload, vec![0, 0, 0, 0, 1, 1, b'A']);

    // A matches its own name and answers to the sender.
    assert_eq!(a.handle_datagram(&out[0].payload, addr_b), None);
    let reply = a.take_outbox();
    assert_eq!(reply.len(), 1);
    assert_eq!(reply[0].to, addr_b);
    assert_eq!(reply[0].payload, vec![2, 0, 0, 0, 1]);

    // B's wait for seq 1 resolves as confirmed; the timeout finds nothing.
    assert_eq!(b.handle_datagram(&reply[0].payload, addr_a), Some(1));
    assert!(!b.meta().is_waiting(1));
    assert!(!b.ack_timeout(1));
}
