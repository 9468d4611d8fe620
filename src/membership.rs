//! The membership core: the member list, the probe cursor, the sequence
//! counter and the ack-wait table, with the decisions of the probe loop and
//! of the receive loop as state transitions.
//!
//! The caller owns the clock and the socket. A probe tick returns the
//! sequence number it waits for; the caller then waits up to
//! `probe_timeout`, watching `is_waiting`, and calls `ack_timeout` when the
//! time is up. Whichever of the ack and the timeout reaches the table first
//! resolves the wait, and the other finds nothing.
use vstd::prelude::*;

use std::collections::HashSet;

use crate::addr::SocketAddr;
use crate::config::Config;
use crate::gossip::{after_send, Datagram, Gossip};
use crate::member::{Member, MemberState};
use crate::message::{decode, Message, MessageView};

verus! {

broadcast use vstd::std_specs::hash::group_hash_axioms;

/// Whether a probe round may pick `m`: it is not this node and not dead.
pub open spec fn eligible(m: Member, local: Seq<char>) -> bool {
    m.name@ != local && m.state != MemberState::Dead
}

/// The first index at or after `c` whose member is eligible, or the length
/// of `ms` when there is none.
pub open spec fn next_eligible(ms: Seq<Member>, local: Seq<char>, c: int) -> int
    decreases ms.len() - c,
{
    if c >= ms.len() {
        ms.len() as int
    } else if eligible(ms[c], local) {
        c
    } else {
        next_eligible(ms, local, c + 1)
    }
}

/// The eligible indices from `c` to the end of `ms`, in order.
pub open spec fn sweep(ms: Seq<Member>, local: Seq<char>, c: int) -> Seq<int>
    decreases ms.len() - c,
{
    if c >= ms.len() {
        seq![]
    } else if eligible(ms[c], local) {
        seq![c] + sweep(ms, local, c + 1)
    } else {
        sweep(ms, local, c + 1)
    }
}

/// `s` with the entries at `i` and `j` exchanged.
pub open spec fn swap_at<A>(s: Seq<A>, i: int, j: int) -> Seq<A> {
    s.update(i, s[j]).update(j, s[i])
}

/// The index that step `i` of a shuffle of `n` entries exchanges with: `i`
/// plus the draw for `i` reduced below `n - i`, or `i` itself where there
/// is no draw.
pub open spec fn shuffle_pick(draws: Seq<usize>, i: int, n: int) -> int {
    if i < draws.len() {
        i + (draws[i] as int) % (n - i)
    } else {
        i
    }
}

/// Steps `i` onwards of a Fisher-Yates shuffle of `s` driven by `draws`.
pub open spec fn shuffle_from<A>(s: Seq<A>, draws: Seq<usize>, i: int) -> Seq<A>
    decreases s.len() - i,
{
    if i < 0 || i + 1 >= s.len() {
        s
    } else {
        shuffle_from(swap_at(s, i, shuffle_pick(draws, i, s.len() as int)), draws, i + 1)
    }
}

/// The Fisher-Yates shuffle of `s` driven by `draws`: uniform when each
/// `draws[i]` is uniform over a range that is a multiple of `s.len() - i`.
pub open spec fn shuffle<A>(s: Seq<A>, draws: Seq<usize>) -> Seq<A> {
    shuffle_from(s, draws, 0)
}

/// The sequence number that follows `s`; it wraps to zero after `u32::MAX`.
pub open spec fn seq_after(s: u32) -> u32 {
    if s == u32::MAX {
        0
    } else {
        (s + 1) as u32
    }
}


/// The outbox of a transport: datagrams and their destinations.
pub type Outbox = Seq<(Seq<u8>, SocketAddr)>;

/// Resolving the wait for `seq` in the table `p`: whether it was open, and
/// the table without it.
pub open spec fn resolve(p: Set<u32>, seq: u32) -> (bool, Set<u32>) {
    (p.contains(seq), p.remove(seq))
}

/// One probe round takes the node from `m0` to `m1` and the outbox from
/// `q0` to `q1`, with result `r` (see `MembershipMeta::probe`).
pub open spec fn probe_step(
    m0: MembershipMeta,
    q0: Outbox,
    draws: Seq<usize>,
    m1: MembershipMeta,
    q1: Outbox,
    r: Option<u32>,
) -> bool {
    let ms = m0.probe_order(draws);
    let t = next_eligible(ms, m0.spec_config().name@, m0.probe_start());
    &&& m1.wf()
    &&& m1.spec_config() == m0.spec_config()
    &&& m1.member_list() == ms
    &&& if t < ms.len() {
        let seq = seq_after(m0.last_seq());
        &&& r == Some(seq)
        &&& m1.cursor() == t + 1
        &&& m1.last_seq() == seq
        &&& m1.pending() == m0.pending().insert(seq)
        &&& q1 == after_send(q0, MessageView::Ping { seq, name: ms[t].name@ }, ms[t].addr)
    } else {
        &&& r is None
        &&& m1.cursor() == ms.len()
        &&& m1.last_seq() == m0.last_seq()
        &&& m1.pending() == m0.pending()
        &&& q1 == q0
    }
}

/// Handling `msg` from `from` takes the node from `m0` to `m1` and the
/// outbox from `q0` to `q1`, with result `r` (see
/// `MembershipMeta::handle_message`).
pub open spec fn handle_step(
    m0: MembershipMeta,
    q0: Outbox,
    msg: MessageView,
    from: SocketAddr,
    m1: MembershipMeta,
    q1: Outbox,
    r: Option<u32>,
) -> bool {
    &&& m1.wf() == m0.wf()
    &&& m1.spec_config() == m0.spec_config()
    &&& m1.member_list() == m0.member_list()
    &&& m1.last_seq() == m0.last_seq()
    &&& m1.cursor() == m0.cursor()
    &&& match msg {
        MessageView::Ping { seq, name } => {
            &&& r is None
            &&& m1.pending() == m0.pending()
            &&& q1 == if name == m0.spec_config().name@ {
                after_send(q0, MessageView::Ack { seq }, from)
            } else {
                q0
            }
        },
        MessageView::Ack { seq } => {
            &&& (r is Some, m1.pending()) == resolve(m0.pending(), seq)
            &&& r is Some ==> r == Some(seq)
            &&& q1 == q0
        },
        _ => {
            &&& r is None
            &&& m1.pending() == m0.pending()
            &&& q1 == q0
        },
    }
}

/// A probe round from cursor `c` takes the first index of the sweep from
/// `c` and leaves the cursor just after it, where the rest of the sweep
/// starts; with an empty sweep it takes nothing. So successive rounds pick
/// the indices of the sweep one by one, in order.
pub proof fn lemma_sweep_step(ms: Seq<Member>, local: Seq<char>, c: int)
    requires
        0 <= c <= ms.len(),
    ensures
        c <= next_eligible(ms, local, c) <= ms.len(),
        next_eligible(ms, local, c) < ms.len() ==> sweep(ms, local, c) == seq![
            next_eligible(ms, local, c),
        ] + sweep(ms, local, next_eligible(ms, local, c) + 1),
        next_eligible(ms, local, c) == ms.len() ==> sweep(ms, local, c) == Seq::<int>::empty(),
    decreases ms.len() - c,
{
    if c < ms.len() && !eligible(ms[c], local) {
        lemma_sweep_step(ms, local, c + 1);
    }
}

/// The sweep from `c` holds each index from `c` on whose member is
/// eligible, and no other index, in strictly increasing order: each once.
pub proof fn lemma_sweep_covers(ms: Seq<Member>, local: Seq<char>, c: int)
    requires
        0 <= c <= ms.len(),
    ensures
        forall|i: int| c <= i < ms.len() ==> (sweep(ms, local, c).contains(i) <==> eligible(ms[i], local)),
        forall|k: int| 0 <= k < sweep(ms, local, c).len() ==> c <= #[trigger] sweep(ms, local, c)[k] < ms.len(),
        forall|k: int, l: int|
            0 <= k < l < sweep(ms, local, c).len() ==> #[trigger] sweep(ms, local, c)[k] < #[trigger] sweep(ms, local, c)[l],
    decreases ms.len() - c,
{
    if c < ms.len() {
        lemma_sweep_covers(ms, local, c + 1);
        let rest = sweep(ms, local, c + 1);
        if eligible(ms[c], local) {
            let sw = seq![c] + rest;
            assert(sweep(ms, local, c) == sw);
            assert forall|i: int| c <= i < ms.len() implies (sw.contains(i) <==> eligible(ms[i], local)) by {
                if i == c {
                    assert(sw[0] == c);
                } else {
                    if rest.contains(i) {
                        let k = choose|k: int| 0 <= k < rest.len() && rest[k] == i;
                        assert(sw[k + 1] == i);
                    }
                    if sw.contains(i) {
                        let k = choose|k: int| 0 <= k < sw.len() && sw[k] == i;
                        assert(k > 0);
                        assert(rest[k - 1] == i);
                    }
                }
            }
            assert forall|k: int| 0 <= k < sw.len() implies c <= #[trigger] sw[k] < ms.len() by {
                if k > 0 {
                    assert(sw[k] == rest[k - 1]);
                }
            }
            assert forall|k: int, l: int| 0 <= k < l < sw.len() implies #[trigger] sw[k] < #[trigger] sw[l] by {
                assert(sw[l] == rest[l - 1]);
                if k > 0 {
                    assert(sw[k] == rest[k - 1]);
                }
            }
        }
    }
}

/// With no dead member, the sweep of a whole member list visits every
/// member whose name is not this node's exactly once, in list order, and
/// never this node: the probe rounds from a fresh shuffle up to the next
/// reshuffle probe each other member once.
pub proof fn lemma_probe_sweep_coverage(ms: Seq<Member>, local: Seq<char>)
    requires
        forall|i: int| 0 <= i < ms.len() ==> ms[i].state != MemberState::Dead,
    ensures
        forall|i: int| 0 <= i < ms.len() ==> (sweep(ms, local, 0).contains(i) <==> ms[i].name@ != local),
        forall|k: int, l: int|
            0 <= k < l < sweep(ms, local, 0).len() ==> #[trigger] sweep(ms, local, 0)[k] < #[trigger] sweep(ms, local, 0)[l],
{
    lemma_sweep_covers(ms, local, 0);
}

/// Once the wait for `seq` is registered, the first of its ack and its
/// timeout to reach the table resolves it and removes its entry; the second
/// finds nothing and leaves the table as it is. Each registered wait has
/// exactly one outcome, and no entry for it is left behind.
pub proof fn lemma_ack_race(p: Set<u32>, seq: u32)
    ensures
        resolve(p.insert(seq), seq).0,
        !resolve(p.insert(seq), seq).1.contains(seq),
        !resolve(resolve(p.insert(seq), seq).1, seq).0,
        resolve(resolve(p.insert(seq), seq).1, seq).1 == resolve(p.insert(seq), seq).1,
{
    assert(resolve(resolve(p.insert(seq), seq).1, seq).1 =~= resolve(p.insert(seq), seq).1);
}

/// Exchanging two entries keeps the same entries.
pub proof fn lemma_swap_permutes<A>(s: Seq<A>, i: int, j: int)
    requires
        0 <= i < s.len(),
        0 <= j < s.len(),
    ensures
        swap_at(s, i, j).len() == s.len(),
        swap_at(s, i, j).to_multiset() == s.to_multiset(),
{
    let t = s.update(i, s[j]);
    vstd::seq_lib::to_multiset_update(s, i, s[j]);
    vstd::seq_lib::to_multiset_update(t, j, s[i]);
    assert(t[j] == if i == j { s[j] } else { s[j] });
    let m = s.to_multiset();
    assert(m.count(s[i]) > 0 && m.count(s[j]) > 0) by {
        s.to_multiset_ensures();
        assert(s.contains(s[i]));
        assert(s.contains(s[j]));
    }
    let m1 = m.insert(s[j]);
    let m2 = m1.remove(s[i]);
    let m3 = m2.insert(s[i]);
    assert(m2.count(s[i]) == m1.count(s[i]) - 1);
    assert(m3.count(s[j]) > 0);
    assert forall|x: A| #[trigger] m3.remove(s[j]).count(x) == m.count(x) by {
        if x == s[j] {
        }
    }
    assert(m3.remove(s[j]) =~= m);
}

/// A shuffle keeps the same entries: it only reorders them.
pub proof fn lemma_shuffle_permutes<A>(s: Seq<A>, draws: Seq<usize>, i: int)
    ensures
        shuffle_from(s, draws, i).len() == s.len(),
        shuffle_from(s, draws, i).to_multiset() == s.to_multiset(),
    decreases s.len() - i,
{
    if !(i < 0 || i + 1 >= s.len()) {
        let j = shuffle_pick(draws, i, s.len() as int);
        lemma_swap_permutes(s, i, j);
        lemma_shuffle_permutes(swap_at(s, i, j), draws, i + 1);
    }
}

/// Exchanges the entries at `i` and `j`.
fn swap_entries(v: &mut Vec<Member>, i: usize, j: usize)
    requires
        i <= j < old(v)@.len(),
    ensures
        final(v)@ == swap_at(old(v)@, i as int, j as int),
{
    if i == j {
        assert(v@ =~= swap_at(v@, i as int, j as int));
        return ;
    }
    let mut taken = v.remove(j);
    v.set_and_swap(i, &mut taken);
    v.insert(j, taken);
    assert(v@ =~= swap_at(old(v)@, i as int, j as int));
}

/// The shared state of a node's failure detector.
pub struct MembershipMeta {
    config: Config,
    members: Vec<Member>,
    /// Sequence numbers of the probes that wait for an ack.
    ack_waits: HashSet<u32>,
    /// The last sequence number handed out.
    seq: u32,
    /// The next position of the member list that a probe round inspects.
    probe_index: usize,
}

impl MembershipMeta {
    pub closed spec fn spec_config(&self) -> Config {
        self.config
    }

    pub closed spec fn member_list(&self) -> Seq<Member> {
        self.members@
    }

    pub closed spec fn pending(&self) -> Set<u32> {
        self.ack_waits@
    }

    pub closed spec fn last_seq(&self) -> u32 {
        self.seq
    }

    pub closed spec fn cursor(&self) -> int {
        self.probe_index as int
    }

    /// The cursor never passes the end of the member list.
    pub closed spec fn wf(&self) -> bool {
        self.probe_index <= self.members@.len()
    }

    /// The member list that a probe round scans: reshuffled, and scanned from
    /// the start, once the cursor has reached the end.
    pub open spec fn probe_order(&self, draws: Seq<usize>) -> Seq<Member> {
        if self.cursor() >= self.member_list().len() {
            shuffle(self.member_list(), draws)
        } else {
            self.member_list()
        }
    }

    pub open spec fn probe_start(&self) -> int {
        if self.cursor() >= self.member_list().len() {
            0
        } else {
            self.cursor()
        }
    }

    /// A node with no members, no waits and sequence counter zero.
    pub fn new(config: Config) -> (r: MembershipMeta)
        ensures
            r.wf(),
            r.spec_config() == config,
            r.member_list() == Seq::<Member>::empty(),
            r.pending() == Set::<u32>::empty(),
            r.last_seq() == 0,
            r.cursor() == 0,
    {
        MembershipMeta {
            config,
            members: Vec::new(),
            ack_waits: HashSet::new(),
            seq: 0,
            probe_index: 0,
        }
    }

    /// This node's parameters.
    pub fn config(&self) -> (r: &Config)
        ensures
            *r == self.spec_config(),
    {
        &self.config
    }

    /// The members, in their current probe order.
    pub fn members(&self) -> (r: &Vec<Member>)
        ensures
            r@ == self.member_list(),
    {
        &self.members
    }

    /// The next position of the member list that a probe round inspects.
    pub fn probe_index(&self) -> (r: usize)
        ensures
            r == self.cursor(),
    {
        self.probe_index
    }

    /// The last sequence number handed out.
    pub fn current_seq(&self) -> (r: u32)
        ensures
            r == self.last_seq(),
    {
        self.seq
    }

    /// Whether the probe with sequence number `seq` still waits for its ack.
    pub fn is_waiting(&self, seq: u32) -> (r: bool)
        ensures
            r == self.pending().contains(seq),
    {
        self.ack_waits.contains(&seq)
    }

    /// Appends `member` to the member list.
    pub fn add_member(&mut self, member: Member)
        requires
            old(self).wf(),
        ensures
            final(self).wf(),
            final(self).member_list() == old(self).member_list().push(member),
            final(self).spec_config() == old(self).spec_config(),
            final(self).pending() == old(self).pending(),
            final(self).last_seq() == old(self).last_seq(),
            final(self).cursor() == old(self).cursor(),
    {
        self.members.push(member);
    }

    /// Hands out the next sequence number.
    pub fn next_seq(&mut self) -> (r: u32)
        ensures
            r == seq_after(old(self).last_seq()),
            final(self).last_seq() == r,
            final(self).spec_config() == old(self).spec_config(),
            final(self).member_list() == old(self).member_list(),
            final(self).pending() == old(self).pending(),
            final(self).cursor() == old(self).cursor(),
    {
        self.seq = if self.seq == u32::MAX {
            0
        } else {
            self.seq + 1
        };
        self.seq
    }

    /// Reorders the member list by the Fisher-Yates shuffle that `draws`
    /// drives. Dead members are kept: no member is ever removed.
    pub fn reset_members(&mut self, draws: &[usize])
        requires
            old(self).wf(),
        ensures
            final(self).wf(),
            final(self).member_list() == shuffle(old(self).member_list(), draws@),
            final(self).member_list().to_multiset() == old(self).member_list().to_multiset(),
            final(self).spec_config() == old(self).spec_config(),
            final(self).pending() == old(self).pending(),
            final(self).last_seq() == old(self).last_seq(),
            final(self).cursor() == old(self).cursor(),
    {
        let n = self.members.len();
        let mut i: usize = 0;
        while i < n && n - i > 1
            invariant
                n == self.members@.len(),
                i <= n,
                self.probe_index <= n,
                shuffle_from(self.members@, draws@, i as int) == shuffle(
                    old(self).member_list(),
                    draws@,
                ),
                self.config == old(self).config,
                self.ack_waits == old(self).ack_waits,
                self.seq == old(self).seq,
                self.probe_index == old(self).probe_index,
            decreases n - i,
        {
            let j = if i < draws.len() {
                i + draws[i] % (n - i)
            } else {
                i
            };
            swap_entries(&mut self.members, i, j);
            i += 1;
        }
        proof {
            lemma_shuffle_permutes(old(self).member_list(), draws@, 0);
        }
    }

    /// Registers a wait for the ack of probe `seq`.
    pub fn wait_ack(&mut self, seq: u32)
        ensures
            final(self).pending() == old(self).pending().insert(seq),
            final(self).spec_config() == old(self).spec_config(),
            final(self).member_list() == old(self).member_list(),
            final(self).last_seq() == old(self).last_seq(),
            final(self).cursor() == old(self).cursor(),
    {
        self.ack_waits.insert(seq);
    }

    /// Ends the wait for probe `seq` when its time is up. Returns whether the
    /// wait was still open, that is whether the probe timed out; `false`
    /// means that its ack came first.
    pub fn ack_timeout(&mut self, seq: u32) -> (r: bool)
        ensures
            (r, final(self).pending()) == resolve(old(self).pending(), seq),
            final(self).spec_config() == old(self).spec_config(),
            final(self).member_list() == old(self).member_list(),
            final(self).last_seq() == old(self).last_seq(),
            final(self).cursor() == old(self).cursor(),
    {
        self.ack_waits.remove(&seq)
    }

    /// Starts a probe of `member`: pings it under a fresh sequence number and
    /// registers the wait for its ack. Returns that sequence number.
    pub fn probe_member(&mut self, gossip: &mut Gossip, member: Member) -> (r: u32)
        ensures
            r == seq_after(old(self).last_seq()),
            final(self).last_seq() == r,
            final(self).pending() == old(self).pending().insert(r),
            final(gossip)@ == after_send(
                old(gossip)@,
                MessageView::Ping { seq: r, name: member.name@ },
                member.addr,
            ),
            final(self).spec_config() == old(self).spec_config(),
            final(self).member_list() == old(self).member_list(),
            final(self).cursor() == old(self).cursor(),
    {
        let seq = self.next_seq();
        gossip.ping(seq, member.name, member.addr);
        self.wait_ack(seq);
        seq
    }

    /// One round of failure detection. Once the cursor has reached the end
    /// of the member list, the list is reshuffled by `draws` and the cursor
    /// goes back to the start. From the cursor the round takes the first
    /// member that is neither this node nor dead, moves the cursor past it
    /// and starts a probe of it, returning the probe's sequence number. With
    /// no such member the cursor moves to the end and nothing is sent.
    pub fn probe(&mut self, gossip: &mut Gossip, draws: &[usize]) -> (r: Option<u32>)
        requires
            old(self).wf(),
        ensures
            probe_step(*old(self), old(gossip)@, draws@, *final(self), final(gossip)@, r),
    {
        if self.probe_index >= self.members.len() {
            self.reset_members(draws);
            self.probe_index = 0;
        }
        let ghost ms = self.members@;
        let ghost local = self.config.name@;
        let ghost c = self.probe_index as int;
        let n = self.members.len();
        let mut i = self.probe_index;
        let mut found = false;
        while i < n && !found
            invariant
                n == ms.len(),
                ms == self.members@,
                local == self.config.name@,
                c <= i <= n,
                found ==> i >= 1 && next_eligible(ms, local, c) == i - 1,
                !found ==> next_eligible(ms, local, c) == next_eligible(ms, local, i as int),
            decreases n - i + if found { 0int } else { 1int },
        {
            let member = &self.members[i];
            i += 1;
            if !(member.name == self.config.name) && member.state != MemberState::Dead {
                found = true;
            }
        }
        self.probe_index = i;
        if !found {
            return None;
        }
        let t = i - 1;
        let target = Member {
            name: self.members[t].name.clone(),
            addr: self.members[t].addr,
            state: self.members[t].state,
            inc: self.members[t].inc,
        };
        let seq = self.probe_member(gossip, target);
        Some(seq)
    }

    /// Acts on a message received from `from`. A `Ping` addressed to this
    /// node's name is answered with an `Ack` of the same sequence number;
    /// one addressed to another name is dropped. An `Ack` resolves the wait
    /// for its sequence number if that wait is still open, and the result is
    /// then that sequence number. Every other message is accepted and
    /// changes nothing.
    pub fn handle_message(&mut self, gossip: &mut Gossip, msg: Message, from: SocketAddr) -> (r:
        Option<u32>)
        ensures
            handle_step(*old(self), old(gossip)@, msg@, from, *final(self), final(gossip)@, r),
    {
        match msg {
            Message::Ping { seq, name } => {
                if !(name == self.config.name) {
                    return None;
                }
                gossip.ack(seq, from);
                None
            },
            Message::Ack { seq } => {
                if self.ack_waits.remove(&seq) {
                    Some(seq)
                } else {
                    None
                }
            },
            Message::IndirectPing { .. } => None,
            Message::Suspect => None,
            Message::Alive => None,
            Message::Dead => None,
            Message::Empty => None,
        }
    }
}

/// The loops that a call of `Membership::start` asks the caller to launch.
#[derive(Clone, Copy, Debug, PartialEq, Eq, Structural)]
pub struct Launch {
    /// Run a probe round every `probe_interval`.
    pub probe_loop: bool,
    /// Poll the socket and pass each datagram to `handle_datagram`.
    pub receive_loop: bool,
}

/// A node of the cluster: the transport logic, the failure detector's state
/// and the node's life cycle. Both loops check `is_running` on every
/// iteration, so `stop` ends them.
pub struct Membership {
    started: bool,
    stopped: bool,
    gossip: Gossip,
    meta: MembershipMeta,
    /// Local incarnation number.
    inc: u32,
}

impl Membership {
    pub closed spec fn is_started(&self) -> bool {
        self.started
    }

    pub closed spec fn is_stopped(&self) -> bool {
        self.stopped
    }

    pub closed spec fn spec_meta(&self) -> MembershipMeta {
        self.meta
    }

    pub closed spec fn outbox(&self) -> Outbox {
        self.gossip@
    }

    pub closed spec fn incarnation(&self) -> u32 {
        self.inc
    }

    pub closed spec fn wf(&self) -> bool {
        self.meta.wf()
    }

    /// The node's state for `config`: not started, no members, sequence
    /// counter zero, nothing to send. Binding the socket is the caller's.
    pub fn bind(config: Config) -> (r: Membership)
        ensures
            r.wf(),
            !r.is_started(),
            !r.is_stopped(),
            r.incarnation() == 0,
            r.outbox() == Seq::<(Seq<u8>, SocketAddr)>::empty(),
            r.spec_meta().spec_config() == config,
            r.spec_meta().member_list() == Seq::<Member>::empty(),
            r.spec_meta().pending() == Set::<u32>::empty(),
            r.spec_meta().last_seq() == 0,
            r.spec_meta().cursor() == 0,
    {
        Membership {
            started: false,
            stopped: false,
            gossip: Gossip::new(),
            meta: MembershipMeta::new(config),
            inc: 0,
        }
    }

    /// Marks the node started. The first call asks for the receive loop,
    /// and for the probe loop unless `probe_interval` is zero; later calls
    /// ask for nothing.
    pub fn start(&mut self) -> (r: Launch)
        ensures
            r.receive_loop == !old(self).is_started(),
            r.probe_loop == (!old(self).is_started() && old(self).spec_meta().spec_config().probe_interval
                != 0),
            final(self).is_started(),
            final(self).is_stopped() == old(self).is_stopped(),
            final(self).spec_meta() == old(self).spec_meta(),
            final(self).outbox() == old(self).outbox(),
            final(self).incarnation() == old(self).incarnation(),
            final(self).wf() == old(self).wf(),
    {
        if self.started {
            return Launch { probe_loop: false, receive_loop: false };
        }
        self.started = true;
        Launch { probe_loop: self.meta.config.probe_interval != 0, receive_loop: true }
    }

    /// Joins the cluster through the seed `name` at `addr`: adds it as an
    /// alive member of incarnation zero and starts the node. A node already
    /// started is left as it is. Names are not checked for uniqueness.
    pub fn join(&mut self, name: String, addr: SocketAddr) -> (r: Launch)
        requires
            old(self).wf(),
        ensures
            final(self).wf(),
            final(self).is_started(),
            final(self).is_stopped() == old(self).is_stopped(),
            final(self).outbox() == old(self).outbox(),
            final(self).incarnation() == old(self).incarnation(),
            r.receive_loop == !old(self).is_started(),
            r.probe_loop == (!old(self).is_started() && old(self).spec_meta().spec_config().probe_interval
                != 0),
            final(self).spec_meta().spec_config() == old(self).spec_meta().spec_config(),
            final(self).spec_meta().pending() == old(self).spec_meta().pending(),
            final(self).spec_meta().last_seq() == old(self).spec_meta().last_seq(),
            final(self).spec_meta().cursor() == old(self).spec_meta().cursor(),
            final(self).spec_meta().member_list() == if old(self).is_started() {
                old(self).spec_meta().member_list()
            } else {
                old(self).spec_meta().member_list().push(
                    Member { name, addr, state: MemberState::Alive, inc: 0 },
                )
            },
    {
        if self.started {
            return Launch { probe_loop: false, receive_loop: false };
        }
        let member = Member { name, addr, state: MemberState::Alive, inc: 0 };
        self.meta.add_member(member);
        self.start()
    }

    /// Asks both loops to end.
    pub fn stop(&mut self)
        ensures
            final(self).is_stopped(),
            final(self).is_started() == old(self).is_started(),
            final(self).spec_meta() == old(self).spec_meta(),
            final(self).outbox() == old(self).outbox(),
            final(self).incarnation() == old(self).incarnation(),
            final(self).wf() == old(self).wf(),
    {
        self.stopped = true;
    }

    /// Whether the loops should go on: started and not stopped.
    pub fn is_running(&self) -> (r: bool)
        ensures
            r == (self.is_started() && !self.is_stopped()),
    {
        self.started && !self.stopped
    }

    /// The failure detector's state.
    pub fn meta(&self) -> (r: &MembershipMeta)
        ensures
            *r == self.spec_meta(),
    {
        &self.meta
    }

    /// One iteration of the probe loop (see `MembershipMeta::probe`).
    pub fn probe_tick(&mut self, draws: &[usize]) -> (r: Option<u32>)
        requires
            old(self).wf(),
        ensures
            final(self).wf(),
            probe_step(
                old(self).spec_meta(),
                old(self).outbox(),
                draws@,
                final(self).spec_meta(),
                final(self).outbox(),
                r,
            ),
            final(self).is_started() == old(self).is_started(),
            final(self).is_stopped() == old(self).is_stopped(),
            final(self).incarnation() == old(self).incarnation(),
    {
        self.meta.probe(&mut self.gossip, draws)
    }

    /// One iteration of the receive loop: decodes a datagram from `from`
    /// and acts on it (see `MembershipMeta::handle_message`). A datagram
    /// that does not decode is dropped.
    pub fn handle_datagram(&mut self, datagram: &[u8], from: SocketAddr) -> (r: Option<u32>)
        requires
            old(self).wf(),
        ensures
            final(self).wf(),
            match decode(datagram@) {
                Ok(m) => handle_step(
                    old(self).spec_meta(),
                    old(self).outbox(),
                    m,
                    from,
                    final(self).spec_meta(),
                    final(self).outbox(),
                    r,
                ),
                Err(_) => r is None && final(self).spec_meta() == old(self).spec_meta()
                    && final(self).outbox() == old(self).outbox(),
            },
            final(self).is_started() == old(self).is_started(),
            final(self).is_stopped() == old(self).is_stopped(),
            final(self).incarnation() == old(self).incarnation(),
    {
        match self.gossip.recv_from(datagram, from) {
            Ok((msg, from)) => self.meta.handle_message(&mut self.gossip, msg, from),
            Err(_) => None,
        }
    }

    /// Ends the wait for probe `seq` when its time is up; `true` means that
    /// it timed out, `false` that its ack came first.
    pub fn ack_timeout(&mut self, seq: u32) -> (r: bool)
        requires
            old(self).wf(),
        ensures
            final(self).wf(),
            (r, final(self).spec_meta().pending()) == resolve(old(self).spec_meta().pending(), seq),
            final(self).spec_meta().spec_config() == old(self).spec_meta().spec_config(),
            final(self).spec_meta().member_list() == old(self).spec_meta().member_list(),
            final(self).spec_meta().last_seq() == old(self).spec_meta().last_seq(),
            final(self).spec_meta().cursor() == old(self).spec_meta().cursor(),
            final(self).outbox() == old(self).outbox(),
            final(self).is_started() == old(self).is_started(),
            final(self).is_stopped() == old(self).is_stopped(),
    {
        self.meta.ack_timeout(seq)
    }

    /// Hands over the datagrams waiting to be sent, oldest first.
    pub fn take_outbox(&mut self) -> (r: Vec<Datagram>)
        ensures
            r@.map_values(|d: Datagram| d@) == old(self).outbox(),
            final(self).outbox() == Seq::<(Seq<u8>, SocketAddr)>::empty(),
            final(self).spec_meta() == old(self).spec_meta(),
            final(self).is_started() == old(self).is_started(),
            final(self).is_stopped() == old(self).is_stopped(),
            final(self).wf() == old(self).wf(),
    {
        self.gossip.take_outbox()
    }
}

} // verus!
