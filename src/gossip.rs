//! The transport logic: outgoing messages become datagrams in an outbox,
//! incoming datagrams become messages. The socket belongs to the caller,
//! which sends what `take_outbox` hands over and passes on what it receives.
use vstd::prelude::*;

use crate::addr::SocketAddr;
use crate::message::{decode, encode, DecodeError, Message, MessageView};

verus! {

/// The largest datagram sent or received, kept below the usual path MTU so
/// that no datagram is fragmented.
pub const UDP_MAX_SIZE: usize = 548;

/// A datagram waiting to be sent.
#[derive(Debug)]
pub struct Datagram {
    pub payload: Vec<u8>,
    pub to: SocketAddr,
}

impl View for Datagram {
    type V = (Seq<u8>, SocketAddr);

    open spec fn view(&self) -> (Seq<u8>, SocketAddr) {
        (self.payload@, self.to)
    }
}

/// What the outbox `q` holds after sending `m` to `to`: its encoding is
/// queued when there is one and it fits a datagram; otherwise the send is
/// dropped.
pub open spec fn after_send(q: Seq<(Seq<u8>, SocketAddr)>, m: MessageView, to: SocketAddr) -> Seq<
    (Seq<u8>, SocketAddr),
> {
    match encode(m) {
        Ok(b) => if b.len() <= UDP_MAX_SIZE {
            q.push((b, to))
        } else {
            q
        },
        Err(_) => q,
    }
}

/// Fire-and-forget message exchange over UDP.
pub struct Gossip {
    outbox: Vec<Datagram>,
}

impl View for Gossip {
    type V = Seq<(Seq<u8>, SocketAddr)>;

    /// The datagrams waiting to be sent, oldest first.
    closed spec fn view(&self) -> Seq<(Seq<u8>, SocketAddr)> {
        self.outbox@.map_values(|d: Datagram| d@)
    }
}

impl Gossip {
    /// A transport with nothing to send.
    pub fn new() -> (g: Gossip)
        ensures
            g@ == Seq::<(Seq<u8>, SocketAddr)>::empty(),
    {
        let g = Gossip { outbox: Vec::new() };
        assert(g@ =~= Seq::<(Seq<u8>, SocketAddr)>::empty());
        g
    }

    /// Decodes a datagram received from `from`.
    pub fn recv_from(&self, datagram: &[u8], from: SocketAddr) -> (r: Result<
        (Message, SocketAddr),
        DecodeError,
    >)
        ensures
            match decode(datagram@) {
                Ok(m) => r matches Ok((n, a)) && n@ == m && a == from,
                Err(e) => r matches Err(f) && f == e,
            },
    {
        match Message::read(datagram) {
            Ok(msg) => Ok((msg, from)),
            Err(e) => Err(e),
        }
    }

    /// Queues `Ping { seq, name }` for `to`.
    pub fn ping(&mut self, seq: u32, name: String, to: SocketAddr)
        ensures
            final(self)@ == after_send(old(self)@, MessageView::Ping { seq, name: name@ }, to),
    {
        let msg = Message::Ping { seq, name };
        let mut buf: Vec<u8> = Vec::new();
        match msg.write(&mut buf) {
            Ok(()) => {},
            Err(_) => {
                return ;
            },
        }
        assert(buf@ =~= Seq::<u8>::empty() + encode(msg@)->Ok_0);
        self.send_to(buf, to);
    }

    /// Queues `Ack { seq }` for `to`.
    pub fn ack(&mut self, seq: u32, to: SocketAddr)
        ensures
            final(self)@ == after_send(old(self)@, MessageView::Ack { seq }, to),
    {
        let msg = Message::Ack { seq };
        let mut buf: Vec<u8> = Vec::new();
        match msg.write(&mut buf) {
            Ok(()) => {},
            Err(_) => {
                return ;
            },
        }
        assert(buf@ =~= Seq::<u8>::empty() + encode(msg@)->Ok_0);
        self.send_to(buf, to);
    }

    /// Queues `buf` for `to` unless it is larger than a datagram.
    fn send_to(&mut self, buf: Vec<u8>, to: SocketAddr)
        ensures
            final(self)@ == if buf@.len() <= UDP_MAX_SIZE {
                old(self)@.push((buf@, to))
            } else {
                old(self)@
            },
    {
        if buf.len() > UDP_MAX_SIZE {
            return ;
        }
        let ghost before = self@;
        let d = Datagram { payload: buf, to };
        self.outbox.push(d);
        proof {
            assert(self@ =~= before.push((d.payload@, to)));
        }
    }

    /// Hands over the queued datagrams, oldest first, and empties the outbox.
    pub fn take_outbox(&mut self) -> (r: Vec<Datagram>)
        ensures
            r@.map_values(|d: Datagram| d@) == old(self)@,
            final(self)@ == Seq::<(Seq<u8>, SocketAddr)>::empty(),
    {
        let mut out: Vec<Datagram> = Vec::new();
        std::mem::swap(&mut self.outbox, &mut out);
        assert(self@ =~= Seq::<(Seq<u8>, SocketAddr)>::empty());
        out
    }
}

} // verus!
