//! The wire codec.
//!
//! A `Ping` is `[0][seq: 4 bytes big-endian][name length: 1 byte][name]`, an
//! `Ack` is `[2][seq: 4 bytes big-endian]`. The other variants have no
//! encoding; their reserved type bytes decode to `Message::Empty`.
use vstd::prelude::*;
use vstd::utf8::{decode_utf8, encode_utf8, valid_utf8};
use vstd::string::StringSliceAdditionalSpecFns;

use crate::addr::SocketAddr;

verus! {

broadcast use vstd::utf8::encode_utf8_valid_utf8, vstd::utf8::encode_utf8_decode_utf8;

/// The largest name, in bytes, that fits the one-byte length prefix.
pub const MAX_NAME_LEN: usize = 255;

/// The largest type byte that is reserved: it decodes to `Message::Empty`.
pub const MAX_RESERVED_TYPE: u8 = 5;

/// The leading type byte of an encoded message.
#[derive(Clone, Copy, Debug, PartialEq, Eq, Structural)]
pub enum MessageType {
    Ping,
    IndirectPing,
    Ack,
}

impl MessageType {
    pub open spec fn spec_tag(self) -> u8 {
        match self {
            MessageType::Ping => 0,
            MessageType::IndirectPing => 1,
            MessageType::Ack => 2,
        }
    }

    /// The byte that announces a message of this type.
    pub fn tag(self) -> (r: u8)
        ensures
            r == self.spec_tag(),
    {
        match self {
            MessageType::Ping => 0,
            MessageType::IndirectPing => 1,
            MessageType::Ack => 2,
        }
    }
}

/// A protocol message.
#[derive(Debug)]
pub enum Message {
    /// The name is that of the intended recipient, so that a node restarted
    /// under another name at the same address does not answer for the old one.
    Ping { seq: u32, name: String },
    IndirectPing { addr: SocketAddr, seq: u32, name: String },
    Ack { seq: u32 },
    Suspect,
    Alive,
    Dead,
    Empty,
}

/// The mathematical value of a `Message`: names as character sequences.
pub enum MessageView {
    Ping { seq: u32, name: Seq<char> },
    IndirectPing { addr: SocketAddr, seq: u32, name: Seq<char> },
    Ack { seq: u32 },
    Suspect,
    Alive,
    Dead,
    Empty,
}

impl View for Message {
    type V = MessageView;

    open spec fn view(&self) -> MessageView {
        match self {
            Message::Ping { seq, name } => MessageView::Ping { seq: *seq, name: name@ },
            Message::IndirectPing { addr, seq, name } => MessageView::IndirectPing {
                addr: *addr,
                seq: *seq,
                name: name@,
            },
            Message::Ack { seq } => MessageView::Ack { seq: *seq },
            Message::Suspect => MessageView::Suspect,
            Message::Alive => MessageView::Alive,
            Message::Dead => MessageView::Dead,
            Message::Empty => MessageView::Empty,
        }
    }
}

/// Why a message could not be encoded.
#[derive(Clone, Copy, Debug, PartialEq, Eq, Structural)]
pub enum EncodeError {
    /// The name takes more than `MAX_NAME_LEN` bytes.
    NameTooLong,
    /// The variant has no wire encoding.
    Unsupported,
}

/// Why a buffer could not be decoded.
#[derive(Clone, Copy, Debug, PartialEq, Eq, Structural)]
pub enum DecodeError {
    /// The leading type byte is neither defined nor reserved.
    UnknownType,
    /// The name bytes are not well-formed UTF-8.
    InvalidText,
    /// The buffer ends before the message does.
    Truncated,
}

/// The four big-endian bytes of `x`.
pub open spec fn be_bytes(x: u32) -> Seq<u8> {
    seq![(x >> 24u32) as u8, (x >> 16u32) as u8, (x >> 8u32) as u8, x as u8]
}

/// The `u32` whose big-endian bytes are the first four of `b`.
pub open spec fn be_u32(b: Seq<u8>) -> u32
    recommends
        b.len() >= 4,
{
    ((b[0] as u32) << 24u32) | ((b[1] as u32) << 16u32) | ((b[2] as u32) << 8u32) | (b[3] as u32)
}

/// A length-prefixed string: one length byte, then the UTF-8 bytes.
pub open spec fn encode_str(s: Seq<char>) -> Result<Seq<u8>, EncodeError> {
    let b = encode_utf8(s);
    if b.len() > MAX_NAME_LEN {
        Err(EncodeError::NameTooLong)
    } else {
        Ok(seq![b.len() as u8] + b)
    }
}

/// Reads a length-prefixed string from the front of `b`.
pub open spec fn decode_str(b: Seq<u8>) -> Result<Seq<char>, DecodeError> {
    if b.len() == 0 || b.len() < 1 + b[0] {
        Err(DecodeError::Truncated)
    } else if !valid_utf8(b.subrange(1, 1 + b[0])) {
        Err(DecodeError::InvalidText)
    } else {
        Ok(decode_utf8(b.subrange(1, 1 + b[0])))
    }
}

/// The bytes of a message, or why it has none.
pub open spec fn encode(m: MessageView) -> Result<Seq<u8>, EncodeError> {
    match m {
        MessageView::Ping { seq, name } => match encode_str(name) {
            Ok(s) => Ok(seq![MessageType::Ping.spec_tag()] + be_bytes(seq) + s),
            Err(e) => Err(e),
        },
        MessageView::Ack { seq } => Ok(seq![MessageType::Ack.spec_tag()] + be_bytes(seq)),
        _ => Err(EncodeError::Unsupported),
    }
}

/// The message at the front of `b`; bytes after it are ignored.
pub open spec fn decode(b: Seq<u8>) -> Result<MessageView, DecodeError> {
    if b.len() == 0 {
        Err(DecodeError::Truncated)
    } else if b[0] == MessageType::Ping.spec_tag() {
        if b.len() < 5 {
            Err(DecodeError::Truncated)
        } else {
            match decode_str(b.subrange(5, b.len() as int)) {
                Ok(name) => Ok(MessageView::Ping { seq: be_u32(b.subrange(1, 5)), name }),
                Err(e) => Err(e),
            }
        }
    } else if b[0] == MessageType::Ack.spec_tag() {
        if b.len() < 5 {
            Err(DecodeError::Truncated)
        } else {
            Ok(MessageView::Ack { seq: be_u32(b.subrange(1, 5)) })
        }
    } else if b[0] <= MAX_RESERVED_TYPE {
        Ok(MessageView::Empty)
    } else {
        Err(DecodeError::UnknownType)
    }
}

/// Reading back the big-endian bytes of `x` gives `x`.
pub proof fn lemma_be_round_trip(x: u32)
    ensures
        be_u32(be_bytes(x)) == x,
{
    let b0 = (x >> 24u32) as u8;
    let b1 = (x >> 16u32) as u8;
    let b2 = (x >> 8u32) as u8;
    let b3 = x as u8;
    assert(((b0 as u32) << 24u32) | ((b1 as u32) << 16u32) | ((b2 as u32) << 8u32) | (b3 as u32)
        == x) by (bit_vector)
        requires
            b0 == (x >> 24u32) as u8,
            b1 == (x >> 16u32) as u8,
            b2 == (x >> 8u32) as u8,
            b3 == x as u8,
    ;
}

/// Decoding the encoding of a `Ping` gives it back, for every sequence
/// number and every name of at most `MAX_NAME_LEN` bytes.
pub proof fn lemma_ping_round_trip(seq: u32, name: Seq<char>)
    requires
        encode_utf8(name).len() <= MAX_NAME_LEN,
    ensures
        encode(MessageView::Ping { seq, name }) is Ok,
        decode(encode(MessageView::Ping { seq, name })->Ok_0) == Ok::<MessageView, DecodeError>(
            MessageView::Ping { seq, name },
        ),
{
    let nb = encode_utf8(name);
    let b = encode(MessageView::Ping { seq, name })->Ok_0;
    assert(b =~= seq![0u8] + be_bytes(seq) + (seq![nb.len() as u8] + nb));
    assert(b.subrange(1, 5) =~= be_bytes(seq));
    lemma_be_round_trip(seq);
    let rest = b.subrange(5, b.len() as int);
    assert(rest =~= seq![nb.len() as u8] + nb);
    assert(rest.subrange(1, 1 + rest[0]) =~= nb);
}

/// Decoding the encoding of an `Ack` gives it back, for every sequence number.
pub proof fn lemma_ack_round_trip(seq: u32)
    ensures
        encode(MessageView::Ack { seq }) is Ok,
        decode(encode(MessageView::Ack { seq })->Ok_0) == Ok::<MessageView, DecodeError>(
            MessageView::Ack { seq },
        ),
{
    let b = encode(MessageView::Ack { seq })->Ok_0;
    assert(b.subrange(1, 5) =~= be_bytes(seq));
    lemma_be_round_trip(seq);
}

/// A `Ping` whose name takes more than `MAX_NAME_LEN` bytes has no encoding.
pub proof fn lemma_long_name_rejected(seq: u32, name: Seq<char>)
    requires
        encode_utf8(name).len() > MAX_NAME_LEN,
    ensures
        encode(MessageView::Ping { seq, name }) == Err::<Seq<u8>, EncodeError>(
            EncodeError::NameTooLong,
        ),
{
}

/// A buffer that starts with a type byte that is neither defined nor
/// reserved does not decode.
pub proof fn lemma_unknown_type_rejected(b: Seq<u8>)
    requires
        b.len() > 0,
        b[0] > MAX_RESERVED_TYPE,
    ensures
        decode(b) == Err::<MessageView, DecodeError>(DecodeError::UnknownType),
{
}

/// A `Ping` buffer that ends before the declared name does is truncated.
pub proof fn lemma_truncated_ping_rejected(b: Seq<u8>)
    requires
        b.len() > 0,
        b[0] == MessageType::Ping.spec_tag(),
        b.len() < 6 || b.len() < 6 + b[5],
    ensures
        decode(b) == Err::<MessageView, DecodeError>(DecodeError::Truncated),
{
    if b.len() >= 6 {
        assert(b.subrange(5, b.len() as int)[0] == b[5]);
    }
}

/// Relies on `String::from_utf8`: it accepts exactly the well-formed UTF-8
/// byte strings, and the string it returns holds the characters they encode.
#[verifier::external_body]
fn string_from_utf8(bytes: Vec<u8>) -> (r: Option<String>)
    ensures
        r is Some <==> valid_utf8(bytes@),
        r matches Some(s) ==> s@ == decode_utf8(bytes@),
{
    String::from_utf8(bytes).ok()
}

fn write_be_u32(buf: &mut Vec<u8>, x: u32)
    ensures
        final(buf)@ == old(buf)@ + be_bytes(x),
{
    buf.push((x >> 24u32) as u8);
    buf.push((x >> 16u32) as u8);
    buf.push((x >> 8u32) as u8);
    buf.push(x as u8);
    assert(final(buf)@ =~= old(buf)@ + be_bytes(x));
}

fn read_be_u32(buf: &[u8], pos: usize) -> (r: u32)
    requires
        pos + 4 <= buf@.len(),
    ensures
        r == be_u32(buf@.subrange(pos as int, pos + 4)),
{
    ((buf[pos] as u32) << 24u32) | ((buf[pos + 1] as u32) << 16u32) | ((buf[pos + 2] as u32)
        << 8u32) | (buf[pos + 3] as u32)
}

/// Appends `msg` with a one-byte length prefix; on failure `buf` is unchanged.
fn write_str(buf: &mut Vec<u8>, msg: &str) -> (r: Result<(), EncodeError>)
    ensures
        match encode_str(msg@) {
            Ok(b) => r is Ok && final(buf)@ == old(buf)@ + b,
            Err(e) => r == Err::<(), EncodeError>(e) && final(buf)@ == old(buf)@,
        },
{
    let bytes = msg.as_bytes();
    proof {
        assert(msg.spec_bytes() == encode_utf8(msg@));
    }
    if bytes.len() > MAX_NAME_LEN {
        return Err(EncodeError::NameTooLong);
    }
    let ghost start = buf@;
    buf.push(bytes.len() as u8);
    let mut i: usize = 0;
    while i < bytes.len()
        invariant
            bytes@ == encode_utf8(msg@),
            i <= bytes@.len(),
            buf@ == start + seq![bytes@.len() as u8] + bytes@.subrange(0, i as int),
        decreases bytes@.len() - i,
    {
        buf.push(bytes[i]);
        i += 1;
        assert(buf@ =~= start + seq![bytes@.len() as u8] + bytes@.subrange(0, i as int));
    }
    assert(bytes@.subrange(0, i as int) =~= bytes@);
    Ok(())
}

/// Reads a length-prefixed string starting at `pos`.
fn read_str(buf: &[u8], pos: usize) -> (r: Result<String, DecodeError>)
    requires
        pos <= buf@.len(),
    ensures
        match decode_str(buf@.subrange(pos as int, buf@.len() as int)) {
            Ok(s) => r matches Ok(t) && t@ == s,
            Err(e) => r matches Err(f) && f == e,
        },
{
    let ghost rest = buf@.subrange(pos as int, buf@.len() as int);
    if pos >= buf.len() {
        return Err(DecodeError::Truncated);
    }
    let len = buf[pos] as usize;
    assert(rest[0] == buf@[pos as int]);
    if buf.len() - pos - 1 < len {
        return Err(DecodeError::Truncated);
    }
    let mut bytes: Vec<u8> = Vec::new();
    let mut i: usize = 0;
    while i < len
        invariant
            pos + 1 + len <= buf.len(),
            i <= len,
            bytes@ == buf@.subrange(pos + 1, pos + 1 + i),
        decreases len - i,
    {
        bytes.push(buf[pos + 1 + i]);
        i += 1;
        assert(bytes@ =~= buf@.subrange(pos + 1, pos + 1 + i));
    }
    assert(bytes@ =~= rest.subrange(1, 1 + rest[0]));
    match string_from_utf8(bytes) {
        Some(s) => Ok(s),
        None => Err(DecodeError::InvalidText),
    }
}

impl Message {
    /// Appends the encoding of this message to `buf`. On failure nothing is
    /// written.
    pub fn write(&self, buf: &mut Vec<u8>) -> (r: Result<(), EncodeError>)
        ensures
            match encode(self@) {
                Ok(b) => r is Ok && final(buf)@ == old(buf)@ + b,
                Err(e) => r == Err::<(), EncodeError>(e) && final(buf)@ == old(buf)@,
            },
    {
        match self {
            Message::Ping { seq, name } => {
                let mut out: Vec<u8> = Vec::new();
                out.push(MessageType::Ping.tag());
                write_be_u32(&mut out, *seq);
                let ghost head = out@;
                match write_str(&mut out, name.as_str()) {
                    Ok(()) => {},
                    Err(e) => {
                        return Err(e);
                    },
                }
                proof {
                    let s = encode_str(name@);
                    assert(out@ =~= seq![MessageType::Ping.spec_tag()] + be_bytes(*seq) + s->Ok_0);
                }
                buf.append(&mut out);
                Ok(())
            },
            Message::Ack { seq } => {
                buf.push(MessageType::Ack.tag());
                write_be_u32(buf, *seq);
                assert(final(buf)@ =~= old(buf)@ + (seq![MessageType::Ack.spec_tag()] + be_bytes(*seq)));
                Ok(())
            },
            Message::IndirectPing { .. } => Err(EncodeError::Unsupported),
            Message::Suspect => Err(EncodeError::Unsupported),
            Message::Alive => Err(EncodeError::Unsupported),
            Message::Dead => Err(EncodeError::Unsupported),
            Message::Empty => Err(EncodeError::Unsupported),
        }
    }

    /// Reads the message at the front of `buf`.
    pub fn read(buf: &[u8]) -> (r: Result<Message, DecodeError>)
        ensures
            match decode(buf@) {
                Ok(m) => r matches Ok(n) && n@ == m,
                Err(e) => r matches Err(f) && f == e,
            },
    {
        if buf.len() == 0 {
            return Err(DecodeError::Truncated);
        }
        let tag = buf[0];
        if tag == MessageType::Ping.tag() {
            if buf.len() < 5 {
                return Err(DecodeError::Truncated);
            }
            let seq = read_be_u32(buf, 1);
            match read_str(buf, 5) {
                Ok(name) => Ok(Message::Ping { seq, name }),
                Err(e) => Err(e),
            }
        } else if tag == MessageType::Ack.tag() {
            if buf.len() < 5 {
                return Err(DecodeError::Truncated);
            }
            let seq = read_be_u32(buf, 1);
            Ok(Message::Ack { seq })
        } else if tag <= MAX_RESERVED_TYPE {
            Ok(Message::Empty)
        } else {
            Err(DecodeError::UnknownType)
        }
    }
}

} // verus!
