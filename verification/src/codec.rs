//! The wire codec.
//!
//! Frame format, bit-exact:
//!
//! ```text
//! [version: 1 byte][length: 4 bytes, big-endian][payload: length bytes]
//! ```
//!
//! The payload is a compact binary serialization of one message: a one-byte
//! variant tag followed by the variant's fields. A string field is its UTF-8
//! bytes behind a 4-byte big-endian byte count; integers are big-endian.
//! The whole grammar is written down as spec functions ([`client_payload`],
//! [`parse_client_payload`], and their server-side counterparts), the
//! executable encoder and decoder are verified against them, and the
//! round-trip laws are proved below them.

use vstd::prelude::*;

use crate::constants::{MAX_FRAME_SIZE, PROTOCOL_VERSION};
use crate::error::ProtocolError;
use crate::message::{names_view, ClientMessage, ClientMessageView, ServerMessage, ServerMessageView};
use crate::text::string_from_utf8;
use vstd::slice::{slice_subrange, slice_to_vec};
use vstd::utf8::{decode_utf8, encode_utf8, valid_utf8};

verus! {

broadcast use vstd::utf8::encode_utf8_valid_utf8, vstd::utf8::encode_utf8_decode_utf8;

/// The four bytes of `n` in big-endian order.
pub open spec fn be32(n: u32) -> Seq<u8> {
    seq![(n >> 24) as u8, (n >> 16) as u8, (n >> 8) as u8, n as u8]
}

/// The value read big-endian from the first four bytes of `b`.
pub open spec fn be32_val(b: Seq<u8>) -> u32
    recommends
        b.len() >= 4,
{
    (((b[0] as u32) << 24) | ((b[1] as u32) << 16) | ((b[2] as u32) << 8) | (b[3] as u32))
}

/// The eight bytes of `n` in big-endian order.
pub open spec fn be64(n: u64) -> Seq<u8> {
    seq![
        (n >> 56) as u8,
        (n >> 48) as u8,
        (n >> 40) as u8,
        (n >> 32) as u8,
        (n >> 24) as u8,
        (n >> 16) as u8,
        (n >> 8) as u8,
        n as u8,
    ]
}

/// The value read big-endian from the first eight bytes of `b`.
pub open spec fn be64_val(b: Seq<u8>) -> u64
    recommends
        b.len() >= 8,
{
    (((b[0] as u64) << 56) | ((b[1] as u64) << 48) | ((b[2] as u64) << 40) | ((b[3] as u64) << 32)
        | ((b[4] as u64) << 24) | ((b[5] as u64) << 16) | ((b[6] as u64) << 8) | (b[7] as u64))
}

/// Reading back the big-endian bytes of a 32-bit value gives the value.
pub proof fn lemma_be32_roundtrip(n: u32)
    ensures
        be32_val(be32(n)) == n,
{
    let b0 = (n >> 24) as u8;
    let b1 = (n >> 16) as u8;
    let b2 = (n >> 8) as u8;
    let b3 = n as u8;
    assert((((b0 as u32) << 24) | ((b1 as u32) << 16) | ((b2 as u32) << 8) | (b3 as u32)) == n)
        by (bit_vector)
        requires
            b0 == (n >> 24) as u8 && b1 == (n >> 16) as u8 && b2 == (n >> 8) as u8 && b3 == n as u8,
    ;
}

/// Reading back the big-endian bytes of a 64-bit value gives the value.
pub proof fn lemma_be64_roundtrip(n: u64)
    ensures
        be64_val(be64(n)) == n,
{
    let b0 = (n >> 56) as u8;
    let b1 = (n >> 48) as u8;
    let b2 = (n >> 40) as u8;
    let b3 = (n >> 32) as u8;
    let b4 = (n >> 24) as u8;
    let b5 = (n >> 16) as u8;
    let b6 = (n >> 8) as u8;
    let b7 = n as u8;
    assert((((b0 as u64) << 56) | ((b1 as u64) << 48) | ((b2 as u64) << 40) | ((b3 as u64) << 32)
        | ((b4 as u64) << 24) | ((b5 as u64) << 16) | ((b6 as u64) << 8) | (b7 as u64)) == n)
        by (bit_vector)
        requires
            b0 == (n >> 56) as u8 && b1 == (n >> 48) as u8 && b2 == (n >> 40) as u8 && b3 == (n
                >> 32) as u8 && b4 == (n >> 24) as u8 && b5 == (n >> 16) as u8 && b6 == (n
                >> 8) as u8 && b7 == n as u8,
    ;
}

/// Appends the big-endian bytes of `n`.
fn push_be32(out: &mut Vec<u8>, n: u32)
    ensures
        final(out)@ == old(out)@ + be32(n),
{
    out.push((n >> 24) as u8);
    out.push((n >> 16) as u8);
    out.push((n >> 8) as u8);
    out.push(n as u8);
    assert(out@ =~= old(out)@ + be32(n));
}

/// Appends the big-endian bytes of `n`.
fn push_be64(out: &mut Vec<u8>, n: u64)
    ensures
        final(out)@ == old(out)@ + be64(n),
{
    out.push((n >> 56) as u8);
    out.push((n >> 48) as u8);
    out.push((n >> 40) as u8);
    out.push((n >> 32) as u8);
    out.push((n >> 24) as u8);
    out.push((n >> 16) as u8);
    out.push((n >> 8) as u8);
    out.push(n as u8);
    assert(out@ =~= old(out)@ + be64(n));
}

/// Reads the big-endian 32-bit value at `pos`.
fn read_be32(b: &[u8], pos: usize) -> (r: u32)
    requires
        pos + 4 <= b@.len(),
    ensures
        r == be32_val(b@.skip(pos as int)),
{
    let r = ((b[pos] as u32) << 24) | ((b[pos + 1] as u32) << 16) | ((b[pos + 2] as u32) << 8) | (
    b[pos + 3] as u32);
    proof {
        let s = b@.skip(pos as int);
        assert(s[0] == b@[pos as int] && s[1] == b@[pos as int + 1] && s[2] == b@[pos as int + 2]
            && s[3] == b@[pos as int + 3]);
    }
    r
}

/// Reads the big-endian 64-bit value at `pos`.
fn read_be64(b: &[u8], pos: usize) -> (r: u64)
    requires
        pos + 8 <= b@.len(),
    ensures
        r == be64_val(b@.skip(pos as int)),
{
    let r = ((b[pos] as u64) << 56) | ((b[pos + 1] as u64) << 48) | ((b[pos + 2] as u64) << 40) | ((
    b[pos + 3] as u64) << 32) | ((b[pos + 4] as u64) << 24) | ((b[pos + 5] as u64) << 16) | ((b[pos
        + 6] as u64) << 8) | (b[pos + 7] as u64);
    proof {
        let s = b@.skip(pos as int);
        assert(s[0] == b@[pos as int] && s[1] == b@[pos as int + 1] && s[2] == b@[pos as int + 2]
            && s[3] == b@[pos as int + 3] && s[4] == b@[pos as int + 4] && s[5] == b@[pos as int
            + 5] && s[6] == b@[pos as int + 6] && s[7] == b@[pos as int + 7]);
    }
    r
}

/// A string field on the wire: the UTF-8 bytes of `s` behind their big-endian
/// byte count.
pub open spec fn str_enc(s: Seq<char>) -> Seq<u8> {
    be32(encode_utf8(s).len() as u32) + encode_utf8(s)
}

/// The byte count of a string field fits its 4-byte length prefix.
pub open spec fn str_fits(s: Seq<char>) -> bool {
    encode_utf8(s).len() <= u32::MAX
}

/// Parses a string field at the front of `b`: the decoded characters and the
/// bytes that follow the field, or nothing when `b` does not start with a
/// well-formed field.
pub open spec fn parse_str(b: Seq<u8>) -> Option<(Seq<char>, Seq<u8>)> {
    if b.len() < 4 {
        None
    } else {
        let n = be32_val(b) as int;
        if b.len() - 4 < n {
            None
        } else {
            let seg = b.subrange(4, 4 + n);
            if valid_utf8(seg) {
                Some((decode_utf8(seg), b.skip(4 + n)))
            } else {
                None
            }
        }
    }
}

/// The big-endian bytes of a value read big-endian are the bytes read.
proof fn lemma_be32_canonical(b0: u8, b1: u8, b2: u8, b3: u8)
    ensures
        be32(be32_val(seq![b0, b1, b2, b3])) == seq![b0, b1, b2, b3],
{
    let n = be32_val(seq![b0, b1, b2, b3]);
    assert((n >> 24) as u8 == b0 && (n >> 16) as u8 == b1 && (n >> 8) as u8 == b2 && n as u8 == b3)
        by (bit_vector)
        requires
            n == (((b0 as u32) << 24) | ((b1 as u32) << 16) | ((b2 as u32) << 8) | (b3 as u32)),
    ;
    assert(be32(n) =~= seq![b0, b1, b2, b3]);
}

/// A parsed string field sits in the bytes as exactly the field its string
/// builds: the grammar of string fields is canonical.
proof fn lemma_parse_str_canonical(b: Seq<u8>, s: Seq<char>, rest: Seq<u8>)
    requires
        parse_str(b) == Some((s, rest)),
    ensures
        str_fits(s),
        b == str_enc(s) + rest,
{
    let n = be32_val(b) as int;
    let seg = b.subrange(4, 4 + n);
    broadcast use vstd::utf8::decode_utf8_encode_utf8;

    assert(encode_utf8(s) == seg);
    assert(seq![b[0], b[1], b[2], b[3]] =~= b.subrange(0, 4));
    lemma_be32_canonical(b[0], b[1], b[2], b[3]);
    assert(be32_val(seq![b[0], b[1], b[2], b[3]]) == be32_val(b));
    assert(b =~= str_enc(s) + rest);
}

/// A string field parses back to the characters it was built from, leaving
/// exactly the bytes that followed it.
pub proof fn lemma_parse_str_enc(s: Seq<char>, rest: Seq<u8>)
    requires
        str_fits(s),
    ensures
        parse_str(str_enc(s) + rest) == Some((s, rest)),
{
    let e = encode_utf8(s);
    let b = str_enc(s) + rest;
    let n = e.len() as u32;
    assert(b.len() == 4 + e.len() + rest.len());
    assert(b.subrange(0, 4) =~= be32(n));
    lemma_be32_roundtrip(n);
    assert(be32_val(b) == be32_val(b.subrange(0, 4))) by {
        let p = b.subrange(0, 4);
        assert(b[0] == p[0] && b[1] == p[1] && b[2] == p[2] && b[3] == p[3]);
    }
    assert(b.subrange(4, 4 + e.len() as int) =~= e);
    assert(decode_utf8(e) == s);
    assert(b.skip(4 + e.len() as int) =~= rest);
}

/// Appends a string field for `s`.
fn push_str(out: &mut Vec<u8>, s: &str)
    requires
        encode_utf8(s@).len() <= u32::MAX,
    ensures
        final(out)@ == old(out)@ + str_enc(s@),
{
    let bytes = s.as_bytes();
    push_be32(out, bytes.len() as u32);
    out.extend_from_slice(bytes);
    assert(out@ =~= old(out)@ + str_enc(s@));
}

/// Reads a string field at `pos`; on success returns the string and the
/// position just past the field.
///
/// Succeeds exactly when the spec-level [`parse_str`] succeeds on the bytes
/// from `pos`, and returns its result.
fn read_str(b: &[u8], pos: usize) -> (r: Option<(String, usize)>)
    requires
        pos <= b@.len(),
    ensures
        match r {
            Some((s, newpos)) => {
                &&& pos <= newpos <= b@.len()
                &&& parse_str(b@.skip(pos as int)) == Some((s@, b@.skip(newpos as int)))
            },
            None => parse_str(b@.skip(pos as int)) is None,
        },
{
    let ghost tail = b@.skip(pos as int);
    if b.len() - pos < 4 {
        return None;
    }
    let n = read_be32(b, pos);
    assert(be32_val(tail) == n);
    if (b.len() - pos - 4) < (n as usize) {
        return None;
    }
    let start = pos + 4;
    let end = start + (n as usize);
    let seg: Vec<u8> = slice_to_vec(slice_subrange(b, start, end));
    proof {
        assert(b@.subrange(start as int, end as int) =~= tail.subrange(4, 4 + n as int));
    }
    match string_from_utf8(seg) {
        Some(s) => {
            proof {
                assert(tail.skip(4 + n as int) =~= b@.skip(end as int));
            }
            Some((s, end))
        },
        None => None,
    }
}

/// Variant tag of a `Join` payload.
pub const TAG_JOIN: u8 = 0;

/// Variant tag of a `Chat` payload.
pub const TAG_CHAT: u8 = 1;

/// Variant tag of a `Leave` payload.
pub const TAG_LEAVE: u8 = 2;

/// Variant tag of a `Ping` payload.
pub const TAG_PING: u8 = 3;

/// The payload bytes of a client message: its variant tag, then its fields.
pub open spec fn client_payload(m: ClientMessageView) -> Seq<u8> {
    match m {
        ClientMessageView::Join { username } => seq![TAG_JOIN] + str_enc(username),
        ClientMessageView::Chat { content } => seq![TAG_CHAT] + str_enc(content),
        ClientMessageView::Leave => seq![TAG_LEAVE],
        ClientMessageView::Ping => seq![TAG_PING],
    }
}

/// Every string field of the message fits its 4-byte length prefix.
pub open spec fn client_msg_fits(m: ClientMessageView) -> bool {
    match m {
        ClientMessageView::Join { username } => str_fits(username),
        ClientMessageView::Chat { content } => str_fits(content),
        ClientMessageView::Leave => true,
        ClientMessageView::Ping => true,
    }
}

/// Parses payload bytes into the client message they spell, or nothing when
/// they spell none.
pub open spec fn parse_client_payload(b: Seq<u8>) -> Option<ClientMessageView> {
    if b.len() < 1 {
        None
    } else if b[0] == TAG_JOIN {
        match parse_str(b.drop_first()) {
            Some((s, rest)) => if rest.len() == 0 {
                Some(ClientMessageView::Join { username: s })
            } else {
                None
            },
            None => None,
        }
    } else if b[0] == TAG_CHAT {
        match parse_str(b.drop_first()) {
            Some((s, rest)) => if rest.len() == 0 {
                Some(ClientMessageView::Chat { content: s })
            } else {
                None
            },
            None => None,
        }
    } else if b[0] == TAG_LEAVE {
        if b.len() == 1 {
            Some(ClientMessageView::Leave)
        } else {
            None
        }
    } else if b[0] == TAG_PING {
        if b.len() == 1 {
            Some(ClientMessageView::Ping)
        } else {
            None
        }
    } else {
        None
    }
}

/// Round trip: the payload built from a client message parses back to that
/// message, for every message whose string fields fit the length prefix.
pub proof fn lemma_client_payload_roundtrip(m: ClientMessageView)
    requires
        client_msg_fits(m),
    ensures
        parse_client_payload(client_payload(m)) == Some(m),
{
    let b = client_payload(m);
    match m {
        ClientMessageView::Join { username } => {
            lemma_parse_str_enc(username, Seq::empty());
            assert(str_enc(username) + Seq::<u8>::empty() =~= str_enc(username));
            assert(b.drop_first() =~= str_enc(username));
        },
        ClientMessageView::Chat { content } => {
            lemma_parse_str_enc(content, Seq::empty());
            assert(str_enc(content) + Seq::<u8>::empty() =~= str_enc(content));
            assert(b.drop_first() =~= str_enc(content));
        },
        ClientMessageView::Leave => {
        },
        ClientMessageView::Ping => {
        },
    }
}

/// The client payload grammar is canonical: a payload that spells a message
/// is exactly that message's encoding.
pub proof fn lemma_parse_client_payload_canonical(b: Seq<u8>, m: ClientMessageView)
    requires
        parse_client_payload(b) == Some(m),
    ensures
        client_msg_fits(m),
        b == client_payload(m),
{
    if b[0] == TAG_JOIN || b[0] == TAG_CHAT {
        match parse_str(b.drop_first()) {
            Some((u, rest)) => {
                lemma_parse_str_canonical(b.drop_first(), u, rest);
                assert(rest.len() == 0);
                assert(str_enc(u) + rest =~= str_enc(u));
                assert(b =~= seq![b[0]] + b.drop_first());
            },
            None => {
                assert(false);
            },
        }
    } else {
        assert(b =~= seq![b[0]]);
    }
}

/// A payload spells at most one client message: the parse of the payload of
/// `m` never yields a different message.
pub proof fn lemma_client_payload_unambiguous(m1: ClientMessageView, m2: ClientMessageView)
    requires
        client_msg_fits(m1),
        client_msg_fits(m2),
        client_payload(m1) == client_payload(m2),
    ensures
        m1 == m2,
{
    lemma_client_payload_roundtrip(m1);
    lemma_client_payload_roundtrip(m2);
}

/// Serializes a client message into payload bytes.
///
/// Succeeds exactly when the payload would not exceed [`MAX_FRAME_SIZE`];
/// an oversized message is rejected before anything is built, with the
/// payload size it would have had.
pub fn encode_client_payload(m: &ClientMessage) -> (r: Result<Vec<u8>, ProtocolError>)
    ensures
        match r {
            Ok(v) => v@ == client_payload(m@) && v@.len() <= MAX_FRAME_SIZE,
            Err(e) => {
                &&& client_payload(m@).len() > MAX_FRAME_SIZE
                &&& e == (ProtocolError::FrameTooLarge {
                    size: (client_payload(m@).len() - 5) as usize,
                    max: MAX_FRAME_SIZE,
                })
            },
        },
{
    let mut out: Vec<u8> = Vec::new();
    match m {
        ClientMessage::Join { username } => {
            let s = username.as_str();
            let nbytes = s.as_bytes().len();
            if nbytes > MAX_FRAME_SIZE - 5 {
                return Err(ProtocolError::FrameTooLarge { size: nbytes, max: MAX_FRAME_SIZE });
            }
            out.push(TAG_JOIN);
            push_str(&mut out, s);
            assert(out@ =~= client_payload(m@));
        },
        ClientMessage::Chat { content } => {
            let s = content.as_str();
            let nbytes = s.as_bytes().len();
            if nbytes > MAX_FRAME_SIZE - 5 {
                return Err(ProtocolError::FrameTooLarge { size: nbytes, max: MAX_FRAME_SIZE });
            }
            out.push(TAG_CHAT);
            push_str(&mut out, s);
            assert(out@ =~= client_payload(m@));
        },
        ClientMessage::Leave => {
            out.push(TAG_LEAVE);
            assert(out@ =~= client_payload(m@));
        },
        ClientMessage::Ping => {
            out.push(TAG_PING);
            assert(out@ =~= client_payload(m@));
        },
    }
    Ok(out)
}

/// Deserializes payload bytes into the client message they spell.
///
/// Returns the unique message whose payload is `b`, and a serialization
/// error exactly when no message has payload `b`.
pub fn decode_client_payload(b: &[u8]) -> (r: Result<ClientMessage, ProtocolError>)
    ensures
        match r {
            Ok(m) => parse_client_payload(b@) == Some(m@),
            Err(e) => parse_client_payload(b@) is None && e == ProtocolError::Serialization,
        },
{
    if b.len() < 1 {
        return Err(ProtocolError::Serialization);
    }
    let tag = b[0];
    proof {
        assert(b@.skip(1) =~= b@.drop_first());
    }
    if tag == TAG_JOIN {
        match read_str(b, 1) {
            Some((s, newpos)) => {
                if newpos == b.len() {
                    Ok(ClientMessage::Join { username: s })
                } else {
                    Err(ProtocolError::Serialization)
                }
            },
            None => Err(ProtocolError::Serialization),
        }
    } else if tag == TAG_CHAT {
        match read_str(b, 1) {
            Some((s, newpos)) => {
                if newpos == b.len() {
                    Ok(ClientMessage::Chat { content: s })
                } else {
                    Err(ProtocolError::Serialization)
                }
            },
            None => Err(ProtocolError::Serialization),
        }
    } else if tag == TAG_LEAVE {
        if b.len() == 1 {
            Ok(ClientMessage::Leave)
        } else {
            Err(ProtocolError::Serialization)
        }
    } else if tag == TAG_PING {
        if b.len() == 1 {
            Ok(ClientMessage::Ping)
        } else {
            Err(ProtocolError::Serialization)
        }
    } else {
        Err(ProtocolError::Serialization)
    }
}

/// Variant tag of a `Welcome` payload.
pub const TAG_WELCOME: u8 = 0;

/// Variant tag of a `UserJoined` payload.
pub const TAG_USER_JOINED: u8 = 1;

/// Variant tag of a `UserLeft` payload.
pub const TAG_USER_LEFT: u8 = 2;

/// Variant tag of a `ChatBroadcast` payload.
pub const TAG_CHAT_BROADCAST: u8 = 3;

/// Variant tag of an `Error` payload.
pub const TAG_ERROR: u8 = 4;

/// Variant tag of a `Pong` payload.
pub const TAG_PONG: u8 = 5;

/// Variant tag of a `Shutdown` payload.
pub const TAG_SHUTDOWN: u8 = 6;

/// A list of string fields on the wire: the fields one after another.
pub open spec fn str_list_enc(l: Seq<Seq<char>>) -> Seq<u8>
    decreases l.len(),
{
    if l.len() == 0 {
        Seq::empty()
    } else {
        str_enc(l[0]) + str_list_enc(l.drop_first())
    }
}

/// Appending one string to a list appends its field bytes.
pub proof fn lemma_str_list_enc_push(l: Seq<Seq<char>>, s: Seq<char>)
    ensures
        str_list_enc(l.push(s)) == str_list_enc(l) + str_enc(s),
    decreases l.len(),
{
    if l.len() == 0 {
        assert(l.push(s)[0] == s);
        assert(l.push(s).drop_first() =~= Seq::<Seq<char>>::empty());
        assert(str_list_enc(Seq::<Seq<char>>::empty()) == Seq::<u8>::empty());
        assert(str_list_enc(l.push(s)) == str_enc(s) + Seq::<u8>::empty());
        assert(str_enc(s) + Seq::<u8>::empty() =~= Seq::<u8>::empty() + str_enc(s));
    } else {
        assert(l.push(s)[0] == l[0]);
        assert(l.push(s).drop_first() =~= l.drop_first().push(s));
        lemma_str_list_enc_push(l.drop_first(), s);
        assert(str_list_enc(l.push(s)) == str_enc(l[0]) + str_list_enc(l.drop_first().push(s)));
        assert(str_list_enc(l.push(s)) == str_enc(l[0]) + (str_list_enc(l.drop_first()) + str_enc(
            s,
        )));
        assert(str_enc(l[0]) + (str_list_enc(l.drop_first()) + str_enc(s)) =~= (str_enc(l[0])
            + str_list_enc(l.drop_first())) + str_enc(s));
        assert(str_list_enc(l) == str_enc(l[0]) + str_list_enc(l.drop_first()));
    }
}

/// A list's field bytes are at least four per string (each length prefix).
proof fn lemma_str_list_enc_len(l: Seq<Seq<char>>)
    ensures
        str_list_enc(l).len() >= 4 * l.len(),
    decreases l.len(),
{
    if l.len() > 0 {
        lemma_str_list_enc_len(l.drop_first());
    }
}

/// A list's field bytes are at least as long as any one member's field.
proof fn lemma_str_list_enc_elem(l: Seq<Seq<char>>, i: int)
    requires
        0 <= i < l.len(),
    ensures
        str_list_enc(l).len() >= str_enc(l[i]).len(),
    decreases i,
{
    if i > 0 {
        lemma_str_list_enc_elem(l.drop_first(), i - 1);
    }
}

/// Parses `n` consecutive string fields at the front of `b`.
pub open spec fn parse_str_list(b: Seq<u8>, n: nat) -> Option<(Seq<Seq<char>>, Seq<u8>)>
    decreases n,
{
    if n == 0 {
        Some((Seq::empty(), b))
    } else {
        match parse_str(b) {
            Some((s, rest)) => match parse_str_list(rest, (n - 1) as nat) {
                Some((l, rest2)) => Some((seq![s] + l, rest2)),
                None => None,
            },
            None => None,
        }
    }
}

/// A list of string fields parses back to the strings it was built from.
pub proof fn lemma_parse_str_list_enc(l: Seq<Seq<char>>, rest: Seq<u8>)
    requires
        forall|i: int| 0 <= i < l.len() ==> str_fits(#[trigger] l[i]),
    ensures
        parse_str_list(str_list_enc(l) + rest, l.len()) == Some((l, rest)),
    decreases l.len(),
{
    if l.len() == 0 {
        assert(str_list_enc(l) + rest =~= rest);
    } else {
        let s0 = l[0];
        let tail = l.drop_first();
        assert(str_list_enc(l) + rest =~= str_enc(s0) + (str_list_enc(tail) + rest));
        lemma_parse_str_enc(s0, str_list_enc(tail) + rest);
        assert(forall|i: int| 0 <= i < tail.len() ==> str_fits(#[trigger] tail[i]));
        lemma_parse_str_list_enc(tail, rest);
        assert(seq![s0] + tail =~= l);
    }
}

/// The payload bytes of a server message: its variant tag, then its fields.
pub open spec fn server_payload(m: ServerMessageView) -> Seq<u8> {
    match m {
        ServerMessageView::Welcome { user_id, online_users } => seq![TAG_WELCOME] + be32(user_id)
            + be32(online_users.len() as u32) + str_list_enc(online_users),
        ServerMessageView::UserJoined { username } => seq![TAG_USER_JOINED] + str_enc(username),
        ServerMessageView::UserLeft { username } => seq![TAG_USER_LEFT] + str_enc(username),
        ServerMessageView::ChatBroadcast { username, content, timestamp } => seq![
            TAG_CHAT_BROADCAST,
        ] + str_enc(username) + str_enc(content) + be64(timestamp),
        ServerMessageView::Error { message } => seq![TAG_ERROR] + str_enc(message),
        ServerMessageView::Pong => seq![TAG_PONG],
        ServerMessageView::Shutdown { message } => seq![TAG_SHUTDOWN] + str_enc(message),
    }
}

/// Every string field of the message fits its length prefix, and the
/// `Welcome` list fits its count prefix.
pub open spec fn server_msg_fits(m: ServerMessageView) -> bool {
    match m {
        ServerMessageView::Welcome { user_id, online_users } => {
            &&& online_users.len() <= u32::MAX
            &&& forall|i: int| 0 <= i < online_users.len() ==> str_fits(#[trigger] online_users[i])
        },
        ServerMessageView::UserJoined { username } => str_fits(username),
        ServerMessageView::UserLeft { username } => str_fits(username),
        ServerMessageView::ChatBroadcast { username, content, timestamp } => str_fits(username)
            && str_fits(content),
        ServerMessageView::Error { message } => str_fits(message),
        ServerMessageView::Pong => true,
        ServerMessageView::Shutdown { message } => str_fits(message),
    }
}

/// Parses payload bytes into the server message they spell, or nothing when
/// they spell none.
pub open spec fn parse_server_payload(b: Seq<u8>) -> Option<ServerMessageView> {
    if b.len() < 1 {
        None
    } else {
        let r0 = b.drop_first();
        if b[0] == TAG_WELCOME {
            if r0.len() < 8 {
                None
            } else {
                let user_id = be32_val(r0);
                let count = be32_val(r0.skip(4));
                match parse_str_list(r0.skip(8), count as nat) {
                    Some((l, rest)) => if rest.len() == 0 {
                        Some(ServerMessageView::Welcome { user_id, online_users: l })
                    } else {
                        None
                    },
                    None => None,
                }
            }
        } else if b[0] == TAG_USER_JOINED {
            match parse_str(r0) {
                Some((s, rest)) => if rest.len() == 0 {
                    Some(ServerMessageView::UserJoined { username: s })
                } else {
                    None
                },
                None => None,
            }
        } else if b[0] == TAG_USER_LEFT {
            match parse_str(r0) {
                Some((s, rest)) => if rest.len() == 0 {
                    Some(ServerMessageView::UserLeft { username: s })
                } else {
                    None
                },
                None => None,
            }
        } else if b[0] == TAG_CHAT_BROADCAST {
            match parse_str(r0) {
                Some((u, r1)) => match parse_str(r1) {
                    Some((c, r2)) => if r2.len() == 8 {
                        Some(ServerMessageView::ChatBroadcast {
                            username: u,
                            content: c,
                            timestamp: be64_val(r2),
                        })
                    } else {
                        None
                    },
                    None => None,
                },
                None => None,
            }
        } else if b[0] == TAG_ERROR {
            match parse_str(r0) {
                Some((s, rest)) => if rest.len() == 0 {
                    Some(ServerMessageView::Error { message: s })
                } else {
                    None
                },
                None => None,
            }
        } else if b[0] == TAG_PONG {
            if b.len() == 1 {
                Some(ServerMessageView::Pong)
            } else {
                None
            }
        } else if b[0] == TAG_SHUTDOWN {
            match parse_str(r0) {
                Some((s, rest)) => if rest.len() == 0 {
                    Some(ServerMessageView::Shutdown { message: s })
                } else {
                    None
                },
                None => None,
            }
        } else {
            None
        }
    }
}

/// Round trip: the payload built from a server message parses back to that
/// message, for every message whose fields fit their prefixes.
#[verifier::rlimit(60)]
#[verifier::spinoff_prover]
pub proof fn lemma_server_payload_roundtrip(m: ServerMessageView)
    requires
        server_msg_fits(m),
    ensures
        parse_server_payload(server_payload(m)) == Some(m),
{
    let b = server_payload(m);
    match m {
        ServerMessageView::Welcome { user_id, online_users } => {
            let r0 = b.drop_first();
            let count = online_users.len() as u32;
            assert(r0 =~= be32(user_id) + be32(count) + str_list_enc(online_users));
            assert(r0.subrange(0, 4) =~= be32(user_id));
            assert(be32_val(r0) == be32_val(r0.subrange(0, 4))) by {
                let p = r0.subrange(0, 4);
                assert(r0[0] == p[0] && r0[1] == p[1] && r0[2] == p[2] && r0[3] == p[3]);
            }
            lemma_be32_roundtrip(user_id);
            let r4 = r0.skip(4);
            assert(r4.subrange(0, 4) =~= be32(count));
            assert(be32_val(r4) == be32_val(r4.subrange(0, 4))) by {
                let p = r4.subrange(0, 4);
                assert(r4[0] == p[0] && r4[1] == p[1] && r4[2] == p[2] && r4[3] == p[3]);
            }
            lemma_be32_roundtrip(count);
            assert(count as nat == online_users.len());
            lemma_parse_str_list_enc(online_users, Seq::empty());
            assert(str_list_enc(online_users) + Seq::<u8>::empty() =~= str_list_enc(online_users));
            assert(r0.skip(8) =~= str_list_enc(online_users));
        },
        ServerMessageView::UserJoined { username } => {
            lemma_parse_str_enc(username, Seq::empty());
            assert(str_enc(username) + Seq::<u8>::empty() =~= str_enc(username));
            assert(b.drop_first() =~= str_enc(username));
        },
        ServerMessageView::UserLeft { username } => {
            lemma_parse_str_enc(username, Seq::empty());
            assert(str_enc(username) + Seq::<u8>::empty() =~= str_enc(username));
            assert(b.drop_first() =~= str_enc(username));
        },
        ServerMessageView::ChatBroadcast { username, content, timestamp } => {
            assert(b.drop_first() =~= str_enc(username) + (str_enc(content) + be64(timestamp)));
            lemma_parse_str_enc(username, str_enc(content) + be64(timestamp));
            lemma_parse_str_enc(content, be64(timestamp));
            lemma_be64_roundtrip(timestamp);
        },
        ServerMessageView::Error { message } => {
            lemma_parse_str_enc(message, Seq::empty());
            assert(str_enc(message) + Seq::<u8>::empty() =~= str_enc(message));
            assert(b.drop_first() =~= str_enc(message));
        },
        ServerMessageView::Pong => {
        },
        ServerMessageView::Shutdown { message } => {
            lemma_parse_str_enc(message, Seq::empty());
            assert(str_enc(message) + Seq::<u8>::empty() =~= str_enc(message));
            assert(b.drop_first() =~= str_enc(message));
        },
    }
}

/// The eight big-endian bytes of a value read big-endian are the bytes read.
proof fn lemma_be64_canonical(v: Seq<u8>)
    requires
        v.len() == 8,
    ensures
        be64(be64_val(v)) == v,
{
    let b0 = v[0];
    let b1 = v[1];
    let b2 = v[2];
    let b3 = v[3];
    let b4 = v[4];
    let b5 = v[5];
    let b6 = v[6];
    let b7 = v[7];
    let n = be64_val(v);
    assert((n >> 56) as u8 == b0 && (n >> 48) as u8 == b1 && (n >> 40) as u8 == b2 && (n
        >> 32) as u8 == b3 && (n >> 24) as u8 == b4 && (n >> 16) as u8 == b5 && (n >> 8) as u8
        == b6 && n as u8 == b7)
        by (bit_vector)
        requires
            n == (((b0 as u64) << 56) | ((b1 as u64) << 48) | ((b2 as u64) << 40) | ((b3
                as u64) << 32) | ((b4 as u64) << 24) | ((b5 as u64) << 16) | ((b6 as u64) << 8) | (
            b7 as u64)),
    ;
    assert(be64(n) =~= v);
}

/// A parsed run of string fields sits in the bytes as exactly the fields its
/// strings build.
proof fn lemma_parse_str_list_canonical(b: Seq<u8>, n: nat, l: Seq<Seq<char>>, rest: Seq<u8>)
    requires
        parse_str_list(b, n) == Some((l, rest)),
    ensures
        l.len() == n,
        b == str_list_enc(l) + rest,
        forall|i: int| 0 <= i < l.len() ==> str_fits(#[trigger] l[i]),
    decreases n,
{
    if n == 0 {
        assert(str_list_enc(l) + rest =~= b);
    } else {
        match parse_str(b) {
            Some((s, r1)) => {
                match parse_str_list(r1, (n - 1) as nat) {
                    Some((l2, r2)) => {
                        lemma_parse_str_canonical(b, s, r1);
                        lemma_parse_str_list_canonical(r1, (n - 1) as nat, l2, r2);
                        assert(l == seq![s] + l2);
                        assert(l[0] == s);
                        assert(l.drop_first() =~= l2);
                        assert(str_list_enc(l) == str_enc(s) + str_list_enc(l2));
                        assert(b =~= (str_enc(s) + str_list_enc(l2)) + rest);
                        assert forall|i: int| 0 <= i < l.len() implies str_fits(
                            #[trigger] l[i],
                        ) by {
                            if i > 0 {
                                assert(l[i] == l2[i - 1]);
                            }
                        }
                    },
                    None => {
                        assert(false);
                    },
                }
            },
            None => {
                assert(false);
            },
        }
    }
}

/// Canonicity of the `Welcome` payload shape.
proof fn lemma_canonical_welcome(b: Seq<u8>, m: ServerMessageView)
    requires
        parse_server_payload(b) == Some(m),
        b.len() >= 1 && b[0] == TAG_WELCOME,
    ensures
        server_msg_fits(m),
        b == server_payload(m),
{
    let r0 = b.drop_first();
    let user_id = be32_val(r0);
    let count = be32_val(r0.skip(4));
    match parse_str_list(r0.skip(8), count as nat) {
        Some((l, rest)) => {
            lemma_parse_str_list_canonical(r0.skip(8), count as nat, l, rest);
            assert(rest.len() == 0);
            assert(str_list_enc(l) + rest =~= str_list_enc(l));
            assert(seq![r0[0], r0[1], r0[2], r0[3]] =~= r0.subrange(0, 4));
            assert(be32_val(seq![r0[0], r0[1], r0[2], r0[3]]) == user_id);
            lemma_be32_canonical(r0[0], r0[1], r0[2], r0[3]);
            let r4 = r0.skip(4);
            assert(seq![r4[0], r4[1], r4[2], r4[3]] =~= r4.subrange(0, 4));
            assert(be32_val(seq![r4[0], r4[1], r4[2], r4[3]]) == count);
            lemma_be32_canonical(r4[0], r4[1], r4[2], r4[3]);
            assert(l.len() as u32 == count);
            assert(b =~= seq![TAG_WELCOME] + be32(user_id) + be32(l.len() as u32) + str_list_enc(
                l,
            ));
        },
        None => {
            assert(false);
        },
    }
}

/// Canonicity of the payload shapes with one string field.
proof fn lemma_canonical_single_str(b: Seq<u8>, m: ServerMessageView)
    requires
        parse_server_payload(b) == Some(m),
        b.len() >= 1 && (b[0] == TAG_USER_JOINED || b[0] == TAG_USER_LEFT || b[0] == TAG_ERROR
            || b[0] == TAG_SHUTDOWN),
    ensures
        server_msg_fits(m),
        b == server_payload(m),
{
    let r0 = b.drop_first();
    match parse_str(r0) {
        Some((u, rest)) => {
            lemma_parse_str_canonical(r0, u, rest);
            assert(rest.len() == 0);
            assert(str_enc(u) + rest =~= str_enc(u));
            assert(b =~= seq![b[0]] + r0);
        },
        None => {
            assert(false);
        },
    }
}

/// Canonicity of the `ChatBroadcast` payload shape.
proof fn lemma_canonical_chat_broadcast(b: Seq<u8>, m: ServerMessageView)
    requires
        parse_server_payload(b) == Some(m),
        b.len() >= 1 && b[0] == TAG_CHAT_BROADCAST,
    ensures
        server_msg_fits(m),
        b == server_payload(m),
{
    let r0 = b.drop_first();
    match parse_str(r0) {
        Some((u, r1)) => {
            match parse_str(r1) {
                Some((c, r2)) => {
                    lemma_parse_str_canonical(r0, u, r1);
                    lemma_parse_str_canonical(r1, c, r2);
                    assert(r2.len() == 8);
                    lemma_be64_canonical(r2);
                    assert(r0 =~= str_enc(u) + (str_enc(c) + be64(be64_val(r2))));
                    assert(b =~= seq![TAG_CHAT_BROADCAST] + r0);
                    assert(seq![TAG_CHAT_BROADCAST] + (str_enc(u) + (str_enc(c) + be64(be64_val(
                        r2,
                    )))) =~= seq![TAG_CHAT_BROADCAST] + str_enc(u) + str_enc(c) + be64(
                        be64_val(r2),
                    ));
                },
                None => {
                    assert(false);
                },
            }
        },
        None => {
            assert(false);
        },
    }
}

/// The server payload grammar is canonical: a payload that spells a message
/// is exactly that message's encoding.
pub proof fn lemma_parse_server_payload_canonical(b: Seq<u8>, m: ServerMessageView)
    requires
        parse_server_payload(b) == Some(m),
    ensures
        server_msg_fits(m),
        b == server_payload(m),
{
    if b[0] == TAG_WELCOME {
        lemma_canonical_welcome(b, m);
    } else if b[0] == TAG_USER_JOINED || b[0] == TAG_USER_LEFT || b[0] == TAG_ERROR || b[0]
        == TAG_SHUTDOWN {
        lemma_canonical_single_str(b, m);
    } else if b[0] == TAG_CHAT_BROADCAST {
        lemma_canonical_chat_broadcast(b, m);
    } else {
        assert(b =~= seq![b[0]]);
    }
}

/// A payload spells at most one server message.
pub proof fn lemma_server_payload_unambiguous(m1: ServerMessageView, m2: ServerMessageView)
    requires
        server_msg_fits(m1),
        server_msg_fits(m2),
        server_payload(m1) == server_payload(m2),
    ensures
        m1 == m2,
{
    lemma_server_payload_roundtrip(m1);
    lemma_server_payload_roundtrip(m2);
}

/// Serializes a server message into payload bytes.
///
/// Succeeds exactly when the payload would not exceed [`MAX_FRAME_SIZE`];
/// nothing of an oversized message reaches the wire.
#[verifier::loop_isolation(false)]
pub fn encode_server_payload(m: &ServerMessage) -> (r: Result<Vec<u8>, ProtocolError>)
    ensures
        match r {
            Ok(v) => v@ == server_payload(m@) && v@.len() <= MAX_FRAME_SIZE,
            Err(e) => {
                &&& server_payload(m@).len() > MAX_FRAME_SIZE
                &&& e matches ProtocolError::FrameTooLarge { size, max } && max == MAX_FRAME_SIZE
            },
        },
{
    let mut out: Vec<u8> = Vec::new();
    match m {
        ServerMessage::Welcome { user_id, online_users } => {
            let ghost lv = names_view(online_users@);
            out.push(TAG_WELCOME);
            push_be32(&mut out, *user_id);
            let count = online_users.len();
            if count > (u32::MAX as usize) {
                proof {
                    lemma_str_list_enc_len(lv);
                }
                return Err(ProtocolError::FrameTooLarge { size: count, max: MAX_FRAME_SIZE });
            }
            push_be32(&mut out, count as u32);
            let ghost prefix = seq![TAG_WELCOME] + be32(*user_id) + be32(count as u32);
            assert(out@ =~= prefix + str_list_enc(lv.take(0)));
            let mut i: usize = 0;
            while i < count
                invariant
                    count == online_users@.len() <= u32::MAX,
                    lv == names_view(online_users@),
                    0 <= i <= count,
                    out@ == prefix + str_list_enc(lv.take(i as int)),
                decreases count - i,
            {
                let s = online_users[i].as_str();
                let nbytes = s.as_bytes().len();
                if nbytes > MAX_FRAME_SIZE - 5 {
                    proof {
                        assert(lv[i as int] == online_users@[i as int]@);
                        lemma_str_list_enc_elem(lv, i as int);
                        assert(str_enc(lv[i as int]).len() == 4 + nbytes);
                    }
                    return Err(ProtocolError::FrameTooLarge { size: nbytes, max: MAX_FRAME_SIZE });
                }
                push_str(&mut out, s);
                proof {
                    lemma_str_list_enc_push(lv.take(i as int), s@);
                    assert(lv.take(i as int + 1) =~= lv.take(i as int).push(lv[i as int]));
                    assert(out@ =~= prefix + str_list_enc(lv.take(i as int + 1)));
                }
                i = i + 1;
            }
            assert(lv.take(count as int) =~= lv);
            assert(out@ =~= server_payload(m@));
        },
        ServerMessage::UserJoined { username } => {
            let s = username.as_str();
            let nbytes = s.as_bytes().len();
            if nbytes > MAX_FRAME_SIZE - 5 {
                return Err(ProtocolError::FrameTooLarge { size: nbytes, max: MAX_FRAME_SIZE });
            }
            out.push(TAG_USER_JOINED);
            push_str(&mut out, s);
            assert(out@ =~= server_payload(m@));
        },
        ServerMessage::UserLeft { username } => {
            let s = username.as_str();
            let nbytes = s.as_bytes().len();
            if nbytes > MAX_FRAME_SIZE - 5 {
                return Err(ProtocolError::FrameTooLarge { size: nbytes, max: MAX_FRAME_SIZE });
            }
            out.push(TAG_USER_LEFT);
            push_str(&mut out, s);
            assert(out@ =~= server_payload(m@));
        },
        ServerMessage::ChatBroadcast { username, content, timestamp } => {
            let u = username.as_str();
            let c = content.as_str();
            let un = u.as_bytes().len();
            let cn = c.as_bytes().len();
            if un > MAX_FRAME_SIZE - 5 {
                return Err(ProtocolError::FrameTooLarge { size: un, max: MAX_FRAME_SIZE });
            }
            if cn > MAX_FRAME_SIZE - 5 {
                return Err(ProtocolError::FrameTooLarge { size: cn, max: MAX_FRAME_SIZE });
            }
            out.push(TAG_CHAT_BROADCAST);
            push_str(&mut out, u);
            push_str(&mut out, c);
            push_be64(&mut out, *timestamp);
            assert(out@ =~= server_payload(m@));
        },
        ServerMessage::Error { message } => {
            let s = message.as_str();
            let nbytes = s.as_bytes().len();
            if nbytes > MAX_FRAME_SIZE - 5 {
                return Err(ProtocolError::FrameTooLarge { size: nbytes, max: MAX_FRAME_SIZE });
            }
            out.push(TAG_ERROR);
            push_str(&mut out, s);
            assert(out@ =~= server_payload(m@));
        },
        ServerMessage::Pong => {
            out.push(TAG_PONG);
            assert(out@ =~= server_payload(m@));
        },
        ServerMessage::Shutdown { message } => {
            let s = message.as_str();
            let nbytes = s.as_bytes().len();
            if nbytes > MAX_FRAME_SIZE - 5 {
                return Err(ProtocolError::FrameTooLarge { size: nbytes, max: MAX_FRAME_SIZE });
            }
            out.push(TAG_SHUTDOWN);
            push_str(&mut out, s);
            assert(out@ =~= server_payload(m@));
        },
    }
    let total = out.len();
    if total > MAX_FRAME_SIZE {
        return Err(ProtocolError::FrameTooLarge { size: total, max: MAX_FRAME_SIZE });
    }
    Ok(out)
}

/// Deserializes payload bytes into the server message they spell.
///
/// Returns the unique message whose payload is `b`, and a serialization
/// error exactly when no message has payload `b`.
#[verifier::loop_isolation(false)]
pub fn decode_server_payload(b: &[u8]) -> (r: Result<ServerMessage, ProtocolError>)
    ensures
        match r {
            Ok(m) => parse_server_payload(b@) == Some(m@),
            Err(e) => parse_server_payload(b@) is None && e == ProtocolError::Serialization,
        },
{
    if b.len() < 1 {
        return Err(ProtocolError::Serialization);
    }
    let tag = b[0];
    proof {
        assert(b@.skip(1) =~= b@.drop_first());
    }
    if tag == TAG_WELCOME {
        if b.len() < 9 {
            return Err(ProtocolError::Serialization);
        }
        let user_id = read_be32(b, 1);
        let count = read_be32(b, 5);
        proof {
            assert(b@.drop_first().skip(4) =~= b@.skip(5));
            assert(b@.drop_first().skip(8) =~= b@.skip(9));
        }
        let mut names: Vec<String> = Vec::new();
        let mut pos: usize = 9;
        let mut i: u32 = 0;
        while i < count
            invariant
                0 <= i <= count,
                pos <= b@.len(),
                names@.len() == i,
                parse_str_list(b@.skip(9), count as nat) == (match parse_str_list(
                    b@.skip(pos as int),
                    (count - i) as nat,
                ) {
                    Some((l2, rest)) => Some((names_view(names@) + l2, rest)),
                    None => None::<(Seq<Seq<char>>, Seq<u8>)>,
                }),
            decreases count - i,
        {
            let ghost names_pre = names@;
            match read_str(b, pos) {
                Some((s, newpos)) => {
                    proof {
                        let sv = s@;
                        let tail_res = parse_str_list(b@.skip(newpos as int), (count - i
                            - 1) as nat);
                        assert(parse_str_list(b@.skip(pos as int), (count - i) as nat) == (
                        match tail_res {
                            Some((l, rest2)) => Some((seq![sv] + l, rest2)),
                            None => None::<(Seq<Seq<char>>, Seq<u8>)>,
                        }));
                        match tail_res {
                            Some((l, rest2)) => {
                                assert(names_view(names_pre) + (seq![sv] + l) =~= names_view(
                                    names_pre.push(s),
                                ) + l);
                            },
                            None => {
                            },
                        }
                    }
                    names.push(s);
                    pos = newpos;
                },
                None => {
                    return Err(ProtocolError::Serialization);
                },
            }
            i = i + 1;
        }
        if pos != b.len() {
            return Err(ProtocolError::Serialization);
        }
        proof {
            assert(b@.skip(pos as int).len() == 0);
            assert(names_view(names@) + Seq::<Seq<char>>::empty() =~= names_view(names@));
        }
        Ok(ServerMessage::Welcome { user_id, online_users: names })
    } else if tag == TAG_USER_JOINED {
        match read_str(b, 1) {
            Some((s, newpos)) => {
                if newpos == b.len() {
                    Ok(ServerMessage::UserJoined { username: s })
                } else {
                    Err(ProtocolError::Serialization)
                }
            },
            None => Err(ProtocolError::Serialization),
        }
    } else if tag == TAG_USER_LEFT {
        match read_str(b, 1) {
            Some((s, newpos)) => {
                if newpos == b.len() {
                    Ok(ServerMessage::UserLeft { username: s })
                } else {
                    Err(ProtocolError::Serialization)
                }
            },
            None => Err(ProtocolError::Serialization),
        }
    } else if tag == TAG_CHAT_BROADCAST {
        match read_str(b, 1) {
            Some((u, pos1)) => {
                match read_str(b, pos1) {
                    Some((c, pos2)) => {
                        if b.len() - pos2 == 8 {
                            let timestamp = read_be64(b, pos2);
                            Ok(ServerMessage::ChatBroadcast { username: u, content: c, timestamp })
                        } else {
                            Err(ProtocolError::Serialization)
                        }
                    },
                    None => Err(ProtocolError::Serialization),
                }
            },
            None => Err(ProtocolError::Serialization),
        }
    } else if tag == TAG_ERROR {
        match read_str(b, 1) {
            Some((s, newpos)) => {
                if newpos == b.len() {
                    Ok(ServerMessage::Error { message: s })
                } else {
                    Err(ProtocolError::Serialization)
                }
            },
            None => Err(ProtocolError::Serialization),
        }
    } else if tag == TAG_PONG {
        if b.len() == 1 {
            Ok(ServerMessage::Pong)
        } else {
            Err(ProtocolError::Serialization)
        }
    } else if tag == TAG_SHUTDOWN {
        match read_str(b, 1) {
            Some((s, newpos)) => {
                if newpos == b.len() {
                    Ok(ServerMessage::Shutdown { message: s })
                } else {
                    Err(ProtocolError::Serialization)
                }
            },
            None => Err(ProtocolError::Serialization),
        }
    } else {
        Err(ProtocolError::Serialization)
    }
}

/// One frame on the wire: the version byte, the payload's length as four
/// big-endian bytes, then the payload itself.
pub open spec fn frame_bytes(payload: Seq<u8>) -> Seq<u8> {
    seq![PROTOCOL_VERSION] + be32(payload.len() as u32) + payload
}

/// The payload length a buffered frame header announces.
pub open spec fn buffered_len(b: Seq<u8>) -> int
    recommends
        b.len() >= 5,
{
    be32_val(b.drop_first()) as int
}

/// The buffer starts with one complete, acceptable frame.
pub open spec fn frame_ready(b: Seq<u8>) -> bool {
    &&& b.len() >= 5
    &&& b[0] == PROTOCOL_VERSION
    &&& buffered_len(b) <= MAX_FRAME_SIZE
    &&& b.len() >= 5 + buffered_len(b)
}

/// The buffer holds an acceptable prefix of a frame and needs more bytes.
pub open spec fn frame_incomplete(b: Seq<u8>) -> bool {
    &&& (b.len() == 0 || b[0] == PROTOCOL_VERSION)
    &&& (b.len() < 5 || (buffered_len(b) <= MAX_FRAME_SIZE && b.len() < 5 + buffered_len(b)))
}

/// The payload of the buffer's first frame.
pub open spec fn buffered_payload(b: Seq<u8>) -> Seq<u8>
    recommends
        frame_ready(b),
{
    b.subrange(5, 5 + buffered_len(b))
}

/// The buffer after the first frame.
pub open spec fn buffered_rest(b: Seq<u8>) -> Seq<u8>
    recommends
        frame_ready(b),
{
    b.skip(5 + buffered_len(b))
}

/// The writing half of the codec: frames payloads into an outbound byte
/// queue that the transport drains.
pub struct FrameWriter {
    /// Framed bytes not yet handed to the transport.
    out: Vec<u8>,
}

impl View for FrameWriter {
    type V = Seq<u8>;

    closed spec fn view(&self) -> Seq<u8> {
        self.out@
    }
}

impl FrameWriter {
    /// A writer with an empty outbound queue.
    pub fn new() -> (w: FrameWriter)
        ensures
            w@ == Seq::<u8>::empty(),
    {
        FrameWriter { out: Vec::new() }
    }

    /// Frames `payload` and appends the frame to the outbound queue.
    ///
    /// A payload over [`MAX_FRAME_SIZE`] is rejected before any byte is
    /// queued: on an error the queue is exactly what it was.
    pub fn write_frame(&mut self, payload: &[u8]) -> (r: Result<(), ProtocolError>)
        ensures
            match r {
                Ok(()) => {
                    &&& payload@.len() <= MAX_FRAME_SIZE
                    &&& final(self)@ == old(self)@ + frame_bytes(payload@)
                },
                Err(e) => {
                    &&& payload@.len() > MAX_FRAME_SIZE
                    &&& *final(self) == *old(self)
                    &&& e == (ProtocolError::FrameTooLarge {
                        size: payload@.len() as usize,
                        max: MAX_FRAME_SIZE,
                    })
                },
            },
    {
        let n = payload.len();
        if n > MAX_FRAME_SIZE {
            return Err(ProtocolError::FrameTooLarge { size: n, max: MAX_FRAME_SIZE });
        }
        self.out.push(PROTOCOL_VERSION);
        push_be32(&mut self.out, n as u32);
        self.out.extend_from_slice(payload);
        assert(self.out@ =~= old(self)@ + frame_bytes(payload@));
        Ok(())
    }

    /// Serializes and frames a client message; see [`Self::write_frame`].
    pub fn send_client(&mut self, m: &ClientMessage) -> (r: Result<(), ProtocolError>)
        ensures
            match r {
                Ok(()) => {
                    &&& client_payload(m@).len() <= MAX_FRAME_SIZE
                    &&& final(self)@ == old(self)@ + frame_bytes(client_payload(m@))
                },
                Err(e) => {
                    &&& client_payload(m@).len() > MAX_FRAME_SIZE
                    &&& *final(self) == *old(self)
                    &&& e matches ProtocolError::FrameTooLarge { size, max } && max
                        == MAX_FRAME_SIZE
                },
            },
    {
        let payload = encode_client_payload(m)?;
        match self.write_frame(payload.as_slice()) {
            Ok(()) => Ok(()),
            Err(e) => {
                proof {
                    assert(false);
                }
                Err(e)
            },
        }
    }

    /// Serializes and frames a server message; see [`Self::write_frame`].
    pub fn send_server(&mut self, m: &ServerMessage) -> (r: Result<(), ProtocolError>)
        ensures
            match r {
                Ok(()) => {
                    &&& server_payload(m@).len() <= MAX_FRAME_SIZE
                    &&& final(self)@ == old(self)@ + frame_bytes(server_payload(m@))
                },
                Err(e) => {
                    &&& server_payload(m@).len() > MAX_FRAME_SIZE
                    &&& *final(self) == *old(self)
                    &&& e matches ProtocolError::FrameTooLarge { size, max } && max
                        == MAX_FRAME_SIZE
                },
            },
    {
        let payload = encode_server_payload(m)?;
        match self.write_frame(payload.as_slice()) {
            Ok(()) => Ok(()),
            Err(e) => {
                proof {
                    assert(false);
                }
                Err(e)
            },
        }
    }

    /// Hands the queued bytes over (to be written to the transport) and
    /// empties the queue.
    pub fn take_bytes(&mut self) -> (b: Vec<u8>)
        ensures
            b@ == old(self)@,
            final(self)@ == Seq::<u8>::empty(),
    {
        let mut out: Vec<u8> = Vec::new();
        core::mem::swap(&mut out, &mut self.out);
        out
    }
}

/// The reading half of the codec: buffers bytes arriving from the transport
/// and cuts complete frames out of them.
pub struct FrameReader {
    /// Bytes received and not yet parsed.
    buffer: Vec<u8>,
}

impl View for FrameReader {
    type V = Seq<u8>;

    closed spec fn view(&self) -> Seq<u8> {
        self.buffer@
    }
}

impl FrameReader {
    /// A reader with an empty buffer.
    pub fn new() -> (r: FrameReader)
        ensures
            r@ == Seq::<u8>::empty(),
    {
        FrameReader { buffer: Vec::new() }
    }

    /// Appends bytes read from the transport.
    pub fn feed(&mut self, chunk: &[u8])
        ensures
            final(self)@ == old(self)@ + chunk@,
    {
        self.buffer.extend_from_slice(chunk);
        assert(self.buffer@ =~= old(self)@ + chunk@);
    }

    /// Cuts the next complete frame's payload out of the buffer.
    ///
    /// A buffered version byte other than [`PROTOCOL_VERSION`], or a header
    /// announcing more than [`MAX_FRAME_SIZE`] bytes, is rejected without
    /// reading further, whatever follows it; `Ok(None)` asks for more bytes.
    pub fn next_frame(&mut self) -> (r: Result<Option<Vec<u8>>, ProtocolError>)
        ensures
            match r {
                Ok(Some(p)) => {
                    &&& frame_ready(old(self)@)
                    &&& p@ == buffered_payload(old(self)@)
                    &&& final(self)@ == buffered_rest(old(self)@)
                },
                Ok(None) => {
                    &&& *final(self) == *old(self)
                    &&& frame_incomplete(old(self)@)
                },
                Err(e) => {
                    &&& *final(self) == *old(self)
                    &&& match e {
                        ProtocolError::VersionMismatch { expected, actual } => {
                            &&& old(self)@.len() >= 1
                            &&& actual == old(self)@[0]
                            &&& actual != PROTOCOL_VERSION
                            &&& expected == PROTOCOL_VERSION
                        },
                        ProtocolError::FrameTooLarge { size, max } => {
                            &&& old(self)@.len() >= 5
                            &&& old(self)@[0] == PROTOCOL_VERSION
                            &&& size == buffered_len(old(self)@)
                            &&& size > MAX_FRAME_SIZE
                            &&& max == MAX_FRAME_SIZE
                        },
                        _ => false,
                    }
                },
            },
    {
        if self.buffer.len() < 1 {
            return Ok(None);
        }
        let version = self.buffer[0];
        if version != PROTOCOL_VERSION {
            return Err(ProtocolError::VersionMismatch {
                expected: PROTOCOL_VERSION,
                actual: version,
            });
        }
        if self.buffer.len() < 5 {
            return Ok(None);
        }
        let n = read_be32(self.buffer.as_slice(), 1);
        proof {
            assert(self.buffer@.skip(1) =~= self.buffer@.drop_first());
        }
        if n > MAX_FRAME_SIZE as u32 {
            return Err(ProtocolError::FrameTooLarge { size: n as usize, max: MAX_FRAME_SIZE });
        }
        let len = n as usize;
        if self.buffer.len() - 5 < len {
            return Ok(None);
        }
        let payload = slice_to_vec(slice_subrange(self.buffer.as_slice(), 5, 5 + len));
        let rest = self.buffer.split_off(5 + len);
        self.buffer = rest;
        proof {
            assert(self.buffer@ =~= old(self)@.skip(5 + n as int));
        }
        Ok(Some(payload))
    }

    /// Cuts and deserializes the next client message; `Ok(None)` asks for
    /// more bytes.
    pub fn recv_client(&mut self) -> (r: Result<Option<ClientMessage>, ProtocolError>)
        ensures
            match r {
                Ok(Some(m)) => {
                    &&& frame_ready(old(self)@)
                    &&& parse_client_payload(buffered_payload(old(self)@)) == Some(m@)
                    &&& final(self)@ == buffered_rest(old(self)@)
                },
                Ok(None) => {
                    &&& *final(self) == *old(self)
                    &&& frame_incomplete(old(self)@)
                },
                Err(e) => match e {
                    ProtocolError::Serialization => {
                        &&& frame_ready(old(self)@)
                        &&& parse_client_payload(buffered_payload(old(self)@)) is None
                        &&& final(self)@ == buffered_rest(old(self)@)
                    },
                    ProtocolError::VersionMismatch { expected, actual } => {
                        &&& *final(self) == *old(self)
                        &&& old(self)@.len() >= 1
                        &&& actual == old(self)@[0]
                        &&& actual != PROTOCOL_VERSION
                        &&& expected == PROTOCOL_VERSION
                    },
                    ProtocolError::FrameTooLarge { size, max } => {
                        &&& *final(self) == *old(self)
                        &&& old(self)@.len() >= 5
                        &&& old(self)@[0] == PROTOCOL_VERSION
                        &&& size == buffered_len(old(self)@)
                        &&& size > MAX_FRAME_SIZE
                        &&& max == MAX_FRAME_SIZE
                    },
                    _ => false,
                },
            },
    {
        match self.next_frame()? {
            Some(payload) => {
                let m = decode_client_payload(payload.as_slice())?;
                Ok(Some(m))
            },
            None => Ok(None),
        }
    }

    /// Cuts and deserializes the next server message; `Ok(None)` asks for
    /// more bytes.
    pub fn recv_server(&mut self) -> (r: Result<Option<ServerMessage>, ProtocolError>)
        ensures
            match r {
                Ok(Some(m)) => {
                    &&& frame_ready(old(self)@)
                    &&& parse_server_payload(buffered_payload(old(self)@)) == Some(m@)
                    &&& final(self)@ == buffered_rest(old(self)@)
                },
                Ok(None) => {
                    &&& *final(self) == *old(self)
                    &&& frame_incomplete(old(self)@)
                },
                Err(e) => match e {
                    ProtocolError::Serialization => {
                        &&& frame_ready(old(self)@)
                        &&& parse_server_payload(buffered_payload(old(self)@)) is None
                        &&& final(self)@ == buffered_rest(old(self)@)
                    },
                    ProtocolError::VersionMismatch { expected, actual } => {
                        &&& *final(self) == *old(self)
                        &&& old(self)@.len() >= 1
                        &&& actual == old(self)@[0]
                        &&& actual != PROTOCOL_VERSION
                        &&& expected == PROTOCOL_VERSION
                    },
                    ProtocolError::FrameTooLarge { size, max } => {
                        &&& *final(self) == *old(self)
                        &&& old(self)@.len() >= 5
                        &&& old(self)@[0] == PROTOCOL_VERSION
                        &&& size == buffered_len(old(self)@)
                        &&& size > MAX_FRAME_SIZE
                        &&& max == MAX_FRAME_SIZE
                    },
                    _ => false,
                },
            },
    {
        match self.next_frame()? {
            Some(payload) => {
                let m = decode_server_payload(payload.as_slice())?;
                Ok(Some(m))
            },
            None => Ok(None),
        }
    }
}

/// A framed payload parses back out of the byte stream: feeding the frame of
/// `payload` to a reader yields exactly `payload` and consumes exactly the
/// frame.
pub proof fn lemma_frame_roundtrip(payload: Seq<u8>, rest: Seq<u8>)
    requires
        payload.len() <= MAX_FRAME_SIZE,
    ensures
        ({
            let b = frame_bytes(payload) + rest;
            &&& frame_ready(b)
            &&& buffered_payload(b) == payload
            &&& buffered_rest(b) == rest
        }),
{
    let b = frame_bytes(payload) + rest;
    let n = payload.len() as u32;
    assert(b.drop_first().subrange(0, 4) =~= be32(n));
    lemma_be32_roundtrip(n);
    assert(be32_val(b.drop_first()) == be32_val(b.drop_first().subrange(0, 4))) by {
        let q = b.drop_first();
        let p = q.subrange(0, 4);
        assert(q[0] == p[0] && q[1] == p[1] && q[2] == p[2] && q[3] == p[3]);
    }
    assert(b.subrange(5, 5 + payload.len() as int) =~= payload);
    assert(b.skip(5 + payload.len() as int) =~= rest);
}

/// A payload a frame can carry has every string field within its prefix.
proof fn lemma_small_client_payload_fits(m: ClientMessageView)
    requires
        client_payload(m).len() <= MAX_FRAME_SIZE,
    ensures
        client_msg_fits(m),
{
}

/// A payload a frame can carry has every field within its prefix.
proof fn lemma_small_server_payload_fits(m: ServerMessageView)
    requires
        server_payload(m).len() <= MAX_FRAME_SIZE,
    ensures
        server_msg_fits(m),
{
    match m {
        ServerMessageView::Welcome { user_id, online_users } => {
            lemma_str_list_enc_len(online_users);
            assert forall|i: int| 0 <= i < online_users.len() implies str_fits(
                #[trigger] online_users[i],
            ) by {
                lemma_str_list_enc_elem(online_users, i);
            }
        },
        _ => {
        },
    }
}

/// Round trip over the wire: the framed encoding of a client message, put in
/// front of any remaining bytes, is one complete acceptable frame whose
/// payload parses back to exactly that message, leaving exactly the
/// remaining bytes. Holds for every message a frame can carry.
pub proof fn lemma_wire_roundtrip_client(m: ClientMessageView, rest: Seq<u8>)
    requires
        client_payload(m).len() <= MAX_FRAME_SIZE,
    ensures
        ({
            let b = frame_bytes(client_payload(m)) + rest;
            &&& frame_ready(b)
            &&& parse_client_payload(buffered_payload(b)) == Some(m)
            &&& buffered_rest(b) == rest
        }),
{
    lemma_frame_roundtrip(client_payload(m), rest);
    lemma_small_client_payload_fits(m);
    lemma_client_payload_roundtrip(m);
}

/// Round trip over the wire for server messages; see
/// [`lemma_wire_roundtrip_client`].
pub proof fn lemma_wire_roundtrip_server(m: ServerMessageView, rest: Seq<u8>)
    requires
        server_payload(m).len() <= MAX_FRAME_SIZE,
    ensures
        ({
            let b = frame_bytes(server_payload(m)) + rest;
            &&& frame_ready(b)
            &&& parse_server_payload(buffered_payload(b)) == Some(m)
            &&& buffered_rest(b) == rest
        }),
{
    lemma_frame_roundtrip(server_payload(m), rest);
    lemma_small_server_payload_fits(m);
    lemma_server_payload_roundtrip(m);
}

} // verus!
