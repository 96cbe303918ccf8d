use vstd::prelude::*;
use vstd::bytes::*;
use vstd::slice::*;
use vstd::utf8::*;
use vstd::string::StrSliceExecFns;
use crate::ids::ConnectionId;
use crate::packets::{Packet, PacketView};
use crate::server_components::{Position, ServerComponentKind, Translate};

verus! {

/// Why a byte buffer failed to decode.  A failed decode is reported and the
/// corrupt unit discarded; it never terminates the connection.
#[derive(Clone, Copy, PartialEq, Eq, Structural, Debug)]
pub enum DecodeError {
    /// The buffer held no bytes at all.
    Empty,
    /// The leading discriminator names no packet variant.
    UnknownTag,
    /// The buffer's length does not fit the variant named by its tag.
    BadLength,
    /// A text field does not hold valid UTF-8.
    BadText,
}

/// The encoding of one component: a discriminator byte, then the two fields
/// as little-endian 32-bit words (signed fields carried as their bit pattern).
pub open spec fn spec_encode_component(k: ServerComponentKind) -> Seq<u8> {
    match k {
        ServerComponentKind::Position(p) => seq![0u8] + spec_u32_to_le_bytes(p.x as u32)
            + spec_u32_to_le_bytes(p.y as u32),
        ServerComponentKind::Translate(t) => seq![1u8] + spec_u32_to_le_bytes(t.dx as u32)
            + spec_u32_to_le_bytes(t.dy as u32),
    }
}

/// The inverse of [`spec_encode_component`] on nine-byte buffers.
pub open spec fn spec_decode_component(b: Seq<u8>) -> Result<ServerComponentKind, DecodeError>
    recommends
        b.len() == 9,
{
    let x = spec_u32_from_le_bytes(b.subrange(1, 5)) as i32;
    let y = spec_u32_from_le_bytes(b.subrange(5, 9)) as i32;
    if b[0] == 0u8 {
        Ok(ServerComponentKind::Position(Position { x, y }))
    } else if b[0] == 1u8 {
        Ok(ServerComponentKind::Translate(Translate { dx: x, dy: y }))
    } else {
        Err(DecodeError::UnknownTag)
    }
}

/// The wire encoding of one packet: a variant discriminator, then the fields.
/// Connection identities are sixteen little-endian bytes, entity identities
/// four; a text field is UTF-8 and always stands last, so it needs no length
/// prefix — it runs to the end of the unit.
pub open spec fn spec_encode_packet(p: PacketView) -> Seq<u8> {
    match p {
        PacketView::SetName(name) => seq![0u8] + encode_utf8(name),
        PacketView::Logout => seq![1u8],
        PacketView::UpdateComponent(eid, k) => seq![2u8] + spec_u32_to_le_bytes(eid)
            + spec_encode_component(k),
        PacketView::Id(c) => seq![3u8] + spec_u128_to_le_bytes(c.0),
        PacketView::PlayerConnected(c) => seq![4u8] + spec_u128_to_le_bytes(c.0),
        PacketView::PlayerDisconnected(c) => seq![5u8] + spec_u128_to_le_bytes(c.0),
        PacketView::PlayerEntityId(c, eid) => seq![6u8] + spec_u128_to_le_bytes(c.0)
            + spec_u32_to_le_bytes(eid),
        PacketView::Name(c, name) => seq![7u8] + spec_u128_to_le_bytes(c.0) + encode_utf8(name),
        PacketView::NameTaken(name) => seq![8u8] + encode_utf8(name),
    }
}

/// What decoding a byte buffer yields: the packet whose encoding the buffer
/// is, or the error that says why it is no encoding.
pub open spec fn spec_decode_packet(b: Seq<u8>) -> Result<PacketView, DecodeError> {
    if b.len() == 0 {
        Err(DecodeError::Empty)
    } else {
        let n = b.len() as int;
        let rest = b.subrange(1, n);
        if b[0] == 0u8 {
            if valid_utf8(rest) {
                Ok(PacketView::SetName(decode_utf8(rest)))
            } else {
                Err(DecodeError::BadText)
            }
        } else if b[0] == 1u8 {
            if n == 1 {
                Ok(PacketView::Logout)
            } else {
                Err(DecodeError::BadLength)
            }
        } else if b[0] == 2u8 {
            if n == 14 {
                match spec_decode_component(b.subrange(5, 14)) {
                    Ok(k) => Ok(
                        PacketView::UpdateComponent(spec_u32_from_le_bytes(b.subrange(1, 5)), k),
                    ),
                    Err(e) => Err(e),
                }
            } else {
                Err(DecodeError::BadLength)
            }
        } else if b[0] == 3u8 {
            if n == 17 {
                Ok(PacketView::Id(ConnectionId(spec_u128_from_le_bytes(rest))))
            } else {
                Err(DecodeError::BadLength)
            }
        } else if b[0] == 4u8 {
            if n == 17 {
                Ok(PacketView::PlayerConnected(ConnectionId(spec_u128_from_le_bytes(rest))))
            } else {
                Err(DecodeError::BadLength)
            }
        } else if b[0] == 5u8 {
            if n == 17 {
                Ok(PacketView::PlayerDisconnected(ConnectionId(spec_u128_from_le_bytes(rest))))
            } else {
                Err(DecodeError::BadLength)
            }
        } else if b[0] == 6u8 {
            if n == 21 {
                Ok(
                    PacketView::PlayerEntityId(
                        ConnectionId(spec_u128_from_le_bytes(b.subrange(1, 17))),
                        spec_u32_from_le_bytes(b.subrange(17, 21)),
                    ),
                )
            } else {
                Err(DecodeError::BadLength)
            }
        } else if b[0] == 7u8 {
            if n >= 17 {
                if valid_utf8(b.subrange(17, n)) {
                    Ok(
                        PacketView::Name(
                            ConnectionId(spec_u128_from_le_bytes(b.subrange(1, 17))),
                            decode_utf8(b.subrange(17, n)),
                        ),
                    )
                } else {
                    Err(DecodeError::BadText)
                }
            } else {
                Err(DecodeError::BadLength)
            }
        } else if b[0] == 8u8 {
            if valid_utf8(rest) {
                Ok(PacketView::NameTaken(decode_utf8(rest)))
            } else {
                Err(DecodeError::BadText)
            }
        } else {
            Err(DecodeError::UnknownTag)
        }
    }
}

/// Relies on `String::from_utf8`: it returns the string made of the given
/// bytes exactly when they are valid UTF-8, and fails otherwise.
#[verifier::external_body]
fn bytes_to_string(bytes: Vec<u8>) -> (r: Option<String>)
    ensures
        r matches Some(s) ==> valid_utf8(bytes@) && s@ == decode_utf8(bytes@),
        valid_utf8(bytes@) ==> r is Some,
{
    String::from_utf8(bytes).ok()
}

fn push_u32(out: &mut Vec<u8>, x: u32)
    ensures
        final(out)@ == old(out)@ + spec_u32_to_le_bytes(x),
{
    let mut b = u32_to_le_bytes(x);
    out.append(&mut b);
}

fn push_u128(out: &mut Vec<u8>, x: u128)
    ensures
        final(out)@ == old(out)@ + spec_u128_to_le_bytes(x),
{
    let mut b = u128_to_le_bytes(x);
    out.append(&mut b);
}

fn push_str(out: &mut Vec<u8>, s: &str)
    ensures
        final(out)@ == old(out)@ + encode_utf8(s@),
{
    let mut b = s.as_bytes_vec();
    out.append(&mut b);
}

fn push_component(out: &mut Vec<u8>, k: &ServerComponentKind)
    ensures
        final(out)@ == old(out)@ + spec_encode_component(*k),
{
    match k {
        ServerComponentKind::Position(p) => {
            out.push(0u8);
            push_u32(out, #[verifier::truncate] (p.x as u32));
            push_u32(out, #[verifier::truncate] (p.y as u32));
            assert(final(out)@ =~= old(out)@ + spec_encode_component(*k));
        },
        ServerComponentKind::Translate(t) => {
            out.push(1u8);
            push_u32(out, #[verifier::truncate] (t.dx as u32));
            push_u32(out, #[verifier::truncate] (t.dy as u32));
            assert(final(out)@ =~= old(out)@ + spec_encode_component(*k));
        },
    }
}

/// Serializes one packet for the wire.
pub fn encode_packet(p: &Packet) -> (out: Vec<u8>)
    ensures
        out@ == spec_encode_packet(p@),
{
    let mut out: Vec<u8> = Vec::new();
    match p {
        Packet::SetName(name) => {
            out.push(0u8);
            push_str(&mut out, name.as_str());
        },
        Packet::Logout => {
            out.push(1u8);
        },
        Packet::UpdateComponent(eid, k) => {
            out.push(2u8);
            push_u32(&mut out, *eid);
            push_component(&mut out, k);
        },
        Packet::Id(c) => {
            out.push(3u8);
            push_u128(&mut out, c.0);
        },
        Packet::PlayerConnected(c) => {
            out.push(4u8);
            push_u128(&mut out, c.0);
        },
        Packet::PlayerDisconnected(c) => {
            out.push(5u8);
            push_u128(&mut out, c.0);
        },
        Packet::PlayerEntityId(c, eid) => {
            out.push(6u8);
            push_u128(&mut out, c.0);
            push_u32(&mut out, *eid);
        },
        Packet::Name(c, name) => {
            out.push(7u8);
            push_u128(&mut out, c.0);
            push_str(&mut out, name.as_str());
        },
        Packet::NameTaken(name) => {
            out.push(8u8);
            push_str(&mut out, name.as_str());
        },
    }
    assert(out@ =~= spec_encode_packet(p@));
    out
}

fn decode_component(b: &[u8]) -> (r: Result<ServerComponentKind, DecodeError>)
    requires
        b@.len() == 9,
    ensures
        match r {
            Ok(k) => spec_decode_component(b@) == Ok::<ServerComponentKind, DecodeError>(k),
            Err(e) => spec_decode_component(b@) == Err::<ServerComponentKind, DecodeError>(e),
        },
{
    let tag = *slice_index_get(b, 0);
    let x = #[verifier::truncate] (u32_from_le_bytes(slice_subrange(b, 1, 5)) as i32);
    let y = #[verifier::truncate] (u32_from_le_bytes(slice_subrange(b, 5, 9)) as i32);
    if tag == 0u8 {
        Ok(ServerComponentKind::Position(Position { x, y }))
    } else if tag == 1u8 {
        Ok(ServerComponentKind::Translate(Translate { dx: x, dy: y }))
    } else {
        Err(DecodeError::UnknownTag)
    }
}

/// Deserializes one received unit.  On failure the unit is discarded by the
/// caller and the connection lives on.
pub fn decode_packet(bytes: &[u8]) -> (r: Result<Packet, DecodeError>)
    ensures
        match r {
            Ok(p) => spec_decode_packet(bytes@) == Ok::<PacketView, DecodeError>(p@),
            Err(e) => spec_decode_packet(bytes@) == Err::<PacketView, DecodeError>(e),
        },
{
    let n = bytes.len();
    if n == 0 {
        return Err(DecodeError::Empty);
    }
    let tag = *slice_index_get(bytes, 0);
    if tag == 0u8 {
        match bytes_to_string(slice_to_vec(slice_subrange(bytes, 1, n))) {
            Some(s) => Ok(Packet::SetName(s)),
            None => Err(DecodeError::BadText),
        }
    } else if tag == 1u8 {
        if n == 1 {
            Ok(Packet::Logout)
        } else {
            Err(DecodeError::BadLength)
        }
    } else if tag == 2u8 {
        if n == 14 {
            let eid = u32_from_le_bytes(slice_subrange(bytes, 1, 5));
            match decode_component(slice_subrange(bytes, 5, 14)) {
                Ok(k) => Ok(Packet::UpdateComponent(eid, k)),
                Err(e) => Err(e),
            }
        } else {
            Err(DecodeError::BadLength)
        }
    } else if tag == 3u8 {
        if n == 17 {
            Ok(Packet::Id(ConnectionId(u128_from_le_bytes(slice_subrange(bytes, 1, 17)))))
        } else {
            Err(DecodeError::BadLength)
        }
    } else if tag == 4u8 {
        if n == 17 {
            Ok(
                Packet::PlayerConnected(
                    ConnectionId(u128_from_le_bytes(slice_subrange(bytes, 1, 17))),
                ),
            )
        } else {
            Err(DecodeError::BadLength)
        }
    } else if tag == 5u8 {
        if n == 17 {
            Ok(
                Packet::PlayerDisconnected(
                    ConnectionId(u128_from_le_bytes(slice_subrange(bytes, 1, 17))),
                ),
            )
        } else {
            Err(DecodeError::BadLength)
        }
    } else if tag == 6u8 {
        if n == 21 {
            let c = ConnectionId(u128_from_le_bytes(slice_subrange(bytes, 1, 17)));
            let eid = u32_from_le_bytes(slice_subrange(bytes, 17, 21));
            Ok(Packet::PlayerEntityId(c, eid))
        } else {
            Err(DecodeError::BadLength)
        }
    } else if tag == 7u8 {
        if n >= 17 {
            let c = ConnectionId(u128_from_le_bytes(slice_subrange(bytes, 1, 17)));
            match bytes_to_string(slice_to_vec(slice_subrange(bytes, 17, n))) {
                Some(s) => Ok(Packet::Name(c, s)),
                None => Err(DecodeError::BadText),
            }
        } else {
            Err(DecodeError::BadLength)
        }
    } else if tag == 8u8 {
        match bytes_to_string(slice_to_vec(slice_subrange(bytes, 1, n))) {
            Some(s) => Ok(Packet::NameTaken(s)),
            None => Err(DecodeError::BadText),
        }
    } else {
        Err(DecodeError::UnknownTag)
    }
}

proof fn lemma_i32_bits_round_trip(v: i32)
    ensures
        ((v as u32) as i32) == v,
{
    assert(((v as u32) as i32) == v) by (bit_vector);
}

/// The codec is lossless: decoding the encoding of any packet yields that
/// packet again.
pub proof fn lemma_packet_codec_round_trip(p: PacketView)
    ensures
        spec_decode_packet(spec_encode_packet(p)) == Ok::<PacketView, DecodeError>(p),
{
    lemma_auto_spec_u32_to_from_le_bytes();
    lemma_auto_spec_u128_to_from_le_bytes();
    let b = spec_encode_packet(p);
    match p {
        PacketView::SetName(name) => {
            encode_utf8_valid_utf8(name);
            encode_utf8_decode_utf8(name);
            assert(b.subrange(1, b.len() as int) =~= encode_utf8(name));
        },
        PacketView::Logout => {
        },
        PacketView::UpdateComponent(eid, k) => {
            assert(b.subrange(1, 5) =~= spec_u32_to_le_bytes(eid));
            assert(b.subrange(5, 14) =~= spec_encode_component(k));
            let cb = spec_encode_component(k);
            match k {
                ServerComponentKind::Position(pos) => {
                    assert(cb.subrange(1, 5) =~= spec_u32_to_le_bytes(pos.x as u32));
                    assert(cb.subrange(5, 9) =~= spec_u32_to_le_bytes(pos.y as u32));
                    lemma_i32_bits_round_trip(pos.x);
                    lemma_i32_bits_round_trip(pos.y);
                },
                ServerComponentKind::Translate(t) => {
                    assert(cb.subrange(1, 5) =~= spec_u32_to_le_bytes(t.dx as u32));
                    assert(cb.subrange(5, 9) =~= spec_u32_to_le_bytes(t.dy as u32));
                    lemma_i32_bits_round_trip(t.dx);
                    lemma_i32_bits_round_trip(t.dy);
                },
            }
        },
        PacketView::Id(c) => {
            assert(b.subrange(1, b.len() as int) =~= spec_u128_to_le_bytes(c.0));
        },
        PacketView::PlayerConnected(c) => {
            assert(b.subrange(1, b.len() as int) =~= spec_u128_to_le_bytes(c.0));
        },
        PacketView::PlayerDisconnected(c) => {
            assert(b.subrange(1, b.len() as int) =~= spec_u128_to_le_bytes(c.0));
        },
        PacketView::PlayerEntityId(c, eid) => {
            assert(b.subrange(1, 17) =~= spec_u128_to_le_bytes(c.0));
            assert(b.subrange(17, 21) =~= spec_u32_to_le_bytes(eid));
        },
        PacketView::Name(c, name) => {
            encode_utf8_valid_utf8(name);
            encode_utf8_decode_utf8(name);
            assert(b.subrange(1, 17) =~= spec_u128_to_le_bytes(c.0));
            assert(b.subrange(17, b.len() as int) =~= encode_utf8(name));
        },
        PacketView::NameTaken(name) => {
            encode_utf8_valid_utf8(name);
            encode_utf8_decode_utf8(name);
            assert(b.subrange(1, b.len() as int) =~= encode_utf8(name));
        },
    }
}

} // verus!
