//! The outer frame: a VarInt length followed by that many bytes.

use vstd::prelude::*;

use crate::error::{Fault, Result};
use crate::protocol::compression::payload_bytes;
use crate::protocol::cursor::Cursor;
use crate::protocol::packets::Packet;
use crate::protocol::types::{eof_error, protocol_error, write_all, VarInt};
use crate::protocol::wire::{
    lemma_varint_roundtrip, parse_varint, sized_rest, varint_bytes, Parsed,
};
use crate::protocol::MAX_PACKET_SIZE;

verus! {

/// The bytes of a frame: the length of the body as a VarInt, then the body.
pub open spec fn frame_bytes(body: Seq<u8>) -> Seq<u8> {
    varint_bytes(body.len() as int) + body
}

/// Whether a body may travel in a frame: it has at least one byte and at
/// most 2^21 - 1.
pub open spec fn frame_sized(body: Seq<u8>) -> bool {
    1 <= body.len() <= MAX_PACKET_SIZE
}

/// Decoder of a frame: the announced length must be positive and at most
/// 2^21 - 1, and that many bytes must follow.
pub open spec fn parse_frame(bytes: Seq<u8>) -> Parsed<Seq<u8>> {
    match parse_varint(bytes) {
        Err(e) => Err(e),
        Ok((length, rest)) => if length <= 0 || length > MAX_PACKET_SIZE {
            Err(Fault::Malformed)
        } else if rest.len() < length {
            Err(Fault::Truncated)
        } else {
            Ok((rest.take(length), rest.skip(length)))
        },
    }
}

/// A frame is decoded to its body, and the decoder stops exactly where the
/// frame ends. So of two frames in a row the decoder reads the first and is
/// left with the second.
pub proof fn lemma_frame_roundtrip(body: Seq<u8>, tail: Seq<u8>)
    requires
        frame_sized(body),
    ensures
        parse_frame(frame_bytes(body) + tail) == Ok::<(Seq<u8>, Seq<u8>), Fault>((body, tail)),
{
    let rest = body + tail;
    assert(frame_bytes(body) + tail =~= varint_bytes(body.len() as int) + rest);
    lemma_varint_roundtrip(body.len() as int, rest);
    assert(rest.take(body.len() as int) =~= body);
    assert(rest.skip(body.len() as int) =~= tail);
}

/// Two frames in a row are decoded as the two bodies, in order.
pub proof fn lemma_two_frames(first: Seq<u8>, second: Seq<u8>)
    requires
        frame_sized(first),
        frame_sized(second),
    ensures
        parse_frame(frame_bytes(first) + frame_bytes(second)) == Ok::<(Seq<u8>, Seq<u8>), Fault>(
            (first, frame_bytes(second)),
        ),
        parse_frame(frame_bytes(second)) == Ok::<(Seq<u8>, Seq<u8>), Fault>(
            (second, Seq::<u8>::empty()),
        ),
{
    lemma_frame_roundtrip(first, frame_bytes(second));
    lemma_frame_roundtrip(second, Seq::<u8>::empty());
    assert(frame_bytes(second) + Seq::<u8>::empty() =~= frame_bytes(second));
}

/// A frame that lost its last byte is never decoded: the decoder reports
/// that the input ended early.
pub proof fn lemma_truncated_frame(body: Seq<u8>)
    requires
        frame_sized(body),
    ensures
        parse_frame(frame_bytes(body).drop_last()) == Err::<(Seq<u8>, Seq<u8>), Fault>(
            Fault::Truncated,
        ),
{
    let short = body.drop_last();
    assert(frame_bytes(body).drop_last() =~= varint_bytes(body.len() as int) + short);
    lemma_varint_roundtrip(body.len() as int, short);
}

/// A frame that lost any number of trailing bytes, but not all of them, is
/// never decoded.
pub proof fn lemma_cut_frame(body: Seq<u8>, kept: int)
    requires
        frame_sized(body),
        varint_bytes(body.len() as int).len() <= kept < frame_bytes(body).len(),
    ensures
        parse_frame(frame_bytes(body).take(kept)) == Err::<(Seq<u8>, Seq<u8>), Fault>(
            Fault::Truncated,
        ),
{
    let head = varint_bytes(body.len() as int);
    let short = body.take(kept - head.len());
    assert(frame_bytes(body).take(kept) =~= head + short);
    lemma_varint_roundtrip(body.len() as int, short);
}

/// A frame that was decoded took up at least two bytes, and what is left is
/// the end of the input.
pub proof fn lemma_parse_frame_prefix(bytes: Seq<u8>)
    requires
        parse_frame(bytes) is Ok,
    ensures
        ({
            let body = parse_frame(bytes)->Ok_0.0;
            let rest = parse_frame(bytes)->Ok_0.1;
            &&& frame_sized(body)
            &&& rest.len() + 2 <= bytes.len()
            &&& rest.len() + body.len() < bytes.len()
            &&& rest == bytes.skip(bytes.len() - rest.len())
        }),
{
    crate::protocol::wire::lemma_parse_varint_prefix(bytes);
    let after_length = parse_varint(bytes)->Ok_0.1;
    let length = parse_varint(bytes)->Ok_0.0;
    let rest = parse_frame(bytes)->Ok_0.1;
    assert(rest =~= bytes.skip(bytes.len() - rest.len()));
}

/// The frame of a packet sent without compression: its id and fields,
/// behind their length.
pub open spec fn packet_frame<P: Packet>(v: P::V) -> Seq<u8> {
    frame_bytes(payload_bytes(P::spec_id() as int, P::wire(v)))
}

/// What the decoder of a connection without compression makes of the body
/// of a frame: a packet id and the bytes of the fields.
pub open spec fn parse_payload(body: Seq<u8>) -> Parsed<int> {
    parse_varint(body)
}

/// Decoding the frame of a packet gives back its id and exactly the bytes
/// of its fields, which in turn decode to the packet.
pub proof fn lemma_packet_frame_roundtrip<P: Packet>(v: P::V, tail: Seq<u8>)
    requires
        P::encodable(v),
        frame_sized(payload_bytes(P::spec_id() as int, P::wire(v))),
    ensures
        parse_frame(packet_frame::<P>(v) + tail) == Ok::<(Seq<u8>, Seq<u8>), Fault>(
            (payload_bytes(P::spec_id() as int, P::wire(v)), tail),
        ),
        parse_payload(payload_bytes(P::spec_id() as int, P::wire(v))) == Ok::<(int, Seq<u8>), Fault>(
            (P::spec_id() as int, P::wire(v)),
        ),
        P::parse(P::wire(v)) == Ok::<(P::V, Seq<u8>), Fault>((v, Seq::<u8>::empty())),
{
    let payload = payload_bytes(P::spec_id() as int, P::wire(v));
    lemma_frame_roundtrip(payload, tail);
    lemma_varint_roundtrip(P::spec_id() as int, P::wire(v));
    P::lemma_roundtrip(v, Seq::<u8>::empty());
    assert(P::wire(v) + Seq::<u8>::empty() =~= P::wire(v));
}

/// What reading a frame leaves unread, whether one is read or not: a
/// length that is refused, or that announces more than is there, leaves all
/// that follows the length field.
pub open spec fn frame_rest(bytes: Seq<u8>) -> Seq<u8> {
    sized_rest(bytes, 1, MAX_PACKET_SIZE as int)
}

/// Reads one frame and returns its body. When the frame is refused for its
/// length, or is not complete, nothing behind the length field is read.
pub fn read_frame<'a>(reader: &mut Cursor<'a>) -> (r: Result<&'a [u8]>)
    ensures
        final(reader).follows(*old(reader)),
        final(reader)@ == frame_rest(old(reader)@),
        match r {
            Ok(body) => parse_frame(old(reader)@) == Ok::<(Seq<u8>, Seq<u8>), Fault>(
                (body@, final(reader)@),
            ),
            Err(e) => parse_frame(old(reader)@) is Err && e.fault() == Some(
                parse_frame(old(reader)@)->Err_0,
            ),
        },
{
    let packet_length = VarInt::read(reader)?;
    if packet_length.0 < 0 {
        return Err(protocol_error("negative packet length"));
    }
    let length = packet_length.0 as usize;
    if length == 0 {
        return Err(protocol_error("zero packet length"));
    }
    if length > MAX_PACKET_SIZE {
        return Err(protocol_error("packet too large"));
    }
    match reader.take(length) {
        None => Err(eof_error()),
        Some(body) => Ok(body),
    }
}

/// Appends the frame of `body` to `out`, or fails when the body is longer
/// than a VarInt can announce.
pub fn write_frame(body: &[u8], out: &mut Vec<u8>) -> (r: Result<()>)
    ensures
        r is Ok <==> body@.len() <= 0x7fff_ffff,
        r is Ok ==> final(out)@ == old(out)@ + frame_bytes(body@),
        r matches Err(e) ==> final(out)@ == old(out)@ && e.fault() == Some(Fault::Malformed),
{
    if body.len() > 0x7fff_ffff {
        return Err(protocol_error("packet too long for its length field"));
    }
    let _ = VarInt(body.len() as i32).write(out);
    write_all(out, body);
    assert(out@ =~= old(out)@ + frame_bytes(body@));
    Ok(())
}

} // verus!
