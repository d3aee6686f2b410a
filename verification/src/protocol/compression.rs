//! Packet compression: the double-length framing and the zlib streams
//! behind it.

use vstd::prelude::*;
use vstd::slice::slice_to_vec;

use crate::error::{Fault, Result, ServerError};
use crate::protocol::cursor::Cursor;
use crate::protocol::types::{protocol_error, refuses, write_all, VarInt};
use crate::protocol::wire::{
    lemma_varint_len, lemma_varint_roundtrip, parse_varint, varint_bytes, Parsed,
};
use crate::protocol::{MAX_PACKET_SIZE, MAX_UNCOMPRESSED_PACKET_SIZE};

verus! {

#[verifier::external_type_specification]
#[verifier::external_body]
pub struct ExCompress(flate2::Compress);

#[verifier::external_type_specification]
#[verifier::external_body]
pub struct ExDecompress(flate2::Decompress);

#[verifier::external_type_specification]
#[verifier::external_body]
pub struct ExCompressError(flate2::CompressError);

#[verifier::external_type_specification]
#[verifier::external_body]
pub struct ExDecompressError(flate2::DecompressError);

/// The bytes that a compressor has taken in since it was made or reset.
pub uninterp spec fn deflate_in(c: flate2::Compress) -> Seq<u8>;

/// The bytes that a compressor has given out since it was made or reset.
pub uninterp spec fn deflate_out(c: flate2::Compress) -> Seq<u8>;

/// Whether a compressor writes the zlib header and trailer around its
/// deflate stream.
pub uninterp spec fn deflate_has_header(c: flate2::Compress) -> bool;

/// The bytes that a decompressor has taken in since it was made or reset.
pub uninterp spec fn inflate_in(d: flate2::Decompress) -> Seq<u8>;

/// The bytes that a decompressor has given out since it was made or reset.
pub uninterp spec fn inflate_out(d: flate2::Decompress) -> Seq<u8>;

/// Whether a decompressor expects the zlib header and trailer around the
/// deflate stream.
pub uninterp spec fn inflate_has_header(d: flate2::Decompress) -> bool;

/// The data that a complete zlib stream (header, deflate blocks, Adler-32
/// trailer) decodes to; nothing for bytes that are no such stream.
pub uninterp spec fn zlib_inflate(stream: Seq<u8>) -> Option<Seq<u8>>;

/// `Compress::new` with the default level and the zlib header: a compressor
/// that has taken in and given out nothing.
#[verifier::external_body]
fn new_compressor() -> (c: flate2::Compress)
    ensures
        deflate_in(c) == Seq::<u8>::empty(),
        deflate_out(c) == Seq::<u8>::empty(),
        deflate_has_header(c),
{
    flate2::Compress::new(flate2::Compression::default(), true)
}

/// `Compress::reset` forgets what was taken in and given out and keeps the
/// header setting.
pub assume_specification[ flate2::Compress::reset ](c: &mut flate2::Compress)
    ensures
        deflate_in(*final(c)) == Seq::<u8>::empty(),
        deflate_out(*final(c)) == Seq::<u8>::empty(),
        deflate_has_header(*final(c)) == deflate_has_header(*old(c)),
;

/// `Compress::total_in` counts the bytes taken in.
pub assume_specification[ flate2::Compress::total_in ](c: &flate2::Compress) -> (n: u64)
    ensures
        n == deflate_in(*c).len(),
;

/// `Compress::total_out` counts the bytes given out.
pub assume_specification[ flate2::Compress::total_out ](c: &flate2::Compress) -> (n: u64)
    ensures
        n == deflate_out(*c).len(),
;

/// `Decompress::new` makes a decompressor that has taken in and given out
/// nothing, with the header setting asked for.
pub assume_specification[ flate2::Decompress::new ](zlib_header: bool) -> (d: flate2::Decompress)
    ensures
        inflate_in(d) == Seq::<u8>::empty(),
        inflate_out(d) == Seq::<u8>::empty(),
        inflate_has_header(d) == zlib_header,
;

/// `Decompress::reset` forgets what was taken in and given out and takes
/// the header setting asked for.
pub assume_specification[ flate2::Decompress::reset ](
    d: &mut flate2::Decompress,
    zlib_header: bool,
)
    ensures
        inflate_in(*final(d)) == Seq::<u8>::empty(),
        inflate_out(*final(d)) == Seq::<u8>::empty(),
        inflate_has_header(*final(d)) == zlib_header,
;

/// `Decompress::total_in` counts the bytes taken in.
pub assume_specification[ flate2::Decompress::total_in ](d: &flate2::Decompress) -> (n: u64)
    ensures
        n == inflate_in(*d).len(),
;

/// `Decompress::total_out` counts the bytes given out.
pub assume_specification[ flate2::Decompress::total_out ](d: &flate2::Decompress) -> (n: u64)
    ensures
        n == inflate_out(*d).len(),
;

/// The zlib stream that a compressor of the default level writes for
/// `data` when it starts afresh, is given all of `data` at once and is told
/// to finish.
pub uninterp spec fn zlib_deflate(data: Seq<u8>) -> Seq<u8>;

/// What a zlib stream reports after a step.
#[derive(Debug, Clone, Copy, PartialEq, Eq, Structural)]
pub enum StreamStatus {
    /// The step went well; more may be needed.
    Continue,
    /// No progress was possible with the buffers given.
    BufError,
    /// The stream is complete.
    StreamEnd,
}

/// One call of `Compress::compress` that hands a compressor which has taken
/// in nothing yet the whole `input` and tells it to finish, writing into
/// `output` from index `at` on. The call does not fail. The bytes before
/// `at` and the length of `output` stay. The call reports the end of the
/// stream only when all of the stream found room: then the compressor has
/// taken in all of `input`, and what it stored from `at` on is the zlib
/// stream of `input`, which inflates to `input`. Otherwise the room was
/// used up, so the stream is at least as long as the room.
#[verifier::external_body]
fn deflate_into(c: &mut flate2::Compress, input: &[u8], output: &mut Vec<u8>, at: usize) -> (r:
    core::result::Result<StreamStatus, flate2::CompressError>)
    requires
        at < old(output)@.len(),
        deflate_has_header(*old(c)),
        deflate_in(*old(c)).len() == 0,
        deflate_out(*old(c)).len() == 0,
    ensures
        r is Ok,
        final(output)@.len() == old(output)@.len(),
        final(output)@.take(at as int) == old(output)@.take(at as int),
        deflate_has_header(*final(c)),
        r matches Ok(StreamStatus::StreamEnd) ==> {
            &&& deflate_in(*final(c)) == input@
            &&& deflate_out(*final(c)) == zlib_deflate(input@)
            &&& at + zlib_deflate(input@).len() <= old(output)@.len()
            &&& final(output)@.subrange(at as int, at + zlib_deflate(input@).len())
                == zlib_deflate(input@)
            &&& zlib_inflate(deflate_out(*final(c))) == Some(input@)
        },
        !(r matches Ok(StreamStatus::StreamEnd)) ==> zlib_deflate(input@).len() >= old(output)@.len()
            - at,
{
    match c.compress(input, &mut output[at..], flate2::FlushCompress::Finish) {
        Ok(flate2::Status::Ok) => Ok(StreamStatus::Continue),
        Ok(flate2::Status::BufError) => Ok(StreamStatus::BufError),
        Ok(flate2::Status::StreamEnd) => Ok(StreamStatus::StreamEnd),
        Err(e) => Err(e),
    }
}

/// One call of `Decompress::decompress` without flushing that hands a
/// decompressor which has taken in nothing yet the whole `input`, writing
/// into `output` from index `at` on. The bytes before `at` and the length of
/// `output` stay. The decompressor takes in a prefix of `input` and stores
/// what it gives out from `at` on. When it reports the end of the stream,
/// what it took in is a zlib stream of what it gave out. When `input` is a
/// complete zlib stream, the call does not fail; it reports the end of the
/// stream whenever the data is shorter than the room, and only after it has
/// taken in all of `input` and given out all of the data.
#[verifier::external_body]
fn inflate_into(d: &mut flate2::Decompress, input: &[u8], output: &mut Vec<u8>, at: usize) -> (r:
    core::result::Result<StreamStatus, flate2::DecompressError>)
    requires
        at < old(output)@.len(),
        inflate_has_header(*old(d)),
        inflate_in(*old(d)).len() == 0,
        inflate_out(*old(d)).len() == 0,
    ensures
        final(output)@.len() == old(output)@.len(),
        final(output)@.take(at as int) == old(output)@.take(at as int),
        inflate_has_header(*final(d)),
        inflate_in(*final(d)).len() <= input@.len(),
        inflate_in(*final(d)) == input@.take(inflate_in(*final(d)).len() as int),
        at + inflate_out(*final(d)).len() <= old(output)@.len(),
        inflate_out(*final(d)) == final(output)@.subrange(
            at as int,
            at + inflate_out(*final(d)).len(),
        ),
        r matches Ok(StreamStatus::StreamEnd) ==> zlib_inflate(inflate_in(*final(d))) == Some(
            inflate_out(*final(d)),
        ),
        zlib_inflate(input@) matches Some(data) ==> {
            &&& r is Ok
            &&& r matches Ok(StreamStatus::StreamEnd) ==> inflate_in(*final(d)) == input@
                && inflate_out(*final(d)) == data
            &&& at + data.len() < old(output)@.len() ==> r matches Ok(StreamStatus::StreamEnd)
        },
{
    match d.decompress(input, &mut output[at..], flate2::FlushDecompress::None) {
        Ok(flate2::Status::Ok) => Ok(StreamStatus::Continue),
        Ok(flate2::Status::BufError) => Ok(StreamStatus::BufError),
        Ok(flate2::Status::StreamEnd) => Ok(StreamStatus::StreamEnd),
        Err(e) => Err(e),
    }
}

/// The inner payload of a packet: its id as a VarInt, then its fields.
pub open spec fn payload_bytes(packet_id: int, fields: Seq<u8>) -> Seq<u8> {
    varint_bytes(packet_id) + fields
}

/// Whether `body` is the deflated framing of `payload`: the length of the
/// payload as a VarInt, then a zlib stream that inflates to the payload.
pub open spec fn is_deflated_body(body: Seq<u8>, payload: Seq<u8>) -> bool {
    let head = varint_bytes(payload.len() as int);
    &&& head.is_prefix_of(body)
    &&& zlib_inflate(body.skip(head.len() as int)) == Some(payload)
}

/// The deflated framing of a payload: its length as a VarInt, then its
/// zlib stream.
pub open spec fn deflated_body(payload: Seq<u8>) -> Seq<u8> {
    varint_bytes(payload.len() as int) + zlib_deflate(payload)
}

/// The compressed-format framing of a payload under a threshold, if it has
/// one: a zero and the payload itself when the payload is shorter than the
/// threshold, the deflated framing otherwise. A payload above 2^23 bytes
/// has none, nor one whose deflated framing exceeds 2^21 - 1 bytes.
pub open spec fn framed_body(payload: Seq<u8>, threshold: u32) -> Option<Seq<u8>> {
    if payload.len() > MAX_UNCOMPRESSED_PACKET_SIZE {
        None
    } else if payload.len() < threshold {
        Some(varint_bytes(0) + payload)
    } else if deflated_body(payload).len() <= MAX_PACKET_SIZE {
        Some(deflated_body(payload))
    } else {
        None
    }
}

/// Whether `body` is the compressed-format framing of `payload` under a
/// threshold: literal after a zero when the payload is shorter than the
/// threshold, deflated otherwise.
pub open spec fn is_compressed_body(body: Seq<u8>, payload: Seq<u8>, threshold: u32) -> bool {
    if payload.len() < threshold {
        body == varint_bytes(0) + payload
    } else {
        is_deflated_body(body, payload) && body.len() <= MAX_PACKET_SIZE
    }
}

/// Whether a result carries the packet id and fields that `expected` spells,
/// or reports the fault that `expected` is.
pub open spec fn unpacks(r: Result<(VarInt, Vec<u8>)>, expected: Parsed<int>) -> bool {
    match r {
        Ok((id, fields)) => expected == Ok::<(int, Seq<u8>), Fault>((id@, fields@)),
        Err(e) => expected is Err && e.fault() == Some(expected->Err_0),
    }
}

/// What the decoder makes of a literal body: refused when its length
/// reaches the threshold, split into packet id and fields otherwise.
pub open spec fn parse_literal(body: Seq<u8>, threshold: u32) -> Parsed<int> {
    if body.len() >= threshold {
        Err(Fault::Malformed)
    } else {
        parse_varint(body)
    }
}

/// What the decoder makes of inflated bytes: refused unless there are
/// exactly as many as announced, split into packet id and fields otherwise.
pub open spec fn parse_inflated(payload: Seq<u8>, announced: nat) -> Parsed<int> {
    if payload.len() != announced {
        Err(Fault::Malformed)
    } else {
        parse_varint(payload)
    }
}

/// Whether an announced uncompressed length is acceptable: positive, at
/// most 2^23, and not below the threshold.
pub open spec fn length_acceptable(announced: int, threshold: u32) -> bool {
    0 < announced <= MAX_UNCOMPRESSED_PACKET_SIZE && announced >= threshold
}

/// What opening the body of a frame comes to: a packet id and the bytes of
/// the fields, or a refusal, with the fault that it reports if it reports
/// one.
pub type Opened = core::result::Result<(int, Seq<u8>), Option<Fault>>;

/// What a decoder made of a payload, as the outcome of opening a body.
pub open spec fn opened_as(p: Parsed<int>) -> Opened {
    match p {
        Ok(packet) => Ok(packet),
        Err(fault) => Err(Some(fault)),
    }
}

/// What opening the body `data` of a compressed-format frame comes to under
/// a threshold. A body that does not start with a VarInt is refused with
/// the fault of that VarInt. A zero announces a literal payload. Any other
/// announced length must be acceptable; then the rest is inflated, and what
/// comes out must be exactly as long as announced and start with the packet
/// id. A rest that is no zlib stream is refused.
pub open spec fn opened_compressed(data: Seq<u8>, threshold: u32) -> Opened {
    match parse_varint(data) {
        Err(fault) => Err(Some(fault)),
        Ok((announced, rest)) => if announced == 0 {
            opened_as(parse_literal(rest, threshold))
        } else if !length_acceptable(announced, threshold) {
            Err(Some(Fault::Malformed))
        } else {
            match zlib_inflate(rest) {
                Some(payload) => opened_as(parse_inflated(payload, announced as nat)),
                None => Err(None),
            }
        },
    }
}

/// Whether a result is what opening a body comes to: the packet id and the
/// fields, or a failure that reports the fault, if one is to be reported.
pub open spec fn opens(r: Result<(VarInt, Vec<u8>)>, expected: Opened) -> bool {
    match expected {
        Ok((id, fields)) => r matches Ok((i, f)) && i@ == id && f@ == fields,
        Err(Some(fault)) => refuses(r, fault),
        Err(None) => r is Err,
    }
}

/// Whether `r` is what opening the body `data` of a compressed-format frame
/// comes to under a threshold.
pub open spec fn opens_compressed(r: Result<(VarInt, Vec<u8>)>, data: Seq<u8>, threshold: u32) -> bool {
    opens(r, opened_compressed(data, threshold))
}

/// Whether the body of a compressed-format frame holds the packet with the
/// given id and fields under a threshold: as a literal payload shorter than
/// the threshold behind a zero, or as a zlib stream of the payload behind
/// its acceptable length.
pub open spec fn holds_packet(body: Seq<u8>, threshold: u32, id: int, fields: Seq<u8>) -> bool {
    opened_compressed(body, threshold) == Ok::<(int, Seq<u8>), Option<Fault>>((id, fields))
}

/// Splits a payload into packet id and fields.
pub fn split_payload(payload: &[u8]) -> (r: Result<(VarInt, Vec<u8>)>)
    ensures
        unpacks(r, parse_varint(payload@)),
{
    let mut cursor = Cursor::new(payload);
    let packet_id = VarInt::read(&mut cursor)?;
    let fields = slice_to_vec(cursor.rest());
    Ok((packet_id, fields))
}

/// Unpacks a body that was sent without compression inside the compressed
/// framing. A literal body as long as the threshold or longer is refused:
/// it would have been deflated.
pub fn unpack_literal(body: &[u8], threshold: u32) -> (r: Result<(VarInt, Vec<u8>)>)
    ensures
        unpacks(r, parse_literal(body@, threshold)),
{
    if body.len() >= threshold as usize {
        return Err(protocol_error("uncompressed packet reaches the compression threshold"));
    }
    split_payload(body)
}

/// Unpacks what a zlib stream inflated to, given the length that the frame
/// announced for it.
pub fn unpack_inflated(payload: &[u8], announced: usize) -> (r: Result<(VarInt, Vec<u8>)>)
    ensures
        unpacks(r, parse_inflated(payload@, announced as nat)),
{
    if payload.len() != announced {
        return Err(protocol_error("decompressed length differs from the announced length"));
    }
    split_payload(payload)
}

/// Checks the uncompressed length that a deflated frame announces.
pub fn check_announced_length(announced: i32, threshold: u32) -> (r: Result<usize>)
    ensures
        r is Ok <==> length_acceptable(announced as int, threshold),
        r matches Ok(n) ==> n == announced,
        r matches Err(e) ==> e.fault() == Some(Fault::Malformed),
{
    if announced <= 0 {
        return Err(protocol_error("data length of a compressed packet is not positive"));
    }
    let length = announced as usize;
    if length > MAX_UNCOMPRESSED_PACKET_SIZE {
        return Err(protocol_error("uncompressed length too large"));
    }
    if length < threshold as usize {
        return Err(protocol_error("compressed packet below threshold"));
    }
    Ok(length)
}

/// Deflates `payload` into `room` bytes after resetting the compressor:
/// the zlib stream of the payload, unless it is longer than the room.
fn deflate_within(compressor: &mut flate2::Compress, payload: &[u8], room: usize) -> (r: Option<
    Vec<u8>,
>)
    requires
        deflate_has_header(*old(compressor)),
        room >= 1,
    ensures
        deflate_has_header(*final(compressor)),
        r matches Some(stream) ==> stream@ == zlib_deflate(payload@) && stream@.len() <= room
            && zlib_inflate(stream@) == Some(payload@),
        r is None ==> zlib_deflate(payload@).len() >= room,
{
    compressor.reset();
    let mut buffer: Vec<u8> = vec![0u8; room];
    match deflate_into(compressor, payload, &mut buffer, 0) {
        Ok(StreamStatus::StreamEnd) => {
            let written = compressor.total_out() as usize;
            let ghost filled = buffer@;
            buffer.truncate(written);
            assert(buffer@ =~= filled.subrange(0, written as int));
            Some(buffer)
        },
        _ => None,
    }
}

/// Deflates `payload`: its zlib stream, unless that is 2^21 - 1 bytes long
/// or longer. A first attempt leaves the stream a little more room than the
/// payload takes; a stream that does not fit is written again with all the
/// room that a frame can hold.
fn run_deflate(compressor: &mut flate2::Compress, payload: &[u8]) -> (r: Option<Vec<u8>>)
    requires
        deflate_has_header(*old(compressor)),
        payload@.len() <= MAX_UNCOMPRESSED_PACKET_SIZE,
    ensures
        deflate_has_header(*final(compressor)),
        r matches Some(stream) ==> stream@ == zlib_deflate(payload@) && stream@.len()
            < MAX_PACKET_SIZE && zlib_inflate(stream@) == Some(payload@),
        r is None ==> zlib_deflate(payload@).len() >= MAX_PACKET_SIZE,
{
    let first: usize = if payload.len() < MAX_PACKET_SIZE - 64 {
        payload.len() + 64
    } else {
        MAX_PACKET_SIZE
    };
    let stream = match deflate_within(compressor, payload, first) {
        Some(stream) => stream,
        None => {
            if first == MAX_PACKET_SIZE {
                return None;
            }
            match deflate_within(compressor, payload, MAX_PACKET_SIZE) {
                Some(stream) => stream,
                None => {
                    return None;
                },
            }
        },
    };
    if stream.len() >= MAX_PACKET_SIZE {
        return None;
    }
    Some(stream)
}

/// Inflates `stream` after resetting the decompressor: the data of a
/// complete zlib stream, unless it is longer than `limit`.
fn run_inflate(decompressor: &mut flate2::Decompress, stream: &[u8], limit: usize) -> (r: Result<
    Vec<u8>,
>)
    requires
        limit <= MAX_UNCOMPRESSED_PACKET_SIZE,
    ensures
        match zlib_inflate(stream@) {
            Some(data) => if data.len() <= limit {
                r matches Ok(v) && v@ == data
            } else {
                refuses(r, Fault::Malformed)
            },
            None => r is Err,
        },
{
    decompressor.reset(true);
    let mut data: Vec<u8> = vec![0u8; limit + 1];
    match inflate_into(decompressor, stream, &mut data, 0) {
        Ok(StreamStatus::StreamEnd) => {
            let consumed = decompressor.total_in();
            let produced = decompressor.total_out() as usize;
            if consumed != stream.len() as u64 {
                return Err(protocol_error("bytes after the end of the zlib stream"));
            }
            assert(stream@.take(stream@.len() as int) =~= stream@);
            let ghost filled = data@;
            data.truncate(produced);
            assert(data@ =~= filled.subrange(0, produced as int));
            if produced > limit {
                return Err(protocol_error("decompressed data longer than announced"));
            }
            Ok(data)
        },
        Ok(_) => Err(protocol_error("zlib stream is incomplete or longer than announced")),
        Err(_) => Err(ServerError::Decompression),
    }
}

/// The zlib streams of one connection and its compression threshold.
pub struct Compression {
    compressor: Option<flate2::Compress>,
    decompressor: Option<flate2::Decompress>,
    threshold: u32,
}

impl Compression {
    #[verifier::type_invariant]
    spec fn writes_zlib(self) -> bool {
        self.compressor matches Some(c) ==> deflate_has_header(c)
    }

    /// The size from which on payloads are deflated.
    pub closed spec fn spec_threshold(&self) -> u32 {
        self.threshold
    }

    /// A pair of fresh zlib streams with the given threshold.
    pub fn new(threshold: u32) -> (c: Self)
        ensures
            c.spec_threshold() == threshold,
    {
        Self {
            compressor: Some(new_compressor()),
            decompressor: Some(flate2::Decompress::new(true)),
            threshold,
        }
    }

    /// Deflates `payload` with a fresh stream state.
    fn deflate(&mut self, payload: &[u8]) -> (r: Option<Vec<u8>>)
        requires
            payload@.len() <= MAX_UNCOMPRESSED_PACKET_SIZE,
        ensures
            final(self).spec_threshold() == old(self).spec_threshold(),
            r matches Some(stream) ==> stream@ == zlib_deflate(payload@) && stream@.len()
                < MAX_PACKET_SIZE && zlib_inflate(stream@) == Some(payload@),
            r is None ==> zlib_deflate(payload@).len() >= MAX_PACKET_SIZE,
    {
        proof {
            use_type_invariant(&*self);
        }
        let mut slot: Option<flate2::Compress> = None;
        core::mem::swap(&mut self.compressor, &mut slot);
        let mut compressor = match slot {
            Some(c) => c,
            None => new_compressor(),
        };
        let r = run_deflate(&mut compressor, payload);
        self.compressor = Some(compressor);
        r
    }

    /// Inflates a zlib stream of at most `limit` bytes of content, with a
    /// fresh stream state.
    fn inflate(&mut self, stream: &[u8], limit: usize) -> (r: Result<Vec<u8>>)
        requires
            limit <= MAX_UNCOMPRESSED_PACKET_SIZE,
        ensures
            final(self).spec_threshold() == old(self).spec_threshold(),
            match zlib_inflate(stream@) {
                Some(data) => if data.len() <= limit {
                    r matches Ok(v) && v@ == data
                } else {
                    refuses(r, Fault::Malformed)
                },
                None => r is Err,
            },
    {
        proof {
            use_type_invariant(&*self);
        }
        let mut slot: Option<flate2::Decompress> = None;
        core::mem::swap(&mut self.decompressor, &mut slot);
        let mut decompressor = match slot {
            Some(d) => d,
            None => flate2::Decompress::new(true),
        };
        let r = run_inflate(&mut decompressor, stream, limit);
        self.decompressor = Some(decompressor);
        r
    }

    /// Frames a packet for a connection with compression enabled: a zero and
    /// the literal payload when the payload is shorter than the threshold,
    /// the payload length and its zlib stream otherwise. Payloads above
    /// 2^23 bytes and frames above 2^21 - 1 bytes are refused.
    pub fn compress_packet(&mut self, packet_id: VarInt, data: &[u8]) -> (r: Result<Vec<u8>>)
        ensures
            final(self).spec_threshold() == old(self).spec_threshold(),
            match framed_body(payload_bytes(packet_id@, data@), old(self).spec_threshold()) {
                Some(body) => r matches Ok(b) && b@ == body,
                None => refuses(r, Fault::Malformed),
            },
            r matches Ok(b) ==> is_compressed_body(
                b@,
                payload_bytes(packet_id@, data@),
                old(self).spec_threshold(),
            ),
    {
        let mut payload: Vec<u8> = Vec::new();
        let _ = packet_id.write(&mut payload);
        proof {
            lemma_varint_len(packet_id@);
        }
        if data.len() > MAX_UNCOMPRESSED_PACKET_SIZE {
            return Err(protocol_error("uncompressed packet too large"));
        }
        write_all(&mut payload, data);
        assert(payload@ =~= payload_bytes(packet_id@, data@));
        let uncompressed_length = payload.len();
        if uncompressed_length > MAX_UNCOMPRESSED_PACKET_SIZE {
            return Err(protocol_error("uncompressed packet too large"));
        }
        let mut result: Vec<u8> = Vec::new();
        if uncompressed_length < self.threshold as usize {
            let _ = VarInt(0).write(&mut result);
            write_all(&mut result, payload.as_slice());
            assert(result@ =~= varint_bytes(0) + payload@);
            return Ok(result);
        }
        proof {
            lemma_varint_len(uncompressed_length as int);
        }
        let stream = match self.deflate(payload.as_slice()) {
            Some(stream) => stream,
            None => {
                return Err(protocol_error("compressed packet too large"));
            },
        };
        let _ = VarInt(uncompressed_length as i32).write(&mut result);
        let ghost head = result@;
        write_all(&mut result, stream.as_slice());
        proof {
            assert(result@ =~= deflated_body(payload@));
            assert(result@.skip(head.len() as int) =~= stream@);
            assert(head.is_prefix_of(result@));
        }
        if result.len() > MAX_PACKET_SIZE {
            return Err(protocol_error("compressed packet too large"));
        }
        Ok(result)
    }

    /// Opens the body of a frame of a connection with compression enabled.
    /// The body starts with the announced uncompressed length. Zero means
    /// that the rest is the literal payload, which must be shorter than the
    /// threshold. Otherwise the length must lie between the threshold and
    /// 2^23, and the rest must be a zlib stream that inflates to exactly
    /// that many bytes.
    pub fn decompress_packet(&mut self, data: &[u8]) -> (r: Result<(VarInt, Vec<u8>)>)
        ensures
            final(self).spec_threshold() == old(self).spec_threshold(),
            opens_compressed(r, data@, old(self).spec_threshold()),
    {
        let mut cursor = Cursor::new(data);
        let data_length = VarInt::read(&mut cursor)?;
        let rest = cursor.rest();
        if data_length.0 == 0 {
            return unpack_literal(rest, self.threshold);
        }
        let announced = check_announced_length(data_length.0, self.threshold)?;
        let payload = self.inflate(rest, announced)?;
        unpack_inflated(payload.as_slice(), announced)
    }

    /// Updates the compression threshold.
    pub fn set_threshold(&mut self, threshold: u32)
        ensures
            final(self).spec_threshold() == threshold,
    {
        proof {
            use_type_invariant(&*self);
        }
        self.threshold = threshold;
    }

    /// The current compression threshold.
    pub fn threshold(&self) -> (t: u32)
        ensures
            t == self.spec_threshold(),
    {
        self.threshold
    }
}

/// A literal body is opened as the packet that was framed: id and fields
/// come back unchanged.
pub proof fn lemma_literal_roundtrip(packet_id: int, fields: Seq<u8>, threshold: u32)
    requires
        -0x8000_0000 <= packet_id < 0x8000_0000,
        payload_bytes(packet_id, fields).len() < threshold,
    ensures
        parse_varint(varint_bytes(0) + payload_bytes(packet_id, fields)) == Ok::<
            (int, Seq<u8>),
            Fault,
        >((0, payload_bytes(packet_id, fields))),
        parse_literal(payload_bytes(packet_id, fields), threshold) == Ok::<(int, Seq<u8>), Fault>(
            (packet_id, fields),
        ),
{
    lemma_varint_roundtrip(0, payload_bytes(packet_id, fields));
    lemma_varint_roundtrip(packet_id, fields);
}

/// A deflated body can only be opened as the packet that was framed: if the
/// zlib stream inflates at all, id and fields come back unchanged.
pub proof fn lemma_deflated_roundtrip(body: Seq<u8>, packet_id: int, fields: Seq<u8>)
    requires
        -0x8000_0000 <= packet_id < 0x8000_0000,
        payload_bytes(packet_id, fields).len() <= MAX_UNCOMPRESSED_PACKET_SIZE,
        is_deflated_body(body, payload_bytes(packet_id, fields)),
    ensures
        ({
            let payload = payload_bytes(packet_id, fields);
            &&& parse_varint(body) == Ok::<(int, Seq<u8>), Fault>(
                (payload.len() as int, body.skip(varint_bytes(payload.len() as int).len() as int)),
            )
            &&& zlib_inflate(body.skip(varint_bytes(payload.len() as int).len() as int)) == Some(
                payload,
            )
            &&& parse_inflated(payload, payload.len()) == Ok::<(int, Seq<u8>), Fault>(
                (packet_id, fields),
            )
        }),
{
    let payload = payload_bytes(packet_id, fields);
    let head = varint_bytes(payload.len() as int);
    let stream = body.skip(head.len() as int);
    assert(body =~= head + stream);
    lemma_varint_roundtrip(payload.len() as int, stream);
    lemma_varint_roundtrip(packet_id, fields);
}

/// What was framed is opened as the packet that was framed: a body that is
/// the framing of a payload holds the packet id and the fields of that
/// payload, and nothing else.
pub proof fn lemma_framed_is_opened(body: Seq<u8>, packet_id: int, fields: Seq<u8>, threshold: u32)
    requires
        -0x8000_0000 <= packet_id < 0x8000_0000,
        payload_bytes(packet_id, fields).len() <= MAX_UNCOMPRESSED_PACKET_SIZE,
        is_compressed_body(body, payload_bytes(packet_id, fields), threshold),
    ensures
        holds_packet(body, threshold, packet_id, fields),
{
    let payload = payload_bytes(packet_id, fields);
    lemma_varint_len(packet_id);
    if payload.len() < threshold {
        lemma_literal_roundtrip(packet_id, fields, threshold);
        assert((varint_bytes(0) + payload).skip(varint_bytes(0).len() as int) =~= payload);
    } else {
        lemma_deflated_roundtrip(body, packet_id, fields);
    }
}

} // verus!
