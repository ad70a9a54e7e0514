use vstd::prelude::*;
use crate::bytes::{append_bytes, copy_range};
use crate::error::ProtoError;
use crate::varint::{varint_bytes, varint_decode, varint_length_bounds, varint_prefix, varint_read, varint_write};

verus! {

/// The zlib stream that flate2 produces for `b` at its fast level.
pub uninterp spec fn deflated(b: Seq<u8>) -> Seq<u8>;

/// The bytes that flate2's zlib decoder produces from the stream `b`.
pub uninterp spec fn inflated(b: Seq<u8>) -> Seq<u8>;

/// Relies on `flate2::write::ZlibEncoder` with `Compression::fast()`: the
/// complete zlib stream for `data`, or `None` where the encoder reports an
/// error. zlib is lossless: flate2's decoder turns the stream back into
/// `data`.
#[verifier::external_body]
fn zlib_compress(data: &[u8]) -> (r: Option<Vec<u8>>)
    ensures
        r matches Some(v) ==> v@ == deflated(data@),
        r matches Some(v) ==> inflated(v@) == data@,
{
    let mut e = flate2::write::ZlibEncoder::new(Vec::new(), flate2::Compression::fast());
    if std::io::Write::write_all(&mut e, data).is_err() {
        return None;
    }
    e.finish().ok()
}

/// Relies on `flate2::read::ZlibDecoder`: everything the zlib stream `data`
/// decodes to, or `None` where the decoder reports an error.
#[verifier::external_body]
fn zlib_decompress(data: &[u8]) -> (r: Option<Vec<u8>>)
    ensures
        r matches Some(v) ==> v@ == inflated(data@),
{
    let mut out = Vec::new();
    match std::io::Read::read_to_end(&mut flate2::read::ZlibDecoder::new(data), &mut out) {
        Ok(_) => Some(out),
        Err(_) => None,
    }
}

/// The largest frame body this codec handles: its length must fit a VarInt
/// together with a short prefix.
pub const MAX_BODY: usize = 0x7fff_fff0;

/// `p` behind its length as a VarInt.
pub open spec fn plain_frame(p: Seq<u8>) -> Seq<u8> {
    varint_bytes(p.len() as i32) + p
}

/// The packet `id` with `payload` after it.
pub open spec fn packet_bytes(id: i32, payload: Seq<u8>) -> Seq<u8> {
    varint_bytes(id) + payload
}

/// Whether a packet of `len` bytes goes out compressed.
pub open spec fn compresses(len: nat, active: bool, threshold: i32) -> bool {
    active && threshold >= 0 && len >= threshold
}

/// The frame body of a packet sent compressed: its uncompressed size, then
/// the compressed bytes.
pub open spec fn compressed_body(p: Seq<u8>, c: Seq<u8>) -> Seq<u8> {
    varint_bytes(p.len() as i32) + c
}

/// The frame body of a packet sent uncompressed while compression is on:
/// a data length of zero, then the packet.
pub open spec fn raw_body(p: Seq<u8>) -> Seq<u8> {
    varint_bytes(0) + p
}

/// The frame that goes out for packet `p`; `None` where the compressed
/// body is too long to frame.
pub open spec fn outbound_frame(p: Seq<u8>, active: bool, threshold: i32) -> Option<Seq<u8>> {
    if !active {
        Some(plain_frame(p))
    } else if compresses(p.len(), active, threshold) {
        if compressed_body(p, deflated(p)).len() > MAX_BODY {
            None
        } else {
            Some(plain_frame(compressed_body(p, deflated(p))))
        }
    } else {
        Some(plain_frame(raw_body(p)))
    }
}

/// The body of the frame at the start of `s` and the number of bytes the
/// frame takes.
pub open spec fn frame_split(s: Seq<u8>) -> Result<(Seq<u8>, nat), ProtoError> {
    match varint_decode(s) {
        None => Err(ProtoError::FramingError),
        Some((len, n)) => if len < 0 || n + len > s.len() {
            Err(ProtoError::FramingError)
        } else {
            Ok((s.subrange(n as int, n + len), (n + len) as nat))
        },
    }
}

/// A packet body split into its id and the bytes after it.
pub open spec fn packet_split(b: Seq<u8>) -> Result<(Seq<u8>, i32), ProtoError> {
    match varint_decode(b) {
        None => Err(ProtoError::FramingError),
        Some((id, n)) => Ok((b.subrange(n as int, b.len() as int), id)),
    }
}

/// What reading the frame at the start of `s` gives: the payload and the
/// packet id.
pub open spec fn read_frame_view(s: Seq<u8>) -> Result<(Seq<u8>, i32), ProtoError> {
    match frame_split(s) {
        Ok((body, _)) => packet_split(body),
        Err(e) => Err(e),
    }
}

/// The packet that a receiver recovers from the whole of `frame`, with
/// compression on or off: the frame body, or with compression on, the body
/// after a data length of zero, or the decompressed rest when it has the
/// declared size.
pub open spec fn received_packet(frame: Seq<u8>, active: bool) -> Option<Seq<u8>> {
    match frame_split(frame) {
        Err(_) => None,
        Ok((body, n)) => if n != frame.len() {
            None
        } else if !active {
            Some(body)
        } else {
            match varint_decode(body) {
                None => None,
                Some((d, k)) => {
                    let rest = body.subrange(k as int, body.len() as int);
                    if d == 0 {
                        Some(rest)
                    } else if d > 0 && inflated(rest).len() == d {
                        Some(inflated(rest))
                    } else {
                        None
                    }
                },
            }
        },
    }
}

proof fn lemma_plain_frame_split(b: Seq<u8>, rest: Seq<u8>)
    requires
        b.len() <= i32::MAX,
    ensures
        frame_split(plain_frame(b) + rest) == Ok::<(Seq<u8>, nat), ProtoError>(
            (b, plain_frame(b).len()),
        ),
{
    let len = b.len() as i32;
    varint_prefix(len, b + rest);
    assert(plain_frame(b) + rest =~= varint_bytes(len) + (b + rest));
    let n = varint_bytes(len).len();
    assert((plain_frame(b) + rest).subrange(n as int, n + len) =~= b);
}

proof fn lemma_body_split(d: i32, tail: Seq<u8>)
    ensures
        varint_decode(varint_bytes(d) + tail) == Some((d, varint_bytes(d).len())),
        (varint_bytes(d) + tail).subrange(
            varint_bytes(d).len() as int,
            (varint_bytes(d) + tail).len() as int,
        ) == tail,
{
    varint_prefix(d, tail);
    assert((varint_bytes(d) + tail).subrange(
        varint_bytes(d).len() as int,
        (varint_bytes(d) + tail).len() as int,
    ) =~= tail);
}

/// Prefixes `packet` with its length as a VarInt.
pub fn packer(packet: Vec<u8>) -> (r: Vec<u8>)
    requires
        packet@.len() <= i32::MAX,
    ensures
        r@ == plain_frame(packet@),
{
    let mut buff = varint_write(packet.len() as i32);
    append_bytes(&mut buff, packet.as_slice());
    buff
}

/// The bytes of packet `id` with `payload`, without a frame.
pub fn packet_body(id: i32, payload: &Vec<u8>) -> (r: Vec<u8>)
    ensures
        r@ == packet_bytes(id, payload@),
{
    let mut buff = varint_write(id);
    append_bytes(&mut buff, payload.as_slice());
    buff
}

/// The frame of packet `id` with `payload`, without compression.
pub fn write_frame(id: i32, payload: &Vec<u8>) -> (r: Vec<u8>)
    requires
        payload@.len() <= MAX_BODY,
    ensures
        r@ == plain_frame(packet_bytes(id, payload@)),
{
    proof {
        varint_length_bounds(id);
    }
    packer(packet_body(id, payload))
}

/// Splits the frame at the start of `data` into its body and the number
/// of bytes the frame takes. Fails when the length prefix is missing,
/// negative, or longer than what follows it.
pub fn frame_body(data: &Vec<u8>) -> (r: Result<(Vec<u8>, usize), ProtoError>)
    ensures
        match frame_split(data@) {
            Ok((b, n)) => r matches Ok((v, m)) && v@ == b && m == n,
            Err(e) => r == Err::<(Vec<u8>, usize), ProtoError>(e),
        },
{
    let (len, n) = match varint_read(data) {
        Ok(p) => p,
        Err(e) => return Err(e),
    };
    if len < 0 || len as usize > data.len() - n {
        return Err(ProtoError::FramingError);
    }
    let end: usize = n + len as usize;
    Ok((copy_range(data, n, end), end))
}

/// Splits a packet body into the bytes after its id and the id.
pub fn split_packet(body: &Vec<u8>) -> (r: Result<(Vec<u8>, i32), ProtoError>)
    ensures
        match packet_split(body@) {
            Ok((p, id)) => r matches Ok((v, i)) && v@ == p && i == id,
            Err(e) => r == Err::<(Vec<u8>, i32), ProtoError>(e),
        },
{
    let (id, n) = match varint_read(body) {
        Ok(p) => p,
        Err(e) => return Err(e),
    };
    Ok((copy_range(body, n, body.len()), id))
}

/// Reads the uncompressed frame at the start of `data`: its payload and
/// its packet id.
pub fn read_frame(data: &Vec<u8>) -> (r: Result<(Vec<u8>, i32), ProtoError>)
    ensures
        match read_frame_view(data@) {
            Ok((p, id)) => r matches Ok((v, i)) && v@ == p && i == id,
            Err(e) => r == Err::<(Vec<u8>, i32), ProtoError>(e),
        },
{
    match frame_body(data) {
        Ok((body, _)) => split_packet(&body),
        Err(e) => Err(e),
    }
}

/// Framing round trip without compression: reading the frame written for
/// `id` and `payload` gives back the payload and the id.
pub proof fn frame_round_trip(id: i32, payload: Seq<u8>)
    requires
        id >= 0,
        payload.len() <= MAX_BODY,
    ensures
        read_frame_view(plain_frame(packet_bytes(id, payload))) == Ok::<(Seq<u8>, i32), ProtoError>(
            (payload, id),
        ),
{
    let body = packet_bytes(id, payload);
    varint_length_bounds(id);
    let len = body.len() as i32;
    varint_prefix(len, body);
    let n = varint_bytes(len).len();
    assert(plain_frame(body).subrange(n as int, n + len) =~= body);
    varint_prefix(id, payload);
    let m = varint_bytes(id).len();
    assert(body.subrange(m as int, body.len() as int) =~= payload);
}

/// Reading a frame stops at its end: with more bytes after the frame
/// written for `id` and `payload`, the reader still gives back the payload
/// and the id, and takes exactly the frame's bytes.
pub proof fn frame_prefix(id: i32, payload: Seq<u8>, rest: Seq<u8>)
    requires
        id >= 0,
        payload.len() <= MAX_BODY,
    ensures
        frame_split(plain_frame(packet_bytes(id, payload)) + rest) == Ok::<(Seq<u8>, nat), ProtoError>(
            (packet_bytes(id, payload), plain_frame(packet_bytes(id, payload)).len()),
        ),
        read_frame_view(plain_frame(packet_bytes(id, payload)) + rest) == Ok::<(Seq<u8>, i32), ProtoError>(
            (payload, id),
        ),
{
    let body = packet_bytes(id, payload);
    varint_length_bounds(id);
    lemma_plain_frame_split(body, rest);
    lemma_body_split(id, payload);
}

/// The frame body of a packet compressed to `compressed`: the packet's
/// uncompressed size, then the compressed bytes.
pub fn frame_compressed(packet_len: usize, compressed: &Vec<u8>) -> (r: Result<Vec<u8>, ProtoError>)
    requires
        packet_len <= i32::MAX,
    ensures
        ({
            let body = varint_bytes(packet_len as i32) + compressed@;
            if body.len() > MAX_BODY {
                r == Err::<Vec<u8>, ProtoError>(ProtoError::FramingError)
            } else {
                r matches Ok(v) && v@ == plain_frame(body)
            }
        }),
{
    let mut body = varint_write(packet_len as i32);
    if compressed.len() > MAX_BODY - body.len() {
        return Err(ProtoError::FramingError);
    }
    append_bytes(&mut body, compressed.as_slice());
    Ok(packer(body))
}

/// The frame that goes out for `packet`. Without compression: the packet
/// behind its length. With compression on, a packet of at least
/// `threshold` bytes is compressed behind its uncompressed size; a shorter
/// one is sent as is behind a data length of zero.
pub fn frame_outbound(packet: &Vec<u8>, compression: bool, threshold: i32) -> (r: Result<Vec<u8>, ProtoError>)
    requires
        packet@.len() <= MAX_BODY,
    ensures
        r matches Ok(v) ==> outbound_frame(packet@, compression, threshold) == Some(v@),
        r matches Err(e) ==> e == ProtoError::FramingError,
        !compresses(packet@.len(), compression, threshold) ==> r is Ok,
        outbound_frame(packet@, compression, threshold) is None ==> r is Err,
        packet@.len() > 0 ==> (r matches Ok(v) ==> received_packet(v@, compression) == Some(packet@)),
{
    if !compression {
        proof {
            lemma_plain_frame_split(packet@, Seq::empty());
            assert(plain_frame(packet@) + Seq::<u8>::empty() =~= plain_frame(packet@));
        }
        return Ok(packer(packet.clone()));
    }
    if threshold >= 0 && packet.len() >= threshold as usize {
        match zlib_compress(packet.as_slice()) {
            Some(c) => {
                let r = frame_compressed(packet.len(), &c);
                proof {
                    let body = varint_bytes(packet@.len() as i32) + c@;
                    if body.len() <= MAX_BODY {
                        lemma_plain_frame_split(body, Seq::empty());
                        assert(plain_frame(body) + Seq::<u8>::empty() =~= plain_frame(body));
                        lemma_body_split(packet@.len() as i32, c@);
                    }
                }
                r
            },
            None => Err(ProtoError::FramingError),
        }
    } else {
        let mut body = varint_write(0);
        append_bytes(&mut body, packet.as_slice());
        proof {
            varint_length_bounds(0);
            lemma_plain_frame_split(body@, Seq::empty());
            assert(plain_frame(body@) + Seq::<u8>::empty() =~= plain_frame(body@));
            lemma_body_split(0, packet@);
        }
        Ok(packer(body))
    }
}

/// Compression threshold boundary: with compression on, a packet of exactly
/// `threshold` bytes is compressed, and one a byte shorter goes out as is
/// behind a data length of zero.
pub proof fn threshold_boundary(at: Seq<u8>, below: Seq<u8>, threshold: i32)
    requires
        threshold >= 1,
        at.len() == threshold,
        below.len() == threshold - 1,
    ensures
        compresses(at.len(), true, threshold),
        !compresses(below.len(), true, threshold),
        outbound_frame(below, true, threshold) == Some(plain_frame(raw_body(below))),
        compressed_body(at, deflated(at)).len() <= MAX_BODY ==> outbound_frame(at, true, threshold)
            == Some(plain_frame(compressed_body(at, deflated(at)))),
{
}

/// Checks a decompressed packet against the size its frame declared.
pub fn check_inflated(declared: i32, data: Vec<u8>) -> (r: Result<Vec<u8>, ProtoError>)
    ensures
        data@.len() == declared ==> r == Ok::<Vec<u8>, ProtoError>(data),
        data@.len() != declared ==> r == Err::<Vec<u8>, ProtoError>(ProtoError::FramingError),
{
    if declared < 0 || data.len() != declared as usize {
        Err(ProtoError::FramingError)
    } else {
        Ok(data)
    }
}

/// Takes the compression sub-frame off a frame body. Without compression
/// the body is the packet. With it, the body starts with a data length: a
/// length of zero means the packet follows as is; otherwise the rest is
/// decompressed and must come to exactly that length.
pub fn unwrap_compression(body: &Vec<u8>, compression: bool) -> (r: Result<Vec<u8>, ProtoError>)
    ensures
        !compression ==> (r matches Ok(v) && v@ == body@),
        compression ==> match varint_decode(body@) {
            None => r == Err::<Vec<u8>, ProtoError>(ProtoError::FramingError),
            Some((d, n)) => {
                let rest = body@.subrange(n as int, body@.len() as int);
                if d == 0 {
                    r matches Ok(v) && v@ == rest
                } else if d < 0 || inflated(rest).len() != d {
                    r == Err::<Vec<u8>, ProtoError>(ProtoError::FramingError)
                } else {
                    (r matches Ok(v) ==> v@ == inflated(rest))
                        && (r matches Err(e) ==> e == ProtoError::FramingError)
                }
            },
        },
{
    if !compression {
        return Ok(body.clone());
    }
    let (declared, n) = match varint_read(body) {
        Ok(p) => p,
        Err(e) => return Err(e),
    };
    let rest = copy_range(body, n, body.len());
    if declared == 0 {
        return Ok(rest);
    }
    if declared < 0 {
        return Err(ProtoError::FramingError);
    }
    match zlib_decompress(rest.as_slice()) {
        Some(v) => check_inflated(declared, v),
        None => Err(ProtoError::FramingError),
    }
}

} // verus!
