//! The RTU wire format: the slave's identifier, the PDU, and a checksum of
//! 16 bit over every byte before it, its low byte first.

use crate::codec::{push_all, Error, Extent};
use crate::frame::rtu::{Header, RequestAdu, ResponseAdu};
use crate::frame::{ExceptionResponse, RequestModel, ResponseModel};
use vstd::prelude::*;
use vstd::slice::slice_subrange;

verus! {

/// One step of the checksum: a shift to the right that folds the bit that
/// falls out back in.
pub open spec fn crc_shift(x: u16) -> u16 {
    if x & 1 == 1 {
        (x >> 1) ^ 0xA001
    } else {
        x >> 1
    }
}

/// The checksum after one more byte: the byte is mixed into the low half,
/// then eight steps follow.
pub open spec fn crc_byte(crc: u16, b: u8) -> u16 {
    crc_shift(
        crc_shift(
            crc_shift(
                crc_shift(crc_shift(crc_shift(crc_shift(crc_shift(crc ^ (b as u16)))))),
            ),
        ),
    )
}

/// The checksum of `bytes`, which starts from `0xFFFF`.
pub open spec fn spec_crc(bytes: Seq<u8>) -> u16
    decreases bytes.len(),
{
    if bytes.len() == 0 {
        0xFFFF
    } else {
        crc_byte(spec_crc(bytes.drop_last()), bytes.last())
    }
}

proof fn lemma_shift_injective(x: u16, y: u16)
    ensures
        crc_shift(x) == crc_shift(y) ==> x == y,
{
    assert((if x & 1u16 == 1u16 {
        (x >> 1u16) ^ 0xA001u16
    } else {
        x >> 1u16
    }) == (if y & 1u16 == 1u16 {
        (y >> 1u16) ^ 0xA001u16
    } else {
        y >> 1u16
    }) ==> x == y) by (bit_vector);
}

proof fn lemma_shifts_injective(x: u16, y: u16)
    ensures
        crc_shift(
            crc_shift(crc_shift(crc_shift(crc_shift(crc_shift(crc_shift(crc_shift(x))))))),
        ) == crc_shift(
            crc_shift(crc_shift(crc_shift(crc_shift(crc_shift(crc_shift(crc_shift(y))))))),
        ) ==> x == y,
{
    let x1 = crc_shift(x);
    let y1 = crc_shift(y);
    let x2 = crc_shift(x1);
    let y2 = crc_shift(y1);
    let x3 = crc_shift(x2);
    let y3 = crc_shift(y2);
    let x4 = crc_shift(x3);
    let y4 = crc_shift(y3);
    let x5 = crc_shift(x4);
    let y5 = crc_shift(y4);
    let x6 = crc_shift(x5);
    let y6 = crc_shift(y5);
    let x7 = crc_shift(x6);
    let y7 = crc_shift(y6);
    lemma_shift_injective(x7, y7);
    lemma_shift_injective(x6, y6);
    lemma_shift_injective(x5, y5);
    lemma_shift_injective(x4, y4);
    lemma_shift_injective(x3, y3);
    lemma_shift_injective(x2, y2);
    lemma_shift_injective(x1, y1);
    lemma_shift_injective(x, y);
}

/// Two checksums that differ still differ after the same byte.
pub proof fn lemma_crc_byte_keeps_states_apart(c: u16, d: u16, b: u8)
    requires
        c != d,
    ensures
        crc_byte(c, b) != crc_byte(d, b),
{
    let w = b as u16;
    lemma_shifts_injective(c ^ w, d ^ w);
    assert((c ^ w) == (d ^ w) ==> c == d) by (bit_vector);
}

/// One checksum differs after two bytes that differ.
pub proof fn lemma_crc_byte_keeps_bytes_apart(c: u16, a: u8, b: u8)
    requires
        a != b,
    ensures
        crc_byte(c, a) != crc_byte(c, b),
{
    let v = a as u16;
    let w = b as u16;
    lemma_shifts_injective(c ^ v, c ^ w);
    assert((c ^ v) == (c ^ w) ==> v == w) by (bit_vector);
}

/// The checksum changes when one byte changes.
pub proof fn lemma_crc_detects_byte(bytes: Seq<u8>, i: int, b: u8)
    requires
        0 <= i < bytes.len(),
        b != bytes[i],
    ensures
        spec_crc(bytes.update(i, b)) != spec_crc(bytes),
    decreases bytes.len(),
{
    let changed = bytes.update(i, b);
    if i == bytes.len() - 1 {
        assert(changed.drop_last() =~= bytes.drop_last());
        lemma_crc_byte_keeps_bytes_apart(spec_crc(bytes.drop_last()), b, bytes[i]);
    } else {
        assert(changed.drop_last() =~= bytes.drop_last().update(i, b));
        lemma_crc_detects_byte(bytes.drop_last(), i, b);
        lemma_crc_byte_keeps_states_apart(
            spec_crc(changed.drop_last()),
            spec_crc(bytes.drop_last()),
            bytes.last(),
        );
    }
}

fn shift(x: u16) -> (y: u16)
    ensures
        y == crc_shift(x),
{
    if x & 1 == 1 {
        (x >> 1) ^ 0xA001
    } else {
        x >> 1
    }
}

/// Computes the checksum of `bytes`.
pub fn crc16(bytes: &[u8]) -> (crc: u16)
    ensures
        crc == spec_crc(bytes@),
{
    let mut crc: u16 = 0xFFFF;
    let mut i: usize = 0;
    while i < bytes.len()
        invariant
            i <= bytes@.len(),
            crc == spec_crc(bytes@.subrange(0, i as int)),
        decreases bytes@.len() - i,
    {
        let x: u16 = crc ^ (bytes[i] as u16);
        proof {
            let next = bytes@.subrange(0, i + 1);
            assert(next.drop_last() =~= bytes@.subrange(0, i as int));
            assert(next.last() == bytes@[i as int]);
        }
        crc = shift(shift(shift(shift(shift(shift(shift(shift(x))))))));
        i += 1;
    }
    assert(bytes@.subrange(0, i as int) =~= bytes@);
    crc
}

/// The slave's identifier and the PDU: what the checksum is computed over.
pub open spec fn spec_body(hdr: Header, pdu: Seq<u8>) -> Seq<u8> {
    seq![hdr.slave_id] + pdu
}

/// The frame that carries the bytes of a PDU to or from a slave.
pub open spec fn spec_frame(hdr: Header, pdu: Seq<u8>) -> Seq<u8> {
    let body = spec_body(hdr, pdu);
    body + seq![(spec_crc(body) % 256) as u8, (spec_crc(body) / 256) as u8]
}

/// The header of a frame and the bytes of its PDU, or why the frame is
/// refused: it is shorter than an identifier and a checksum, or its last two
/// bytes are not the checksum of the bytes before them.
pub open spec fn spec_unframe(bytes: Seq<u8>) -> Result<(Header, Seq<u8>), Error> {
    if bytes.len() < 3 {
        Err(Error::TooShort)
    } else if spec_crc(bytes.subrange(0, bytes.len() - 2)) != bytes[bytes.len() - 2] + 256
        * bytes[bytes.len() - 1] {
        Err(Error::Checksum)
    } else {
        Ok((Header { slave_id: bytes[0] }, bytes.subrange(1, bytes.len() - 2)))
    }
}

/// Puts the slave's identifier before the bytes of a PDU and the checksum
/// behind them.
pub fn frame(hdr: Header, pdu: &[u8]) -> (framed: Vec<u8>)
    ensures
        framed@ == spec_frame(hdr, pdu@),
{
    let mut buf: Vec<u8> = Vec::new();
    buf.push(hdr.slave_id);
    push_all(&mut buf, pdu);
    let crc: u16 = crc16(buf.as_slice());
    buf.push((crc % 256) as u8);
    buf.push((crc / 256) as u8);
    assert(buf@ =~= spec_frame(hdr, pdu@));
    buf
}

/// Takes a frame apart into its header and the bytes of its PDU, after it
/// has computed the checksum anew.
pub fn unframe(bytes: &[u8]) -> (parts: Result<(Header, &[u8]), Error>)
    ensures
        match parts {
            Ok((hdr, pdu)) => spec_unframe(bytes@) == Ok::<(Header, Seq<u8>), Error>((hdr, pdu@)),
            Err(e) => spec_unframe(bytes@) == Err::<(Header, Seq<u8>), Error>(e),
        },
{
    let len: usize = bytes.len();
    if len < 3 {
        return Err(Error::TooShort);
    }
    let crc: u16 = crc16(slice_subrange(bytes, 0, len - 2));
    let lo: u16 = bytes[len - 2] as u16;
    let hi: u16 = bytes[len - 1] as u16;
    if crc != lo + 256 * hi {
        return Err(Error::Checksum);
    }
    let hdr = Header { slave_id: bytes[0] };
    Ok((hdr, slice_subrange(bytes, 1, len - 2)))
}

/// A frame that is taken apart gives the header and the PDU that it was
/// made of.
pub proof fn lemma_frame_round_trip(hdr: Header, pdu: Seq<u8>)
    ensures
        spec_unframe(spec_frame(hdr, pdu)) == Ok::<(Header, Seq<u8>), Error>((hdr, pdu)),
{
    let body = spec_body(hdr, pdu);
    let bytes = spec_frame(hdr, pdu);
    assert(bytes.len() == pdu.len() + 3);
    assert(bytes.subrange(0, bytes.len() - 2) =~= body);
    assert(bytes.subrange(1, bytes.len() - 2) =~= pdu);
    assert(bytes[0] == hdr.slave_id);
}

/// A frame in which any one byte was replaced by another is refused for its
/// checksum.
pub proof fn lemma_changed_byte_refused(hdr: Header, pdu: Seq<u8>, i: int, b: u8)
    requires
        0 <= i < spec_frame(hdr, pdu).len(),
        b != spec_frame(hdr, pdu)[i],
    ensures
        spec_unframe(spec_frame(hdr, pdu).update(i, b)) == Err::<(Header, Seq<u8>), Error>(
            Error::Checksum,
        ),
{
    let body = spec_body(hdr, pdu);
    let bytes = spec_frame(hdr, pdu);
    let changed = bytes.update(i, b);
    let n = bytes.len() as int;
    assert(n == pdu.len() + 3);
    assert(bytes.subrange(0, n - 2) =~= body);
    assert(spec_crc(body) == bytes[n - 2] + 256 * bytes[n - 1]);
    if i < n - 2 {
        assert(changed.subrange(0, n - 2) =~= body.update(i, b));
        lemma_crc_detects_byte(body, i, b);
    } else {
        assert(changed.subrange(0, n - 2) =~= body);
    }
}

/// `bytes` with bit `k` of its byte `i` flipped.
pub open spec fn flip_bit(bytes: Seq<u8>, i: int, k: u8) -> Seq<u8> {
    bytes.update(i, bytes[i] ^ (1u8 << k))
}

/// A frame in which any single bit was flipped is refused for its checksum.
pub proof fn lemma_flipped_bit_refused(hdr: Header, pdu: Seq<u8>, i: int, k: u8)
    requires
        0 <= i < spec_frame(hdr, pdu).len(),
        k < 8,
    ensures
        spec_unframe(flip_bit(spec_frame(hdr, pdu), i, k)) == Err::<(Header, Seq<u8>), Error>(
            Error::Checksum,
        ),
        spec_decode_request(flip_bit(spec_frame(hdr, pdu), i, k)) == Err::<
            (Header, RequestModel),
            Error,
        >(Error::Checksum),
        spec_decode_response(flip_bit(spec_frame(hdr, pdu), i, k)) == Err::<
            (Header, Result<ResponseModel, ExceptionResponse>),
            Error,
        >(Error::Checksum),
{
    let b = spec_frame(hdr, pdu)[i];
    assert(k < 8 ==> b ^ (1u8 << k) != b) by (bit_vector);
    lemma_changed_byte_refused(hdr, pdu, i, b ^ (1u8 << k));
}

/// The extent of a frame whose PDU has the extent `pdu`: the slave's
/// identifier and the checksum take three bytes more.
pub open spec fn framed_extent(pdu: Extent) -> Extent {
    match pdu {
        Extent::Len(n) => Extent::Len((n + 3) as usize),
        other => other,
    }
}

/// Where the request frame ends that `bytes` begin with.
pub open spec fn spec_request_frame_extent(bytes: Seq<u8>) -> Extent {
    if bytes.len() == 0 {
        Extent::Incomplete
    } else {
        framed_extent(crate::codec::spec_request_extent(bytes.subrange(1, bytes.len() as int)))
    }
}

/// Where the response frame ends that `bytes` begin with.
pub open spec fn spec_response_frame_extent(bytes: Seq<u8>) -> Extent {
    if bytes.len() == 0 {
        Extent::Incomplete
    } else {
        framed_extent(crate::codec::spec_response_extent(bytes.subrange(1, bytes.len() as int)))
    }
}

fn framed(pdu: Extent) -> (extent: Extent)
    requires
        pdu matches Extent::Len(n) ==> n <= 1000,
    ensures
        extent == framed_extent(pdu),
{
    match pdu {
        Extent::Len(n) => Extent::Len(n + 3),
        other => other,
    }
}

/// Tells where the request frame ends that a stream of bytes begins with.
pub fn request_frame_extent(bytes: &[u8]) -> (extent: Extent)
    ensures
        extent == spec_request_frame_extent(bytes@),
{
    let len: usize = bytes.len();
    if len == 0 {
        return Extent::Incomplete;
    }
    framed(crate::codec::request_extent(slice_subrange(bytes, 1, len)))
}

/// Tells where the response frame ends that a stream of bytes begins with.
pub fn response_frame_extent(bytes: &[u8]) -> (extent: Extent)
    ensures
        extent == spec_response_frame_extent(bytes@),
{
    let len: usize = bytes.len();
    if len == 0 {
        return Extent::Incomplete;
    }
    framed(crate::codec::response_extent(slice_subrange(bytes, 1, len)))
}

/// Whatever follows the frame of a request in a stream, the frame's end is
/// found where the frame ends, unless the request is a custom one.
pub proof fn lemma_request_frame_extent(hdr: Header, req: RequestModel, rest: Seq<u8>)
    requires
        crate::codec::request_fits(req),
        !(req is Custom),
    ensures
        spec_request_frame_extent(spec_encode_request(hdr, req) + rest) == Extent::Len(
            spec_encode_request(hdr, req).len() as usize,
        ),
{
    let pdu = crate::codec::spec_encode_request(req);
    let body = spec_body(hdr, pdu);
    let stream = spec_encode_request(hdr, req) + rest;
    let tail = seq![(spec_crc(body) % 256) as u8, (spec_crc(body) / 256) as u8] + rest;
    assert(stream.subrange(1, stream.len() as int) =~= pdu + tail);
    crate::codec::lemma_request_extent(req, tail);
}

/// Whatever follows the frame of a response or an exception in a stream,
/// the frame's end is found where the frame ends, unless the response is a
/// custom one.
pub proof fn lemma_response_frame_extent(
    hdr: Header,
    outcome: Result<ResponseModel, ExceptionResponse>,
    rest: Seq<u8>,
)
    requires
        crate::codec::response_fits(outcome),
        !(outcome matches Ok(ResponseModel::Custom(_, _))),
    ensures
        spec_response_frame_extent(spec_encode_response(hdr, outcome) + rest) == Extent::Len(
            spec_encode_response(hdr, outcome).len() as usize,
        ),
{
    let pdu = crate::codec::spec_encode_response(outcome);
    let body = spec_body(hdr, pdu);
    let stream = spec_encode_response(hdr, outcome) + rest;
    let tail = seq![(spec_crc(body) % 256) as u8, (spec_crc(body) / 256) as u8] + rest;
    assert(stream.subrange(1, stream.len() as int) =~= pdu + tail);
    crate::codec::lemma_response_extent(outcome, tail);
}

/// The frame of a request data unit.
pub open spec fn spec_encode_request(hdr: Header, req: RequestModel) -> Seq<u8> {
    spec_frame(hdr, crate::codec::spec_encode_request(req))
}

/// The frame of a response data unit.
pub open spec fn spec_encode_response(
    hdr: Header,
    outcome: Result<ResponseModel, ExceptionResponse>,
) -> Seq<u8> {
    spec_frame(hdr, crate::codec::spec_encode_response(outcome))
}

/// The request data unit that a frame holds, or why it holds none.
pub open spec fn spec_decode_request(bytes: Seq<u8>) -> Result<(Header, RequestModel), Error> {
    match spec_unframe(bytes) {
        Err(e) => Err(e),
        Ok((hdr, pdu)) => match crate::codec::spec_decode_request(pdu) {
            Err(e) => Err(e),
            Ok(req) => Ok((hdr, req)),
        },
    }
}

/// The response data unit that a frame holds, or why it holds none.
pub open spec fn spec_decode_response(bytes: Seq<u8>) -> Result<
    (Header, Result<ResponseModel, ExceptionResponse>),
    Error,
> {
    match spec_unframe(bytes) {
        Err(e) => Err(e),
        Ok((hdr, pdu)) => match crate::codec::spec_decode_response(pdu) {
            Err(e) => Err(e),
            Ok(outcome) => Ok((hdr, outcome)),
        },
    }
}

/// Encodes a request data unit. It fails exactly when a counter on the wire
/// cannot count what the request carries.
pub fn encode_request(adu: &RequestAdu) -> (encoded: Result<Vec<u8>, Error>)
    ensures
        crate::codec::request_fits(adu.pdu@) ==> encoded is Ok && encoded->Ok_0@
            == spec_encode_request(adu.hdr, adu.pdu@),
        !crate::codec::request_fits(adu.pdu@) ==> encoded is Err && encoded->Err_0
            == Error::TooLong,
{
    match crate::codec::encode_request(&adu.pdu.0) {
        Err(e) => Err(e),
        Ok(pdu) => Ok(frame(adu.hdr, pdu.as_slice())),
    }
}

/// Encodes a response data unit. It fails exactly when a counter on the wire
/// cannot count what the response carries.
pub fn encode_response(adu: &ResponseAdu) -> (encoded: Result<Vec<u8>, Error>)
    ensures
        crate::codec::response_fits(adu.pdu@) ==> encoded is Ok && encoded->Ok_0@
            == spec_encode_response(adu.hdr, adu.pdu@),
        !crate::codec::response_fits(adu.pdu@) ==> encoded is Err && encoded->Err_0
            == Error::TooLong,
{
    match crate::codec::encode_response(&adu.pdu) {
        Err(e) => Err(e),
        Ok(pdu) => Ok(frame(adu.hdr, pdu.as_slice())),
    }
}

/// Decodes a request data unit from one frame.
pub fn decode_request(bytes: &[u8]) -> (decoded: Result<RequestAdu, Error>)
    ensures
        match decoded {
            Ok(adu) => spec_decode_request(bytes@) == Ok::<(Header, RequestModel), Error>(
                (adu.hdr, adu.pdu@),
            ),
            Err(e) => spec_decode_request(bytes@) == Err::<(Header, RequestModel), Error>(e),
        },
{
    match unframe(bytes) {
        Err(e) => Err(e),
        Ok((hdr, pdu_bytes)) => match crate::codec::decode_request(pdu_bytes) {
            Err(e) => Err(e),
            Ok(pdu) => Ok(RequestAdu { hdr, pdu }),
        },
    }
}

/// Decodes a response data unit from one frame.
pub fn decode_response(bytes: &[u8]) -> (decoded: Result<ResponseAdu, Error>)
    ensures
        match decoded {
            Ok(adu) => spec_decode_response(bytes@) == Ok::<
                (Header, Result<ResponseModel, ExceptionResponse>),
                Error,
            >((adu.hdr, adu.pdu@)),
            Err(e) => spec_decode_response(bytes@) == Err::<
                (Header, Result<ResponseModel, ExceptionResponse>),
                Error,
            >(e),
        },
{
    match unframe(bytes) {
        Err(e) => Err(e),
        Ok((hdr, pdu_bytes)) => match crate::codec::decode_response(pdu_bytes) {
            Err(e) => Err(e),
            Ok(pdu) => Ok(ResponseAdu { hdr, pdu }),
        },
    }
}

/// A request data unit that is encoded and decoded again comes out with the
/// same header and an equal request.
pub proof fn lemma_request_round_trip(hdr: Header, req: RequestModel)
    requires
        crate::codec::request_fits(req),
        crate::codec::request_distinct(req),
    ensures
        spec_decode_request(spec_encode_request(hdr, req)) == Ok::<(Header, RequestModel), Error>(
            (hdr, req),
        ),
{
    lemma_frame_round_trip(hdr, crate::codec::spec_encode_request(req));
    crate::codec::lemma_request_round_trip(req);
}

/// A response data unit that is encoded and decoded again comes out with the
/// same header and an equal response or exception.
pub proof fn lemma_response_round_trip(
    hdr: Header,
    outcome: Result<ResponseModel, ExceptionResponse>,
)
    requires
        crate::codec::response_fits(outcome),
        crate::codec::response_distinct(outcome),
    ensures
        spec_decode_response(spec_encode_response(hdr, outcome)) == Ok::<
            (Header, Result<ResponseModel, ExceptionResponse>),
            Error,
        >((hdr, outcome)),
{
    lemma_frame_round_trip(hdr, crate::codec::spec_encode_response(outcome));
    crate::codec::lemma_response_round_trip(outcome);
}

} // verus!
