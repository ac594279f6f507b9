//! The TCP wire format: a header of seven bytes, then the PDU.
//!
//! | offset | field                                         |
//! |--------|-----------------------------------------------|
//! | 0      | transaction identifier, 16 bit, big-endian    |
//! | 2      | protocol identifier, 16 bit, always 0         |
//! | 4      | length of what follows it, 16 bit, big-endian |
//! | 6      | unit identifier                               |
//! | 7      | PDU                                           |

use crate::codec::{be16, push_all, push_u16, read_u16, word_at, Error, Extent};
use crate::frame::tcp::{Header, RequestAdu, ResponseAdu};
use crate::frame::{ExceptionResponse, RequestModel, ResponseModel};
use vstd::prelude::*;
use vstd::slice::slice_subrange;

verus! {

/// The number of bytes before the PDU.
pub const HEADER_LEN: usize = 7;

/// Whether the length field can count the unit identifier and the PDU.
pub open spec fn frame_fits(pdu: Seq<u8>) -> bool {
    pdu.len() + 1 <= u16::MAX
}

/// The frame that carries the bytes of a PDU under a header.
pub open spec fn spec_frame(hdr: Header, pdu: Seq<u8>) -> Seq<u8> {
    be16(hdr.transaction_id) + be16(0) + be16((pdu.len() + 1) as u16) + seq![hdr.unit_id] + pdu
}

/// The header of a frame and the bytes of its PDU, or why the frame is
/// refused: it is shorter than a header, its protocol identifier is not 0, or
/// its length field does not count the bytes that follow it.
pub open spec fn spec_unframe(bytes: Seq<u8>) -> Result<(Header, Seq<u8>), Error> {
    if bytes.len() < HEADER_LEN {
        Err(Error::TooShort)
    } else if word_at(bytes, 2) != 0 {
        Err(Error::ProtocolId)
    } else if word_at(bytes, 4) != bytes.len() - 6 {
        Err(Error::Length)
    } else {
        Ok(
            (
                Header { transaction_id: word_at(bytes, 0), unit_id: bytes[6] },
                bytes.subrange(HEADER_LEN as int, bytes.len() as int),
            ),
        )
    }
}

/// Puts the header before the bytes of a PDU. It fails exactly when the
/// length field cannot count them.
pub fn frame(hdr: Header, pdu: &[u8]) -> (framed: Result<Vec<u8>, Error>)
    ensures
        frame_fits(pdu@) ==> framed is Ok && framed->Ok_0@ == spec_frame(hdr, pdu@),
        !frame_fits(pdu@) ==> framed is Err && framed->Err_0 == Error::TooLong,
{
    if pdu.len() >= 0xFFFF {
        return Err(Error::TooLong);
    }
    let mut buf: Vec<u8> = Vec::new();
    push_u16(&mut buf, hdr.transaction_id);
    push_u16(&mut buf, 0);
    push_u16(&mut buf, (pdu.len() + 1) as u16);
    buf.push(hdr.unit_id);
    push_all(&mut buf, pdu);
    assert(buf@ =~= spec_frame(hdr, pdu@));
    Ok(buf)
}

/// Takes a frame apart into its header and the bytes of its PDU.
pub fn unframe(bytes: &[u8]) -> (parts: Result<(Header, &[u8]), Error>)
    ensures
        match parts {
            Ok((hdr, pdu)) => spec_unframe(bytes@) == Ok::<(Header, Seq<u8>), Error>((hdr, pdu@)),
            Err(e) => spec_unframe(bytes@) == Err::<(Header, Seq<u8>), Error>(e),
        },
{
    let len: usize = bytes.len();
    if len < HEADER_LEN {
        return Err(Error::TooShort);
    }
    if read_u16(bytes, 2) != 0 {
        return Err(Error::ProtocolId);
    }
    if read_u16(bytes, 4) as usize != len - 6 {
        return Err(Error::Length);
    }
    let hdr = Header { transaction_id: read_u16(bytes, 0), unit_id: bytes[6] };
    Ok((hdr, slice_subrange(bytes, HEADER_LEN, len)))
}

/// A frame that is taken apart gives the header and the PDU that it was
/// made of.
pub proof fn lemma_frame_round_trip(hdr: Header, pdu: Seq<u8>)
    requires
        frame_fits(pdu),
    ensures
        spec_unframe(spec_frame(hdr, pdu)) == Ok::<(Header, Seq<u8>), Error>((hdr, pdu)),
{
    let bytes = spec_frame(hdr, pdu);
    assert(bytes.len() == pdu.len() + 7);
    assert(word_at(bytes, 0) == hdr.transaction_id);
    assert(word_at(bytes, 2) == 0);
    assert(word_at(bytes, 4) == pdu.len() + 1);
    assert(bytes[6] == hdr.unit_id);
    assert(bytes.subrange(HEADER_LEN as int, bytes.len() as int) =~= pdu);
}

/// Where the frame ends that `bytes` begin with: behind as many bytes as
/// the length field counts.
pub open spec fn spec_frame_extent(bytes: Seq<u8>) -> Extent {
    if bytes.len() < 6 {
        Extent::Incomplete
    } else {
        Extent::Len((6 + word_at(bytes, 4)) as usize)
    }
}

/// Tells where the frame ends that a stream of bytes begins with.
pub fn frame_extent(bytes: &[u8]) -> (extent: Extent)
    ensures
        extent == spec_frame_extent(bytes@),
{
    if bytes.len() < 6 {
        Extent::Incomplete
    } else {
        Extent::Len(6 + read_u16(bytes, 4) as usize)
    }
}

/// Whatever follows a frame in a stream, the frame's end is found where
/// the frame ends.
pub proof fn lemma_frame_extent(hdr: Header, pdu: Seq<u8>, rest: Seq<u8>)
    requires
        frame_fits(pdu),
    ensures
        spec_frame_extent(spec_frame(hdr, pdu) + rest) == Extent::Len(
            spec_frame(hdr, pdu).len() as usize,
        ),
{
    let bytes = spec_frame(hdr, pdu);
    let stream = bytes + rest;
    assert(stream[4] == bytes[4]);
    assert(stream[5] == bytes[5]);
    assert(word_at(bytes, 4) == pdu.len() + 1);
}

/// A frame that can be taken apart ends where it is found to end.
pub proof fn lemma_unframed_extent(bytes: Seq<u8>)
    requires
        spec_unframe(bytes) is Ok,
    ensures
        spec_frame_extent(bytes) == Extent::Len(bytes.len() as usize),
{
}

/// Whether a request under a header can be encoded.
pub open spec fn request_fits(req: RequestModel) -> bool {
    crate::codec::request_fits(req) && frame_fits(crate::codec::spec_encode_request(req))
}

/// Whether a response or an exception under a header can be encoded.
pub open spec fn response_fits(outcome: Result<ResponseModel, ExceptionResponse>) -> bool {
    crate::codec::response_fits(outcome) && frame_fits(crate::codec::spec_encode_response(outcome))
}

/// The frame of a request data unit.
pub open spec fn spec_encode_request(hdr: Header, req: RequestModel) -> Seq<u8> {
    spec_frame(hdr, crate::codec::spec_encode_request(req))
}

/// The frame of a response data unit.
pub open spec fn spec_encode_response(
    hdr: Header,
    outcome: Result<ResponseModel, ExceptionResponse>,
) -> Seq<u8> {
    spec_frame(hdr, crate::codec::spec_encode_response(outcome))
}

/// The request data unit that a frame holds, or why it holds none.
pub open spec fn spec_decode_request(bytes: Seq<u8>) -> Result<(Header, RequestModel), Error> {
    match spec_unframe(bytes) {
        Err(e) => Err(e),
        Ok((hdr, pdu)) => match crate::codec::spec_decode_request(pdu) {
            Err(e) => Err(e),
            Ok(req) => Ok((hdr, req)),
        },
    }
}

/// The response data unit that a frame holds, or why it holds none.
pub open spec fn spec_decode_response(bytes: Seq<u8>) -> Result<
    (Header, Result<ResponseModel, ExceptionResponse>),
    Error,
> {
    match spec_unframe(bytes) {
        Err(e) => Err(e),
        Ok((hdr, pdu)) => match crate::codec::spec_decode_response(pdu) {
            Err(e) => Err(e),
            Ok(outcome) => Ok((hdr, outcome)),
        },
    }
}

/// Encodes a request data unit. It fails exactly when a counter on the wire
/// cannot count what the request carries.
pub fn encode_request(adu: &RequestAdu) -> (encoded: Result<Vec<u8>, Error>)
    ensures
        request_fits(adu.pdu@) ==> encoded is Ok && encoded->Ok_0@ == spec_encode_request(
            adu.hdr,
            adu.pdu@,
        ),
        !request_fits(adu.pdu@) ==> encoded is Err && encoded->Err_0 == Error::TooLong,
{
    match crate::codec::encode_request(&adu.pdu.0) {
        Err(e) => Err(e),
        Ok(pdu) => frame(adu.hdr, pdu.as_slice()),
    }
}

/// Encodes a response data unit. It fails exactly when a counter on the wire
/// cannot count what the response carries.
pub fn encode_response(adu: &ResponseAdu) -> (encoded: Result<Vec<u8>, Error>)
    ensures
        response_fits(adu.pdu@) ==> encoded is Ok && encoded->Ok_0@ == spec_encode_response(
            adu.hdr,
            adu.pdu@,
        ),
        !response_fits(adu.pdu@) ==> encoded is Err && encoded->Err_0 == Error::TooLong,
{
    match crate::codec::encode_response(&adu.pdu) {
        Err(e) => Err(e),
        Ok(pdu) => frame(adu.hdr, pdu.as_slice()),
    }
}

/// Decodes a request data unit from one frame.
pub fn decode_request(bytes: &[u8]) -> (decoded: Result<RequestAdu, Error>)
    ensures
        match decoded {
            Ok(adu) => spec_decode_request(bytes@) == Ok::<(Header, RequestModel), Error>(
                (adu.hdr, adu.pdu@),
            ),
            Err(e) => spec_decode_request(bytes@) == Err::<(Header, RequestModel), Error>(e),
        },
{
    match unframe(bytes) {
        Err(e) => Err(e),
        Ok((hdr, pdu_bytes)) => match crate::codec::decode_request(pdu_bytes) {
            Err(e) => Err(e),
            Ok(pdu) => Ok(RequestAdu { hdr, pdu }),
        },
    }
}

/// Decodes a response data unit from one frame.
pub fn decode_response(bytes: &[u8]) -> (decoded: Result<ResponseAdu, Error>)
    ensures
        match decoded {
            Ok(adu) => spec_decode_response(bytes@) == Ok::<
                (Header, Result<ResponseModel, ExceptionResponse>),
                Error,
            >((adu.hdr, adu.pdu@)),
            Err(e) => spec_decode_response(bytes@) == Err::<
                (Header, Result<ResponseModel, ExceptionResponse>),
                Error,
            >(e),
        },
{
    match unframe(bytes) {
        Err(e) => Err(e),
        Ok((hdr, pdu_bytes)) => match crate::codec::decode_response(pdu_bytes) {
            Err(e) => Err(e),
            Ok(pdu) => Ok(ResponseAdu { hdr, pdu }),
        },
    }
}

/// A request data unit that is encoded and decoded again comes out with the
/// same header fields and an equal request.
pub proof fn lemma_request_round_trip(hdr: Header, req: RequestModel)
    requires
        request_fits(req),
        crate::codec::request_distinct(req),
    ensures
        spec_decode_request(spec_encode_request(hdr, req)) == Ok::<(Header, RequestModel), Error>(
            (hdr, req),
        ),
{
    lemma_frame_round_trip(hdr, crate::codec::spec_encode_request(req));
    crate::codec::lemma_request_round_trip(req);
}

/// A response data unit that is encoded and decoded again comes out with the
/// same header fields and an equal response or exception.
pub proof fn lemma_response_round_trip(
    hdr: Header,
    outcome: Result<ResponseModel, ExceptionResponse>,
)
    requires
        response_fits(outcome),
        crate::codec::response_distinct(outcome),
    ensures
        spec_decode_response(spec_encode_response(hdr, outcome)) == Ok::<
            (Header, Result<ResponseModel, ExceptionResponse>),
            Error,
        >((hdr, outcome)),
{
    lemma_frame_round_trip(hdr, crate::codec::spec_encode_response(outcome));
    crate::codec::lemma_response_round_trip(outcome);
}

} // verus!
