//! The wire encoding of requests and responses: a function code followed by
//! a payload whose layout the function code fixes.

use crate::frame::{
    Exception, ExceptionResponse, Request, RequestModel, RequestPdu, Response, ResponseModel,
    ResponsePdu,
};
use vstd::prelude::*;

pub mod rtu;
pub mod tcp;

verus! {

/// Why a message could not be encoded or a frame could not be decoded.
#[derive(Debug, Clone, Copy, PartialEq, Eq, Structural)]
pub enum Error {
    /// The message does not fit the width of a counter on the wire.
    TooLong,
    /// The frame ends before its fixed parts do.
    TooShort,
    /// The protocol identifier of a TCP frame is not 0.
    ProtocolId,
    /// A declared length differs from the number of bytes that follow.
    Length,
    /// The checksum of an RTU frame differs from the one computed.
    Checksum,
    /// A single coil's value is neither `0xFF00` nor `0x0000`.
    CoilValue,
    /// An exception code that names no exception.
    ExceptionCode,
    /// A function code that fixes no layout, where only the layout tells
    /// where a frame ends.
    FunctionCode,
}

/// The largest number of coils whose packed bytes a one-byte counter counts.
pub const MAX_COILS: usize = 2040;

/// The largest number of words whose bytes a one-byte counter counts.
pub const MAX_WORDS: usize = 127;

/// A 16-bit value as two bytes, the high one first.
pub open spec fn be16(v: u16) -> Seq<u8> {
    seq![(v / 256) as u8, (v % 256) as u8]
}

/// The 16-bit value that the two bytes at `i` hold, the high one first.
pub open spec fn word_at(bytes: Seq<u8>, i: int) -> u16 {
    (bytes[i] as int * 256 + bytes[i + 1] as int) as u16
}

/// Words as bytes, each word with its high byte first.
pub open spec fn words_bytes(ws: Seq<u16>) -> Seq<u8> {
    Seq::new(
        2 * ws.len(),
        |i: int|
            if i % 2 == 0 {
                (ws[i / 2] / 256) as u8
            } else {
                (ws[i / 2] % 256) as u8
            },
    )
}

/// The `n` words that stand in `bytes` from `start` on.
pub open spec fn bytes_words(bytes: Seq<u8>, start: int, n: int) -> Seq<u16> {
    Seq::new(n as nat, |i: int| word_at(bytes, start + 2 * i))
}

/// 1 for a coil that is on, 0 for one that is off or beyond the end.
pub open spec fn coil_value(cs: Seq<bool>, i: int) -> int {
    if 0 <= i < cs.len() && cs[i] {
        1
    } else {
        0
    }
}

/// The byte that holds the coils `8 * k` to `8 * k + 7`, the first of them in
/// the lowest bit.
pub open spec fn packed_byte(cs: Seq<bool>, k: int) -> u8 {
    (coil_value(cs, 8 * k) + 2 * coil_value(cs, 8 * k + 1) + 4 * coil_value(cs, 8 * k + 2) + 8
        * coil_value(cs, 8 * k + 3) + 16 * coil_value(cs, 8 * k + 4) + 32 * coil_value(
        cs,
        8 * k + 5,
    ) + 64 * coil_value(cs, 8 * k + 6) + 128 * coil_value(cs, 8 * k + 7)) as u8
}

/// Coils packed eight to a byte; the last byte is filled up with zeros.
pub open spec fn pack_coils(cs: Seq<bool>) -> Seq<u8> {
    Seq::new(((cs.len() + 7) / 8) as nat, |k: int| packed_byte(cs, k))
}

/// Whether bit `j` of `b` is set, bit 0 being the lowest.
pub open spec fn byte_bit(b: u8, j: int) -> bool {
    if j == 0 {
        b % 2 == 1
    } else if j == 1 {
        (b / 2) % 2 == 1
    } else if j == 2 {
        (b / 4) % 2 == 1
    } else if j == 3 {
        (b / 8) % 2 == 1
    } else if j == 4 {
        (b / 16) % 2 == 1
    } else if j == 5 {
        (b / 32) % 2 == 1
    } else if j == 6 {
        (b / 64) % 2 == 1
    } else {
        (b / 128) % 2 == 1
    }
}

/// The `n` coils that are packed into `bytes` from `start` on.
pub open spec fn unpack_coils(bytes: Seq<u8>, start: int, n: int) -> Seq<bool> {
    Seq::new(n as nat, |i: int| byte_bit(bytes[start + i / 8], i % 8))
}

/// Every coil is found again in the bit that it was packed into.
pub proof fn lemma_packed_bit(cs: Seq<bool>, i: int)
    requires
        0 <= i < cs.len(),
    ensures
        byte_bit(packed_byte(cs, i / 8), i % 8) == cs[i],
{
    let k = i / 8;
    let b0 = coil_value(cs, 8 * k);
    let b1 = coil_value(cs, 8 * k + 1);
    let b2 = coil_value(cs, 8 * k + 2);
    let b3 = coil_value(cs, 8 * k + 3);
    let b4 = coil_value(cs, 8 * k + 4);
    let b5 = coil_value(cs, 8 * k + 5);
    let b6 = coil_value(cs, 8 * k + 6);
    let b7 = coil_value(cs, 8 * k + 7);
    let s = b0 + 2 * b1 + 4 * b2 + 8 * b3 + 16 * b4 + 32 * b5 + 64 * b6 + 128 * b7;
    assert(0 <= s < 256);
    assert(packed_byte(cs, k) == s);
    assert(s % 2 == b0);
    assert((s / 2) % 2 == b1);
    assert((s / 4) % 2 == b2);
    assert((s / 8) % 2 == b3);
    assert((s / 16) % 2 == b4);
    assert((s / 32) % 2 == b5);
    assert((s / 64) % 2 == b6);
    assert((s / 128) % 2 == b7);
}

/// Packing coils and unpacking as many gives the coils back.
pub proof fn lemma_unpack_pack(prefix: Seq<u8>, cs: Seq<bool>)
    ensures
        unpack_coils(prefix + pack_coils(cs), prefix.len() as int, cs.len() as int) == cs,
{
    let bytes = prefix + pack_coils(cs);
    let back = unpack_coils(bytes, prefix.len() as int, cs.len() as int);
    assert forall|i: int| 0 <= i < cs.len() implies back[i] == cs[i] by {
        lemma_packed_bit(cs, i);
        assert(bytes[prefix.len() + i / 8] == pack_coils(cs)[i / 8]);
    }
    assert(back =~= cs);
}

/// Writing words as bytes and reading as many gives the words back.
pub proof fn lemma_words_round_trip(prefix: Seq<u8>, ws: Seq<u16>)
    ensures
        bytes_words(prefix + words_bytes(ws), prefix.len() as int, ws.len() as int) == ws,
{
    let bytes = prefix + words_bytes(ws);
    let back = bytes_words(bytes, prefix.len() as int, ws.len() as int);
    assert forall|i: int| 0 <= i < ws.len() implies back[i] == ws[i] by {
        assert(bytes[prefix.len() + 2 * i] == words_bytes(ws)[2 * i]);
        assert(bytes[prefix.len() + 2 * i + 1] == words_bytes(ws)[2 * i + 1]);
    }
    assert(back =~= ws);
}

fn push_u16(buf: &mut Vec<u8>, v: u16)
    ensures
        final(buf)@ == old(buf)@ + be16(v),
{
    buf.push((v / 256) as u8);
    buf.push((v % 256) as u8);
    assert(buf@ =~= old(buf)@ + be16(v));
}

/// Appends `data` to `buf`.
pub(crate) fn push_all(buf: &mut Vec<u8>, data: &[u8])
    ensures
        final(buf)@ == old(buf)@ + data@,
{
    let mut i: usize = 0;
    while i < data.len()
        invariant
            i <= data.len(),
            buf@ == old(buf)@ + data@.subrange(0, i as int),
        decreases data.len() - i,
    {
        buf.push(data[i]);
        assert(buf@ =~= old(buf)@ + data@.subrange(0, i + 1));
        i += 1;
    }
    assert(data@.subrange(0, i as int) =~= data@);
}

/// The bytes of `bytes` from `start` up to `end`.
pub(crate) fn copy_range(bytes: &[u8], start: usize, end: usize) -> (out: Vec<u8>)
    requires
        start <= end <= bytes@.len(),
    ensures
        out@ == bytes@.subrange(start as int, end as int),
{
    let mut out: Vec<u8> = Vec::new();
    let mut i: usize = start;
    while i < end
        invariant
            start <= i <= end <= bytes@.len(),
            out@ == bytes@.subrange(start as int, i as int),
        decreases end - i,
    {
        out.push(bytes[i]);
        assert(out@ =~= bytes@.subrange(start as int, i + 1));
        i += 1;
    }
    out
}

fn push_words(buf: &mut Vec<u8>, ws: &Vec<u16>)
    ensures
        final(buf)@ == old(buf)@ + words_bytes(ws@),
{
    let mut i: usize = 0;
    while i < ws.len()
        invariant
            i <= ws.len(),
            buf@.len() == old(buf)@.len() + 2 * i,
            forall|j: int| 0 <= j < old(buf)@.len() ==> buf@[j] == old(buf)@[j],
            forall|j: int| 0 <= j < 2 * i ==> buf@[old(buf)@.len() + j] == words_bytes(ws@)[j],
        decreases ws.len() - i,
    {
        let w: u16 = ws[i];
        buf.push((w / 256) as u8);
        buf.push((w % 256) as u8);
        i += 1;
    }
    assert(buf@ =~= old(buf)@ + words_bytes(ws@));
}

fn coil_at(cs: &Vec<bool>, i: usize) -> (v: u8)
    ensures
        v == coil_value(cs@, i as int),
{
    if i < cs.len() && cs[i] {
        1
    } else {
        0
    }
}

fn push_coils(buf: &mut Vec<u8>, cs: &Vec<bool>)
    requires
        cs@.len() <= MAX_COILS,
    ensures
        final(buf)@ == old(buf)@ + pack_coils(cs@),
{
    let n: usize = (cs.len() + 7) / 8;
    let mut k: usize = 0;
    while k < n
        invariant
            k <= n,
            n == (cs@.len() + 7) / 8,
            cs@.len() <= MAX_COILS,
            buf@.len() == old(buf)@.len() + k,
            forall|j: int| 0 <= j < old(buf)@.len() ==> buf@[j] == old(buf)@[j],
            forall|j: int| 0 <= j < k ==> buf@[old(buf)@.len() + j] == packed_byte(cs@, j),
        decreases n - k,
    {
        let base: usize = 8 * k;
        let b: u8 = coil_at(cs, base) + 2 * coil_at(cs, base + 1) + 4 * coil_at(cs, base + 2) + 8
            * coil_at(cs, base + 3) + 16 * coil_at(cs, base + 4) + 32 * coil_at(cs, base + 5) + 64
            * coil_at(cs, base + 6) + 128 * coil_at(cs, base + 7);
        buf.push(b);
        k += 1;
    }
    assert(buf@ =~= old(buf)@ + pack_coils(cs@));
}

fn read_u16(bytes: &[u8], i: usize) -> (v: u16)
    requires
        i + 1 < bytes@.len(),
    ensures
        v == word_at(bytes@, i as int),
{
    let hi: u16 = bytes[i] as u16;
    let lo: u16 = bytes[i + 1] as u16;
    hi * 256 + lo
}

fn read_words(bytes: &[u8], start: usize, n: usize) -> (ws: Vec<u16>)
    requires
        start + 2 * n <= bytes@.len(),
    ensures
        ws@ == bytes_words(bytes@, start as int, n as int),
{
    let len: usize = bytes.len();
    let mut ws: Vec<u16> = Vec::new();
    let mut i: usize = 0;
    while i < n
        invariant
            i <= n,
            len == bytes@.len(),
            start + 2 * n <= bytes@.len(),
            ws@ == bytes_words(bytes@, start as int, i as int),
        decreases n - i,
    {
        let w: u16 = read_u16(bytes, start + 2 * i);
        ws.push(w);
        assert(ws@ =~= bytes_words(bytes@, start as int, i + 1));
        i += 1;
    }
    ws
}

fn bit_of(b: u8, j: usize) -> (on: bool)
    requires
        j < 8,
    ensures
        on == byte_bit(b, j as int),
{
    if j == 0 {
        b % 2 == 1
    } else if j == 1 {
        (b / 2) % 2 == 1
    } else if j == 2 {
        (b / 4) % 2 == 1
    } else if j == 3 {
        (b / 8) % 2 == 1
    } else if j == 4 {
        (b / 16) % 2 == 1
    } else if j == 5 {
        (b / 32) % 2 == 1
    } else if j == 6 {
        (b / 64) % 2 == 1
    } else {
        (b / 128) % 2 == 1
    }
}

fn read_coils(bytes: &[u8], start: usize, n: usize) -> (cs: Vec<bool>)
    requires
        start + (n + 7) / 8 <= bytes@.len(),
    ensures
        cs@ == unpack_coils(bytes@, start as int, n as int),
{
    let len: usize = bytes.len();
    let mut cs: Vec<bool> = Vec::new();
    let mut i: usize = 0;
    while i < n
        invariant
            i <= n,
            len == bytes@.len(),
            start + (n + 7) / 8 <= bytes@.len(),
            cs@ == unpack_coils(bytes@, start as int, i as int),
        decreases n - i,
    {
        let c: bool = bit_of(bytes[start + i / 8], i % 8);
        cs.push(c);
        assert(cs@ =~= unpack_coils(bytes@, start as int, i + 1));
        i += 1;
    }
    cs
}

/// Whether `f` is one of the function codes with a fixed layout.
pub open spec fn is_standard_function(f: u8) -> bool {
    f == 0x01 || f == 0x02 || f == 0x03 || f == 0x04 || f == 0x05 || f == 0x06 || f == 0x0F || f
        == 0x10 || f == 0x17
}

/// The two bytes that stand for a single coil.
pub open spec fn coil_word(c: bool) -> u16 {
    if c {
        0xFF00
    } else {
        0x0000
    }
}

/// Whether the counters on the wire can count what `req` carries.
pub open spec fn request_fits(req: RequestModel) -> bool {
    match req {
        RequestModel::WriteMultipleCoils(_, cs) => cs.len() <= MAX_COILS,
        RequestModel::WriteMultipleRegisters(_, ws) => ws.len() <= MAX_WORDS,
        RequestModel::ReadWriteMultipleRegisters(_, _, _, ws) => ws.len() <= MAX_WORDS,
        _ => true,
    }
}

/// The bytes of a request: its function code, then its payload.
pub open spec fn spec_encode_request(req: RequestModel) -> Seq<u8> {
    match req {
        RequestModel::ReadCoils(a, q) => seq![0x01u8] + be16(a) + be16(q),
        RequestModel::ReadDiscreteInputs(a, q) => seq![0x02u8] + be16(a) + be16(q),
        RequestModel::WriteSingleCoil(a, c) => seq![0x05u8] + be16(a) + be16(coil_word(c)),
        RequestModel::WriteMultipleCoils(a, cs) => seq![0x0Fu8] + be16(a) + be16(cs.len() as u16)
            + seq![pack_coils(cs).len() as u8] + pack_coils(cs),
        RequestModel::ReadInputRegisters(a, q) => seq![0x04u8] + be16(a) + be16(q),
        RequestModel::ReadHoldingRegisters(a, q) => seq![0x03u8] + be16(a) + be16(q),
        RequestModel::WriteSingleRegister(a, w) => seq![0x06u8] + be16(a) + be16(w),
        RequestModel::WriteMultipleRegisters(a, ws) => seq![0x10u8] + be16(a) + be16(
            ws.len() as u16,
        ) + seq![(2 * ws.len()) as u8] + words_bytes(ws),
        RequestModel::ReadWriteMultipleRegisters(ra, q, wa, ws) => seq![0x17u8] + be16(ra) + be16(
            q,
        ) + be16(wa) + be16(ws.len() as u16) + seq![(2 * ws.len()) as u8] + words_bytes(ws),
        RequestModel::Custom(f, data) => seq![f] + data,
    }
}

/// The request that `bytes` hold, or why they hold none.
pub open spec fn spec_decode_request(bytes: Seq<u8>) -> Result<RequestModel, Error> {
    if bytes.len() == 0 {
        Err(Error::TooShort)
    } else {
        let f = bytes[0];
        if f == 0x01 || f == 0x02 || f == 0x03 || f == 0x04 || f == 0x05 || f == 0x06 {
            if bytes.len() != 5 {
                Err(Error::Length)
            } else {
                let a = word_at(bytes, 1);
                let v = word_at(bytes, 3);
                if f == 0x01 {
                    Ok(RequestModel::ReadCoils(a, v))
                } else if f == 0x02 {
                    Ok(RequestModel::ReadDiscreteInputs(a, v))
                } else if f == 0x03 {
                    Ok(RequestModel::ReadHoldingRegisters(a, v))
                } else if f == 0x04 {
                    Ok(RequestModel::ReadInputRegisters(a, v))
                } else if f == 0x06 {
                    Ok(RequestModel::WriteSingleRegister(a, v))
                } else if v == 0xFF00 {
                    Ok(RequestModel::WriteSingleCoil(a, true))
                } else if v == 0x0000 {
                    Ok(RequestModel::WriteSingleCoil(a, false))
                } else {
                    Err(Error::CoilValue)
                }
            }
        } else if f == 0x0F {
            if bytes.len() < 6 {
                Err(Error::Length)
            } else {
                let q = word_at(bytes, 3);
                if bytes[5] != (q + 7) / 8 || bytes.len() != 6 + bytes[5] {
                    Err(Error::Length)
                } else {
                    Ok(
                        RequestModel::WriteMultipleCoils(
                            word_at(bytes, 1),
                            unpack_coils(bytes, 6, q as int),
                        ),
                    )
                }
            }
        } else if f == 0x10 {
            if bytes.len() < 6 {
                Err(Error::Length)
            } else {
                let q = word_at(bytes, 3);
                if bytes[5] != 2 * q || bytes.len() != 6 + bytes[5] {
                    Err(Error::Length)
                } else {
                    Ok(
                        RequestModel::WriteMultipleRegisters(
                            word_at(bytes, 1),
                            bytes_words(bytes, 6, q as int),
                        ),
                    )
                }
            }
        } else if f == 0x17 {
            if bytes.len() < 10 {
                Err(Error::Length)
            } else {
                let q = word_at(bytes, 7);
                if bytes[9] != 2 * q || bytes.len() != 10 + bytes[9] {
                    Err(Error::Length)
                } else {
                    Ok(
                        RequestModel::ReadWriteMultipleRegisters(
                            word_at(bytes, 1),
                            word_at(bytes, 3),
                            word_at(bytes, 5),
                            bytes_words(bytes, 10, q as int),
                        ),
                    )
                }
            }
        } else {
            Ok(RequestModel::Custom(f, bytes.subrange(1, bytes.len() as int)))
        }
    }
}

/// Encodes a request. It fails exactly when a counter on the wire cannot
/// count the coils or words that the request carries.
pub fn encode_request(req: &Request) -> (encoded: Result<Vec<u8>, Error>)
    ensures
        request_fits(req@) ==> encoded is Ok && encoded->Ok_0@ == spec_encode_request(req@),
        !request_fits(req@) ==> encoded is Err && encoded->Err_0 == Error::TooLong,
{
    let mut buf: Vec<u8> = Vec::new();
    match req {
        Request::ReadCoils(a, q) => {
            buf.push(0x01);
            push_u16(&mut buf, *a);
            push_u16(&mut buf, *q);
        },
        Request::ReadDiscreteInputs(a, q) => {
            buf.push(0x02);
            push_u16(&mut buf, *a);
            push_u16(&mut buf, *q);
        },
        Request::WriteSingleCoil(a, c) => {
            buf.push(0x05);
            push_u16(&mut buf, *a);
            push_u16(&mut buf, if *c { 0xFF00 } else { 0x0000 });
        },
        Request::WriteMultipleCoils(a, cs) => {
            if cs.len() > MAX_COILS {
                return Err(Error::TooLong);
            }
            buf.push(0x0F);
            push_u16(&mut buf, *a);
            push_u16(&mut buf, cs.len() as u16);
            buf.push(((cs.len() + 7) / 8) as u8);
            push_coils(&mut buf, cs);
        },
        Request::ReadInputRegisters(a, q) => {
            buf.push(0x04);
            push_u16(&mut buf, *a);
            push_u16(&mut buf, *q);
        },
        Request::ReadHoldingRegisters(a, q) => {
            buf.push(0x03);
            push_u16(&mut buf, *a);
            push_u16(&mut buf, *q);
        },
        Request::WriteSingleRegister(a, w) => {
            buf.push(0x06);
            push_u16(&mut buf, *a);
            push_u16(&mut buf, *w);
        },
        Request::WriteMultipleRegisters(a, ws) => {
            if ws.len() > MAX_WORDS {
                return Err(Error::TooLong);
            }
            buf.push(0x10);
            push_u16(&mut buf, *a);
            push_u16(&mut buf, ws.len() as u16);
            buf.push((2 * ws.len()) as u8);
            push_words(&mut buf, ws);
        },
        Request::ReadWriteMultipleRegisters(ra, q, wa, ws) => {
            if ws.len() > MAX_WORDS {
                return Err(Error::TooLong);
            }
            buf.push(0x17);
            push_u16(&mut buf, *ra);
            push_u16(&mut buf, *q);
            push_u16(&mut buf, *wa);
            push_u16(&mut buf, ws.len() as u16);
            buf.push((2 * ws.len()) as u8);
            push_words(&mut buf, ws);
        },
        Request::Custom(f, data) => {
            buf.push(*f);
            push_all(&mut buf, data.as_slice());
        },
    }
    assert(buf@ =~= spec_encode_request(req@));
    Ok(buf)
}

/// Decodes a request from the bytes of one PDU.
pub fn decode_request(bytes: &[u8]) -> (decoded: Result<RequestPdu, Error>)
    ensures
        match decoded {
            Ok(pdu) => spec_decode_request(bytes@) == Ok::<RequestModel, Error>(pdu@),
            Err(e) => spec_decode_request(bytes@) == Err::<RequestModel, Error>(e),
        },
{
    let len: usize = bytes.len();
    if len == 0 {
        return Err(Error::TooShort);
    }
    let f: u8 = bytes[0];
    if f == 0x01 || f == 0x02 || f == 0x03 || f == 0x04 || f == 0x05 || f == 0x06 {
        if len != 5 {
            return Err(Error::Length);
        }
        let a: u16 = read_u16(bytes, 1);
        let v: u16 = read_u16(bytes, 3);
        if f == 0x01 {
            Ok(RequestPdu(Request::ReadCoils(a, v)))
        } else if f == 0x02 {
            Ok(RequestPdu(Request::ReadDiscreteInputs(a, v)))
        } else if f == 0x03 {
            Ok(RequestPdu(Request::ReadHoldingRegisters(a, v)))
        } else if f == 0x04 {
            Ok(RequestPdu(Request::ReadInputRegisters(a, v)))
        } else if f == 0x06 {
            Ok(RequestPdu(Request::WriteSingleRegister(a, v)))
        } else if v == 0xFF00 {
            Ok(RequestPdu(Request::WriteSingleCoil(a, true)))
        } else if v == 0x0000 {
            Ok(RequestPdu(Request::WriteSingleCoil(a, false)))
        } else {
            Err(Error::CoilValue)
        }
    } else if f == 0x0F {
        if len < 6 {
            return Err(Error::Length);
        }
        let a: u16 = read_u16(bytes, 1);
        let q: usize = read_u16(bytes, 3) as usize;
        let n: usize = bytes[5] as usize;
        if n != (q + 7) / 8 || len != 6 + n {
            return Err(Error::Length);
        }
        let cs = read_coils(bytes, 6, q);
        Ok(RequestPdu(Request::WriteMultipleCoils(a, cs)))
    } else if f == 0x10 {
        if len < 6 {
            return Err(Error::Length);
        }
        let a: u16 = read_u16(bytes, 1);
        let q: usize = read_u16(bytes, 3) as usize;
        let n: usize = bytes[5] as usize;
        if n != 2 * q || len != 6 + n {
            return Err(Error::Length);
        }
        let ws = read_words(bytes, 6, q);
        Ok(RequestPdu(Request::WriteMultipleRegisters(a, ws)))
    } else if f == 0x17 {
        if len < 10 {
            return Err(Error::Length);
        }
        let ra: u16 = read_u16(bytes, 1);
        let rq: u16 = read_u16(bytes, 3);
        let wa: u16 = read_u16(bytes, 5);
        let q: usize = read_u16(bytes, 7) as usize;
        let n: usize = bytes[9] as usize;
        if n != 2 * q || len != 10 + n {
            return Err(Error::Length);
        }
        let ws = read_words(bytes, 10, q);
        Ok(RequestPdu(Request::ReadWriteMultipleRegisters(ra, rq, wa, ws)))
    } else {
        let data = copy_range(bytes, 1, len);
        Ok(RequestPdu(Request::Custom(f, data)))
    }
}

/// Whether decoding can tell `req` from every other request: a custom
/// request does not use a function code with a fixed layout.
pub open spec fn request_distinct(req: RequestModel) -> bool {
    match req {
        RequestModel::Custom(f, _) => !is_standard_function(f),
        _ => true,
    }
}

/// A request that is encoded and decoded again is the request that went in.
pub proof fn lemma_request_round_trip(req: RequestModel)
    requires
        request_fits(req),
        request_distinct(req),
    ensures
        spec_decode_request(spec_encode_request(req)) == Ok::<RequestModel, Error>(req),
{
    let bytes = spec_encode_request(req);
    match req {
        RequestModel::WriteMultipleCoils(a, cs) => {
            let prefix = seq![0x0Fu8] + be16(a) + be16(cs.len() as u16) + seq![
                pack_coils(cs).len() as u8,
            ];
            assert(prefix.len() == 6);
            lemma_unpack_pack(prefix, cs);
            assert(word_at(bytes, 3) == cs.len());
            assert(word_at(bytes, 1) == a);
        },
        RequestModel::WriteMultipleRegisters(a, ws) => {
            let prefix = seq![0x10u8] + be16(a) + be16(ws.len() as u16) + seq![
                (2 * ws.len()) as u8,
            ];
            assert(prefix.len() == 6);
            lemma_words_round_trip(prefix, ws);
            assert(word_at(bytes, 3) == ws.len());
            assert(word_at(bytes, 1) == a);
        },
        RequestModel::ReadWriteMultipleRegisters(ra, q, wa, ws) => {
            let prefix = seq![0x17u8] + be16(ra) + be16(q) + be16(wa) + be16(ws.len() as u16)
                + seq![(2 * ws.len()) as u8];
            assert(prefix.len() == 10);
            lemma_words_round_trip(prefix, ws);
            assert(word_at(bytes, 7) == ws.len());
            assert(word_at(bytes, 1) == ra);
            assert(word_at(bytes, 3) == q);
            assert(word_at(bytes, 5) == wa);
        },
        RequestModel::Custom(f, data) => {
            assert(bytes.subrange(1, bytes.len() as int) =~= data);
        },
        RequestModel::WriteSingleCoil(a, c) => {
            assert(word_at(bytes, 1) == a);
            assert(word_at(bytes, 3) == coil_word(c));
        },
        _ => {
            assert(bytes.len() == 5);
        },
    }
}

/// Whether the counters on the wire can count what `outcome` carries.
pub open spec fn response_fits(outcome: Result<ResponseModel, ExceptionResponse>) -> bool {
    match outcome {
        Ok(ResponseModel::ReadCoils(cs)) => cs.len() <= MAX_COILS,
        Ok(ResponseModel::ReadDiscreteInputs(cs)) => cs.len() <= MAX_COILS,
        Ok(ResponseModel::ReadInputRegisters(ws)) => ws.len() <= MAX_WORDS,
        Ok(ResponseModel::ReadHoldingRegisters(ws)) => ws.len() <= MAX_WORDS,
        Ok(ResponseModel::ReadWriteMultipleRegisters(ws)) => ws.len() <= MAX_WORDS,
        _ => true,
    }
}

/// Coils with a one-byte count of the bytes that they are packed into.
pub open spec fn counted_coils(f: u8, cs: Seq<bool>) -> Seq<u8> {
    seq![f] + seq![pack_coils(cs).len() as u8] + pack_coils(cs)
}

/// Words with a one-byte count of their bytes.
pub open spec fn counted_words(f: u8, ws: Seq<u16>) -> Seq<u8> {
    seq![f] + seq![(2 * ws.len()) as u8] + words_bytes(ws)
}

/// The bytes of a response. An exception is the function code that failed
/// with its highest bit set, then the exception's code.
pub open spec fn spec_encode_response(outcome: Result<ResponseModel, ExceptionResponse>) -> Seq<
    u8,
> {
    match outcome {
        Ok(ResponseModel::ReadCoils(cs)) => counted_coils(0x01, cs),
        Ok(ResponseModel::ReadDiscreteInputs(cs)) => counted_coils(0x02, cs),
        Ok(ResponseModel::WriteSingleCoil(a)) => seq![0x05u8] + be16(a),
        Ok(ResponseModel::WriteMultipleCoils(a, q)) => seq![0x0Fu8] + be16(a) + be16(q),
        Ok(ResponseModel::ReadInputRegisters(ws)) => counted_words(0x04, ws),
        Ok(ResponseModel::ReadHoldingRegisters(ws)) => counted_words(0x03, ws),
        Ok(ResponseModel::WriteSingleRegister(a, w)) => seq![0x06u8] + be16(a) + be16(w),
        Ok(ResponseModel::WriteMultipleRegisters(a, q)) => seq![0x10u8] + be16(a) + be16(q),
        Ok(ResponseModel::ReadWriteMultipleRegisters(ws)) => counted_words(0x17, ws),
        Ok(ResponseModel::Custom(f, data)) => seq![f] + data,
        Err(e) => seq![e.function | 0x80, e.exception.spec_code()],
    }
}

/// The response or exception that `bytes` hold, or why they hold none. Read
/// coils come out in whole bytes, eight for each byte on the wire.
pub open spec fn spec_decode_response(bytes: Seq<u8>) -> Result<
    Result<ResponseModel, ExceptionResponse>,
    Error,
> {
    if bytes.len() == 0 {
        Err(Error::TooShort)
    } else {
        let f = bytes[0];
        if f >= 0x80 {
            if bytes.len() != 2 {
                Err(Error::Length)
            } else {
                match Exception::spec_from_code(bytes[1]) {
                    Some(exception) => Ok(Err(ExceptionResponse { function: f & 0x7F, exception })),
                    None => Err(Error::ExceptionCode),
                }
            }
        } else if f == 0x01 || f == 0x02 {
            if bytes.len() < 2 || bytes.len() != 2 + bytes[1] {
                Err(Error::Length)
            } else {
                let cs = unpack_coils(bytes, 2, 8 * bytes[1]);
                if f == 0x01 {
                    Ok(Ok(ResponseModel::ReadCoils(cs)))
                } else {
                    Ok(Ok(ResponseModel::ReadDiscreteInputs(cs)))
                }
            }
        } else if f == 0x03 || f == 0x04 || f == 0x17 {
            if bytes.len() < 2 || bytes[1] % 2 != 0 || bytes.len() != 2 + bytes[1] {
                Err(Error::Length)
            } else {
                let ws = bytes_words(bytes, 2, bytes[1] as int / 2);
                if f == 0x03 {
                    Ok(Ok(ResponseModel::ReadHoldingRegisters(ws)))
                } else if f == 0x04 {
                    Ok(Ok(ResponseModel::ReadInputRegisters(ws)))
                } else {
                    Ok(Ok(ResponseModel::ReadWriteMultipleRegisters(ws)))
                }
            }
        } else if f == 0x05 {
            if bytes.len() != 3 {
                Err(Error::Length)
            } else {
                Ok(Ok(ResponseModel::WriteSingleCoil(word_at(bytes, 1))))
            }
        } else if f == 0x06 || f == 0x0F || f == 0x10 {
            if bytes.len() != 5 {
                Err(Error::Length)
            } else {
                let a = word_at(bytes, 1);
                let v = word_at(bytes, 3);
                if f == 0x06 {
                    Ok(Ok(ResponseModel::WriteSingleRegister(a, v)))
                } else if f == 0x0F {
                    Ok(Ok(ResponseModel::WriteMultipleCoils(a, v)))
                } else {
                    Ok(Ok(ResponseModel::WriteMultipleRegisters(a, v)))
                }
            }
        } else {
            Ok(Ok(ResponseModel::Custom(f, bytes.subrange(1, bytes.len() as int))))
        }
    }
}

fn push_counted_coils(buf: &mut Vec<u8>, f: u8, cs: &Vec<bool>)
    requires
        old(buf)@.len() == 0,
        cs@.len() <= MAX_COILS,
    ensures
        final(buf)@ == counted_coils(f, cs@),
{
    buf.push(f);
    buf.push(((cs.len() + 7) / 8) as u8);
    push_coils(buf, cs);
    assert(buf@ =~= counted_coils(f, cs@));
}

fn push_counted_words(buf: &mut Vec<u8>, f: u8, ws: &Vec<u16>)
    requires
        old(buf)@.len() == 0,
        ws@.len() <= MAX_WORDS,
    ensures
        final(buf)@ == counted_words(f, ws@),
{
    buf.push(f);
    buf.push((2 * ws.len()) as u8);
    push_words(buf, ws);
    assert(buf@ =~= counted_words(f, ws@));
}

/// Encodes a response or an exception. It fails exactly when a counter on
/// the wire cannot count the coils or words that the response carries.
pub fn encode_response(pdu: &ResponsePdu) -> (encoded: Result<Vec<u8>, Error>)
    ensures
        response_fits(pdu@) ==> encoded is Ok && encoded->Ok_0@ == spec_encode_response(pdu@),
        !response_fits(pdu@) ==> encoded is Err && encoded->Err_0 == Error::TooLong,
{
    let mut buf: Vec<u8> = Vec::new();
    match &pdu.0 {
        Ok(Response::ReadCoils(cs)) => {
            if cs.len() > MAX_COILS {
                return Err(Error::TooLong);
            }
            push_counted_coils(&mut buf, 0x01, cs);
        },
        Ok(Response::ReadDiscreteInputs(cs)) => {
            if cs.len() > MAX_COILS {
                return Err(Error::TooLong);
            }
            push_counted_coils(&mut buf, 0x02, cs);
        },
        Ok(Response::WriteSingleCoil(a)) => {
            buf.push(0x05);
            push_u16(&mut buf, *a);
        },
        Ok(Response::WriteMultipleCoils(a, q)) => {
            buf.push(0x0F);
            push_u16(&mut buf, *a);
            push_u16(&mut buf, *q);
        },
        Ok(Response::ReadInputRegisters(ws)) => {
            if ws.len() > MAX_WORDS {
                return Err(Error::TooLong);
            }
            push_counted_words(&mut buf, 0x04, ws);
        },
        Ok(Response::ReadHoldingRegisters(ws)) => {
            if ws.len() > MAX_WORDS {
                return Err(Error::TooLong);
            }
            push_counted_words(&mut buf, 0x03, ws);
        },
        Ok(Response::WriteSingleRegister(a, w)) => {
            buf.push(0x06);
            push_u16(&mut buf, *a);
            push_u16(&mut buf, *w);
        },
        Ok(Response::WriteMultipleRegisters(a, q)) => {
            buf.push(0x10);
            push_u16(&mut buf, *a);
            push_u16(&mut buf, *q);
        },
        Ok(Response::ReadWriteMultipleRegisters(ws)) => {
            if ws.len() > MAX_WORDS {
                return Err(Error::TooLong);
            }
            push_counted_words(&mut buf, 0x17, ws);
        },
        Ok(Response::Custom(f, data)) => {
            buf.push(*f);
            push_all(&mut buf, data.as_slice());
        },
        Err(e) => {
            buf.push(e.function | 0x80);
            buf.push(e.exception.code());
        },
    }
    assert(buf@ =~= spec_encode_response(pdu@));
    Ok(buf)
}

/// Decodes a response or an exception from the bytes of one PDU.
pub fn decode_response(bytes: &[u8]) -> (decoded: Result<ResponsePdu, Error>)
    ensures
        match decoded {
            Ok(pdu) => spec_decode_response(bytes@) == Ok::<
                Result<ResponseModel, ExceptionResponse>,
                Error,
            >(pdu@),
            Err(e) => spec_decode_response(bytes@) == Err::<
                Result<ResponseModel, ExceptionResponse>,
                Error,
            >(e),
        },
{
    let len: usize = bytes.len();
    if len == 0 {
        return Err(Error::TooShort);
    }
    let f: u8 = bytes[0];
    if f >= 0x80 {
        if len != 2 {
            return Err(Error::Length);
        }
        match Exception::from_code(bytes[1]) {
            Some(exception) => Ok(ResponsePdu(Err(ExceptionResponse { function: f & 0x7F, exception }))),
            None => Err(Error::ExceptionCode),
        }
    } else if f == 0x01 || f == 0x02 {
        if len < 2 || len != 2 + bytes[1] as usize {
            return Err(Error::Length);
        }
        let cs = read_coils(bytes, 2, 8 * (bytes[1] as usize));
        if f == 0x01 {
            Ok(ResponsePdu(Ok(Response::ReadCoils(cs))))
        } else {
            Ok(ResponsePdu(Ok(Response::ReadDiscreteInputs(cs))))
        }
    } else if f == 0x03 || f == 0x04 || f == 0x17 {
        if len < 2 || bytes[1] % 2 != 0 || len != 2 + bytes[1] as usize {
            return Err(Error::Length);
        }
        let ws = read_words(bytes, 2, (bytes[1] / 2) as usize);
        if f == 0x03 {
            Ok(ResponsePdu(Ok(Response::ReadHoldingRegisters(ws))))
        } else if f == 0x04 {
            Ok(ResponsePdu(Ok(Response::ReadInputRegisters(ws))))
        } else {
            Ok(ResponsePdu(Ok(Response::ReadWriteMultipleRegisters(ws))))
        }
    } else if f == 0x05 {
        if len != 3 {
            return Err(Error::Length);
        }
        Ok(ResponsePdu(Ok(Response::WriteSingleCoil(read_u16(bytes, 1)))))
    } else if f == 0x06 || f == 0x0F || f == 0x10 {
        if len != 5 {
            return Err(Error::Length);
        }
        let a: u16 = read_u16(bytes, 1);
        let v: u16 = read_u16(bytes, 3);
        if f == 0x06 {
            Ok(ResponsePdu(Ok(Response::WriteSingleRegister(a, v))))
        } else if f == 0x0F {
            Ok(ResponsePdu(Ok(Response::WriteMultipleCoils(a, v))))
        } else {
            Ok(ResponsePdu(Ok(Response::WriteMultipleRegisters(a, v))))
        }
    } else {
        let data = copy_range(bytes, 1, len);
        Ok(ResponsePdu(Ok(Response::Custom(f, data))))
    }
}

/// Whether decoding can tell `outcome` from every other one: read coils
/// fill whole bytes, a custom response uses neither a function code with a
/// fixed layout nor one with the highest bit set, and the function code of an
/// exception has its highest bit clear.
pub open spec fn response_distinct(outcome: Result<ResponseModel, ExceptionResponse>) -> bool {
    match outcome {
        Ok(ResponseModel::ReadCoils(cs)) => cs.len() % 8 == 0,
        Ok(ResponseModel::ReadDiscreteInputs(cs)) => cs.len() % 8 == 0,
        Ok(ResponseModel::Custom(f, _)) => !is_standard_function(f) && f < 0x80,
        Err(e) => e.function < 0x80,
        _ => true,
    }
}

/// Setting the highest bit of a function code below `0x80` adds `0x80`, and
/// clearing it again gives the function code back.
pub proof fn lemma_exception_function_byte(f: u8)
    requires
        f < 0x80,
    ensures
        f | 0x80 == f + 0x80,
        (f | 0x80) & 0x7F == f,
{
    assert(f < 0x80 ==> (f | 0x80) == f + 0x80 && (f | 0x80) & 0x7F == f) by (bit_vector);
}

/// A response or an exception that is encoded and decoded again is the one
/// that went in.
pub proof fn lemma_response_round_trip(outcome: Result<ResponseModel, ExceptionResponse>)
    requires
        response_fits(outcome),
        response_distinct(outcome),
    ensures
        spec_decode_response(spec_encode_response(outcome)) == Ok::<
            Result<ResponseModel, ExceptionResponse>,
            Error,
        >(outcome),
{
    let bytes = spec_encode_response(outcome);
    match outcome {
        Ok(ResponseModel::ReadCoils(cs)) => {
            lemma_unpack_pack(seq![0x01u8] + seq![pack_coils(cs).len() as u8], cs);
        },
        Ok(ResponseModel::ReadDiscreteInputs(cs)) => {
            lemma_unpack_pack(seq![0x02u8] + seq![pack_coils(cs).len() as u8], cs);
        },
        Ok(ResponseModel::ReadInputRegisters(ws)) => {
            lemma_words_round_trip(seq![0x04u8] + seq![(2 * ws.len()) as u8], ws);
        },
        Ok(ResponseModel::ReadHoldingRegisters(ws)) => {
            lemma_words_round_trip(seq![0x03u8] + seq![(2 * ws.len()) as u8], ws);
        },
        Ok(ResponseModel::ReadWriteMultipleRegisters(ws)) => {
            lemma_words_round_trip(seq![0x17u8] + seq![(2 * ws.len()) as u8], ws);
        },
        Ok(ResponseModel::Custom(f, data)) => {
            assert(bytes.subrange(1, bytes.len() as int) =~= data);
        },
        Ok(ResponseModel::WriteSingleCoil(a)) => {
            assert(word_at(bytes, 1) == a);
        },
        Ok(_) => {
            assert(bytes.len() == 5);
        },
        Err(e) => {
            lemma_exception_function_byte(e.function);
            Exception::lemma_code_round_trip(e.exception);
        },
    }
}

/// Where the first PDU of a stream of bytes ends.
#[derive(Debug, Clone, Copy, PartialEq, Eq, Structural)]
pub enum Extent {
    /// The bytes so far do not tell: more are needed.
    Incomplete,
    /// The PDU takes this many bytes.
    Len(usize),
    /// The function code fixes no layout, so nothing tells where the PDU
    /// ends.
    Unknown,
}

/// What to cut off a stream of which `available` bytes have arrived: the
/// length of the first frame once all of it is there, nothing as long as
/// bytes are missing, and an error where nothing tells where the frame ends.
pub open spec fn spec_complete(extent: Extent, available: usize) -> Result<Option<usize>, Error> {
    match extent {
        Extent::Incomplete => Ok(None),
        Extent::Len(n) => if n <= available {
            Ok(Some(n))
        } else {
            Ok(None)
        },
        Extent::Unknown => Err(Error::FunctionCode),
    }
}

impl Extent {
    /// Decides what to cut off a stream of which `available` bytes have
    /// arrived.
    pub fn complete(self, available: usize) -> (cut: Result<Option<usize>, Error>)
        ensures
            cut == spec_complete(self, available),
    {
        match self {
            Extent::Incomplete => Ok(None),
            Extent::Len(n) => if n <= available {
                Ok(Some(n))
            } else {
                Ok(None)
            },
            Extent::Unknown => Err(Error::FunctionCode),
        }
    }
}

/// Where the request ends that `bytes` begin with.
pub open spec fn spec_request_extent(bytes: Seq<u8>) -> Extent {
    if bytes.len() == 0 {
        Extent::Incomplete
    } else {
        let f = bytes[0];
        if f == 0x01 || f == 0x02 || f == 0x03 || f == 0x04 || f == 0x05 || f == 0x06 {
            Extent::Len(5)
        } else if f == 0x0F || f == 0x10 {
            if bytes.len() < 6 {
                Extent::Incomplete
            } else {
                Extent::Len((6 + bytes[5]) as usize)
            }
        } else if f == 0x17 {
            if bytes.len() < 10 {
                Extent::Incomplete
            } else {
                Extent::Len((10 + bytes[9]) as usize)
            }
        } else {
            Extent::Unknown
        }
    }
}

/// Where the response or exception ends that `bytes` begin with.
pub open spec fn spec_response_extent(bytes: Seq<u8>) -> Extent {
    if bytes.len() == 0 {
        Extent::Incomplete
    } else {
        let f = bytes[0];
        if f >= 0x80 {
            Extent::Len(2)
        } else if f == 0x01 || f == 0x02 || f == 0x03 || f == 0x04 || f == 0x17 {
            if bytes.len() < 2 {
                Extent::Incomplete
            } else {
                Extent::Len((2 + bytes[1]) as usize)
            }
        } else if f == 0x05 {
            Extent::Len(3)
        } else if f == 0x06 || f == 0x0F || f == 0x10 {
            Extent::Len(5)
        } else {
            Extent::Unknown
        }
    }
}

/// Tells where the request ends that a stream of bytes begins with.
pub fn request_extent(bytes: &[u8]) -> (extent: Extent)
    ensures
        extent == spec_request_extent(bytes@),
{
    let len: usize = bytes.len();
    if len == 0 {
        return Extent::Incomplete;
    }
    let f: u8 = bytes[0];
    if f == 0x01 || f == 0x02 || f == 0x03 || f == 0x04 || f == 0x05 || f == 0x06 {
        Extent::Len(5)
    } else if f == 0x0F || f == 0x10 {
        if len < 6 {
            Extent::Incomplete
        } else {
            Extent::Len(6 + bytes[5] as usize)
        }
    } else if f == 0x17 {
        if len < 10 {
            Extent::Incomplete
        } else {
            Extent::Len(10 + bytes[9] as usize)
        }
    } else {
        Extent::Unknown
    }
}

/// Tells where the response or exception ends that a stream of bytes begins
/// with.
pub fn response_extent(bytes: &[u8]) -> (extent: Extent)
    ensures
        extent == spec_response_extent(bytes@),
{
    let len: usize = bytes.len();
    if len == 0 {
        return Extent::Incomplete;
    }
    let f: u8 = bytes[0];
    if f >= 0x80 {
        Extent::Len(2)
    } else if f == 0x01 || f == 0x02 || f == 0x03 || f == 0x04 || f == 0x17 {
        if len < 2 {
            Extent::Incomplete
        } else {
            Extent::Len(2 + bytes[1] as usize)
        }
    } else if f == 0x05 {
        Extent::Len(3)
    } else if f == 0x06 || f == 0x0F || f == 0x10 {
        Extent::Len(5)
    } else {
        Extent::Unknown
    }
}

/// Whatever follows an encoded request in a stream, the request's end is
/// found where its encoding ends, unless it is a custom one.
pub proof fn lemma_request_extent(req: RequestModel, rest: Seq<u8>)
    requires
        request_fits(req),
        !(req is Custom),
    ensures
        spec_request_extent(spec_encode_request(req) + rest) == Extent::Len(
            spec_encode_request(req).len() as usize,
        ),
{
    let bytes = spec_encode_request(req);
    let stream = bytes + rest;
    assert(stream[0] == bytes[0]);
    match req {
        RequestModel::WriteMultipleCoils(_, cs) => {
            assert(stream[5] == bytes[5]);
        },
        RequestModel::WriteMultipleRegisters(_, ws) => {
            assert(stream[5] == bytes[5]);
        },
        RequestModel::ReadWriteMultipleRegisters(_, _, _, ws) => {
            assert(stream[9] == bytes[9]);
        },
        _ => {},
    }
}

/// Whatever follows an encoded response or exception in a stream, its end is
/// found where its encoding ends, unless it is a custom response.
pub proof fn lemma_response_extent(
    outcome: Result<ResponseModel, ExceptionResponse>,
    rest: Seq<u8>,
)
    requires
        response_fits(outcome),
        !(outcome matches Ok(ResponseModel::Custom(_, _))),
    ensures
        spec_response_extent(spec_encode_response(outcome) + rest) == Extent::Len(
            spec_encode_response(outcome).len() as usize,
        ),
{
    let bytes = spec_encode_response(outcome);
    let stream = bytes + rest;
    assert(stream[0] == bytes[0]);
    match outcome {
        Err(e) => {
            let f = e.function;
            assert(f | 0x80 >= 0x80) by (bit_vector);
        },
        Ok(ResponseModel::WriteSingleCoil(_)) => {},
        Ok(ResponseModel::WriteMultipleCoils(_, _)) => {},
        Ok(ResponseModel::WriteSingleRegister(_, _)) => {},
        Ok(ResponseModel::WriteMultipleRegisters(_, _)) => {},
        Ok(_) => {
            assert(stream[1] == bytes[1]);
        },
    }
}

/// The bytes that decode to a request other than a custom one end where
/// that request is found to end.
pub proof fn lemma_decoded_request_extent(bytes: Seq<u8>)
    requires
        spec_decode_request(bytes) matches Ok(req) && !(req is Custom),
    ensures
        spec_request_extent(bytes) == Extent::Len(bytes.len() as usize),
{
}

/// The bytes that decode to a response other than a custom one, or to an
/// exception, end where it is found to end.
pub proof fn lemma_decoded_response_extent(bytes: Seq<u8>)
    requires
        spec_decode_response(bytes) matches Ok(outcome) && !(outcome matches Ok(
            ResponseModel::Custom(_, _),
        )),
    ensures
        spec_response_extent(bytes) == Extent::Len(bytes.len() as usize),
{
}

} // verus!
