//! The call pipeline over TCP.

use crate::frame::tcp::{Header, RequestAdu, ResponseAdu, TransactionId, UnitId};
use crate::frame::{ExceptionResponse, Request, RequestPdu, Response, ResponsePdu};
use crate::text::{append_decimal, spec_decimal};
use vstd::prelude::*;
use vstd::string::StringExecFns;

verus! {

/// Why a call did not yield a response.
#[derive(Debug, Clone, Copy, PartialEq, Eq, Structural)]
pub enum Error {
    /// The reply carries another header than the request.
    InvalidResponseHeader { expected: Header, actual: Header },
    /// The server answered with an exception.
    Exception(ExceptionResponse),
}

/// A header as text, for the messages that report it.
pub open spec fn spec_header_text(hdr: Header) -> Seq<char> {
    "Header { transaction_id: "@ + spec_decimal(hdr.transaction_id as nat) + ", unit_id: "@
        + spec_decimal(hdr.unit_id as nat) + " }"@
}

fn append_header(text: &mut String, hdr: Header)
    ensures
        final(text)@ == old(text)@ + spec_header_text(hdr),
{
    text.append("Header { transaction_id: ");
    append_decimal(text, hdr.transaction_id);
    text.append(", unit_id: ");
    append_decimal(text, hdr.unit_id as u16);
    text.append(" }");
    assert(text@ =~= old(text)@ + spec_header_text(hdr));
}

impl Error {
    /// The text that reports this error: both headers where they differ,
    /// and the exception's own message otherwise.
    pub open spec fn spec_message(self) -> Seq<char> {
        match self {
            Error::InvalidResponseHeader { expected, actual } => {
                "Invalid response header: expected/request = "@ + spec_header_text(expected)
                    + ", actual/response = "@ + spec_header_text(actual)
            },
            Error::Exception(e) => e.spec_message(),
        }
    }

    /// Reports this error as text.
    pub fn message(&self) -> (text: String)
        ensures
            text@ == self.spec_message(),
    {
        match *self {
            Error::InvalidResponseHeader { expected, actual } => {
                let mut text = String::new();
                text.append("Invalid response header: expected/request = ");
                append_header(&mut text, expected);
                text.append(", actual/response = ");
                append_header(&mut text, actual);
                assert(text@ =~= self.spec_message());
                text
            },
            Error::Exception(e) => e.message(),
        }
    }
}

/// The state of a Modbus TCP client: the unit that the calls address and
/// the transaction identifier that the next call goes out under.
#[derive(Debug, Clone, Copy, PartialEq, Eq, Structural)]
pub struct Context {
    pub unit_id: UnitId,
    pub transaction_id: TransactionId,
}

/// The first transaction identifier of a connection.
pub const INITIAL_TRANSACTION_ID: TransactionId = 0;

/// The transaction identifier that follows `id`: the next number, and 0 after
/// the largest.
pub open spec fn spec_next_transaction_id(id: TransactionId) -> TransactionId {
    if id == u16::MAX {
        0
    } else {
        (id + 1) as u16
    }
}

impl Context {
    pub fn new(unit_id: UnitId) -> (ctx: Self)
        ensures
            ctx == (Context { unit_id, transaction_id: INITIAL_TRANSACTION_ID }),
    {
        Context { unit_id, transaction_id: INITIAL_TRANSACTION_ID }
    }

    /// Selects the unit for the calls that follow.
    pub fn set_unit(&mut self, unit_id: UnitId)
        ensures
            *final(self) == (Context { unit_id, transaction_id: old(self).transaction_id }),
    {
        self.unit_id = unit_id;
    }

    /// The data unit that carries `req` to the current unit under the
    /// current transaction identifier. The call that follows goes out under
    /// the next one, which is another.
    pub fn next_request_adu(&mut self, req: Request) -> (adu: RequestAdu)
        ensures
            adu.hdr == (Header {
                transaction_id: old(self).transaction_id,
                unit_id: old(self).unit_id,
            }),
            adu.pdu == RequestPdu(req),
            final(self).unit_id == old(self).unit_id,
            final(self).transaction_id == spec_next_transaction_id(old(self).transaction_id),
            final(self).transaction_id != old(self).transaction_id,
    {
        let transaction_id: u16 = self.transaction_id;
        self.transaction_id = if transaction_id == u16::MAX {
            0
        } else {
            transaction_id + 1
        };
        let hdr = Header { transaction_id, unit_id: self.unit_id };
        RequestAdu { hdr, pdu: RequestPdu(req) }
    }
}

/// What a reply means for the call that sent a request under `req_hdr`.
pub open spec fn spec_resolve(req_hdr: Header, rsp_adu: ResponseAdu) -> Result<Response, Error> {
    if req_hdr != rsp_adu.hdr {
        Err(Error::InvalidResponseHeader { expected: req_hdr, actual: rsp_adu.hdr })
    } else {
        match rsp_adu.pdu.0 {
            Ok(rsp) => Ok(rsp),
            Err(e) => Err(Error::Exception(e)),
        }
    }
}

/// Accepts a reply header exactly when it equals the request's header.
pub fn verify_response_header(req_hdr: Header, rsp_hdr: Header) -> (checked: Result<(), Error>)
    ensures
        req_hdr == rsp_hdr ==> checked == Ok::<(), Error>(()),
        req_hdr != rsp_hdr ==> checked == Err::<(), Error>(
            Error::InvalidResponseHeader { expected: req_hdr, actual: rsp_hdr },
        ),
{
    if req_hdr != rsp_hdr {
        return Err(Error::InvalidResponseHeader { expected: req_hdr, actual: rsp_hdr });
    }
    Ok(())
}

/// Resolves a call: a reply under another header is a correlation error,
/// an exception under the right header is reported as such, and a response
/// under the right header is the call's result.
pub fn resolve_response(req_hdr: Header, rsp_adu: ResponseAdu) -> (outcome: Result<
    Response,
    Error,
>)
    ensures
        outcome == spec_resolve(req_hdr, rsp_adu),
{
    let ResponseAdu { hdr, pdu } = rsp_adu;
    match verify_response_header(req_hdr, hdr) {
        Err(e) => Err(e),
        Ok(()) => match pdu {
            ResponsePdu(Ok(rsp)) => Ok(rsp),
            ResponsePdu(Err(e)) => Err(Error::Exception(e)),
        },
    }
}

/// A call yields a value only from a reply that carries the request's header.
pub proof fn lemma_resolve_correlates(req_hdr: Header, rsp_adu: ResponseAdu)
    ensures
        spec_resolve(req_hdr, rsp_adu) is Ok <==> (req_hdr == rsp_adu.hdr && rsp_adu.pdu.0 is Ok),
        req_hdr != rsp_adu.hdr ==> spec_resolve(req_hdr, rsp_adu) == Err::<Response, Error>(
            Error::InvalidResponseHeader { expected: req_hdr, actual: rsp_adu.hdr },
        ),
{
}

} // verus!
