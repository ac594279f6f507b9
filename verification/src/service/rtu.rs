//! The call pipeline over a serial line.

use crate::frame::rtu::{Header, RequestAdu, ResponseAdu, SlaveId};
use crate::frame::{ExceptionResponse, Request, RequestPdu, Response, ResponsePdu};
use crate::slave::{Slave, SlaveContext};
use crate::text::{append_decimal, spec_decimal};
use vstd::prelude::*;
use vstd::string::StringExecFns;

verus! {

/// Why a call did not yield a response.
#[derive(Debug, Clone, Copy, PartialEq, Eq, Structural)]
pub enum Error {
    /// The reply carries another header than the request.
    InvalidResponseHeader { expected: Header, actual: Header },
    /// The server answered with an exception.
    Exception(ExceptionResponse),
}

/// A header as text, for the messages that report it.
pub open spec fn spec_header_text(hdr: Header) -> Seq<char> {
    "Header { slave_id: "@ + spec_decimal(hdr.slave_id as nat) + " }"@
}

fn append_header(text: &mut String, hdr: Header)
    ensures
        final(text)@ == old(text)@ + spec_header_text(hdr),
{
    text.append("Header { slave_id: ");
    append_decimal(text, hdr.slave_id as u16);
    text.append(" }");
    assert(text@ =~= old(text)@ + spec_header_text(hdr));
}

impl Error {
    /// The text that reports this error: both headers where they differ,
    /// and the exception's own message otherwise.
    pub open spec fn spec_message(self) -> Seq<char> {
        match self {
            Error::InvalidResponseHeader { expected, actual } => {
                "Invalid response header: expected/request = "@ + spec_header_text(expected)
                    + ", actual/response = "@ + spec_header_text(actual)
            },
            Error::Exception(e) => e.spec_message(),
        }
    }

    /// Reports this error as text.
    pub fn message(&self) -> (text: String)
        ensures
            text@ == self.spec_message(),
    {
        match *self {
            Error::InvalidResponseHeader { expected, actual } => {
                let mut text = String::new();
                text.append("Invalid response header: expected/request = ");
                append_header(&mut text, expected);
                text.append(", actual/response = ");
                append_header(&mut text, actual);
                assert(text@ =~= self.spec_message());
                text
            },
            Error::Exception(e) => e.message(),
        }
    }
}

/// The state of a Modbus RTU client: the slave that the next call addresses.
#[derive(Debug, Clone, Copy, PartialEq, Eq, Structural)]
pub struct Context {
    pub slave_id: SlaveId,
}

impl Context {
    pub fn bind(slave_id: SlaveId) -> (ctx: Self)
        ensures
            ctx.slave_id == slave_id,
    {
        Context { slave_id }
    }

    /// The data unit that carries `req` to the current slave.
    pub fn next_request_adu(&self, req: Request) -> (adu: RequestAdu)
        ensures
            adu.hdr == (Header { slave_id: self.slave_id }),
            adu.pdu == RequestPdu(req),
    {
        let slave_id = self.slave_id;
        let hdr = Header { slave_id };
        let pdu = RequestPdu(req);
        RequestAdu { hdr, pdu }
    }
}

impl SlaveContext for Context {
    fn set_slave(&mut self, slave: Slave)
        ensures
            final(self).slave_id == slave.0,
    {
        self.slave_id = slave.0;
    }
}

/// What a reply means for the call that sent a request under `req_hdr`.
pub open spec fn spec_resolve(req_hdr: Header, rsp_adu: ResponseAdu) -> Result<Response, Error> {
    if req_hdr != rsp_adu.hdr {
        Err(Error::InvalidResponseHeader { expected: req_hdr, actual: rsp_adu.hdr })
    } else {
        match rsp_adu.pdu.0 {
            Ok(rsp) => Ok(rsp),
            Err(e) => Err(Error::Exception(e)),
        }
    }
}

/// Accepts a reply header exactly when it equals the request's header.
pub fn verify_response_header(req_hdr: Header, rsp_hdr: Header) -> (checked: Result<(), Error>)
    ensures
        req_hdr == rsp_hdr ==> checked == Ok::<(), Error>(()),
        req_hdr != rsp_hdr ==> checked == Err::<(), Error>(
            Error::InvalidResponseHeader { expected: req_hdr, actual: rsp_hdr },
        ),
{
    if req_hdr != rsp_hdr {
        return Err(Error::InvalidResponseHeader { expected: req_hdr, actual: rsp_hdr });
    }
    Ok(())
}

/// Resolves a call: a reply under another header is a correlation error,
/// an exception under the right header is reported as such, and a response
/// under the right header is the call's result.
pub fn resolve_response(req_hdr: Header, rsp_adu: ResponseAdu) -> (outcome: Result<
    Response,
    Error,
>)
    ensures
        outcome == spec_resolve(req_hdr, rsp_adu),
{
    let ResponseAdu { hdr, pdu } = rsp_adu;
    match verify_response_header(req_hdr, hdr) {
        Err(e) => Err(e),
        Ok(()) => match pdu {
            ResponsePdu(Ok(rsp)) => Ok(rsp),
            ResponsePdu(Err(e)) => Err(Error::Exception(e)),
        },
    }
}

/// A call yields a value only from a reply that carries the request's header.
pub proof fn lemma_resolve_correlates(req_hdr: Header, rsp_adu: ResponseAdu)
    ensures
        spec_resolve(req_hdr, rsp_adu) is Ok <==> (req_hdr == rsp_adu.hdr && rsp_adu.pdu.0 is Ok),
        req_hdr != rsp_adu.hdr ==> spec_resolve(req_hdr, rsp_adu) == Err::<Response, Error>(
            Error::InvalidResponseHeader { expected: req_hdr, actual: rsp_adu.hdr },
        ),
{
}

} // verus!
