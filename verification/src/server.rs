//! The server side: a handler of requests exposed as a service of data units.

use crate::frame::tcp::{Header, RequestAdu, ResponseAdu};
use crate::frame::{Request, Response, ResponsePdu};
use vstd::prelude::*;

verus! {

/// The business logic behind a server: it consumes a request and produces a
/// response or fails. One handler serves one connection.
pub trait Handler {
    type Error;

    fn handle(&self, req: Request) -> Result<Response, Self::Error>;
}

/// Exposes a handler of requests as a service of TCP data units.
pub struct ServiceWrapper<S> {
    pub service: S,
}

/// Takes a request data unit apart: the header to echo, and the request to
/// hand to the handler.
pub fn split_request(adu: RequestAdu) -> (parts: (Header, Request))
    ensures
        parts.0 == adu.hdr,
        parts.1 == adu.pdu.0,
{
    let RequestAdu { hdr, pdu } = adu;
    (hdr, pdu.0)
}

/// What the service emits for a handler's outcome: a response under the
/// request's header, or the handler's error as it is.
pub open spec fn spec_frame_outcome<E>(hdr: Header, outcome: Result<Response, E>) -> Result<
    ResponseAdu,
    E,
> {
    match outcome {
        Ok(rsp) => Ok(ResponseAdu { hdr, pdu: ResponsePdu(Ok(rsp)) }),
        Err(e) => Err(e),
    }
}

/// Frames a handler's outcome for the request that came under `hdr`.
pub fn frame_outcome<E>(hdr: Header, outcome: Result<Response, E>) -> (framed: Result<
    ResponseAdu,
    E,
>)
    ensures
        framed == spec_frame_outcome(hdr, outcome),
{
    match outcome {
        Ok(rsp) => Ok(ResponseAdu { hdr, pdu: ResponsePdu(Ok(rsp)) }),
        Err(e) => Err(e),
    }
}

impl<S: Handler> ServiceWrapper<S> {
    pub fn new(service: S) -> (wrapper: Self)
        ensures
            wrapper.service == service,
    {
        ServiceWrapper { service }
    }

    /// Serves one request data unit: the handler gets the request, and its
    /// response goes out under the header that the request came with.
    pub fn call(&self, adu: RequestAdu) -> (served: Result<ResponseAdu, S::Error>)
        ensures
            spec_serves(&self.service, adu, served),
    {
        let (hdr, req) = split_request(adu);
        let outcome = self.service.handle(req);
        frame_outcome(hdr, outcome)
    }
}

/// Whether `outcome` is an answer that the handler may give to `req`.
pub open spec fn spec_handles<S: Handler>(
    service: &S,
    req: Request,
    outcome: Result<Response, S::Error>,
) -> bool {
    call_ensures(S::handle, (service, req), outcome)
}

/// Whether `served` is what a service emits for a request data unit: an
/// answer of its handler to the request that the unit carries, a response
/// under the unit's own header and an error as it is.
pub open spec fn spec_serves<S: Handler>(
    service: &S,
    adu: RequestAdu,
    served: Result<ResponseAdu, S::Error>,
) -> bool {
    match served {
        Ok(rsp_adu) => rsp_adu.hdr == adu.hdr && (rsp_adu.pdu.0 matches Ok(rsp) && spec_handles(
            service,
            adu.pdu.0,
            Ok(rsp),
        )),
        Err(e) => spec_handles(service, adu.pdu.0, Err(e)),
    }
}

/// What a service emits is the framed answer of its handler: a success
/// carries the request's header and a response, never an exception.
pub proof fn lemma_served_is_framed_answer<S: Handler>(
    service: &S,
    adu: RequestAdu,
    served: Result<ResponseAdu, S::Error>,
)
    requires
        spec_serves(service, adu, served),
    ensures
        exists|outcome: Result<Response, S::Error>|
            spec_handles(service, adu.pdu.0, outcome) && served == spec_frame_outcome(
                adu.hdr,
                outcome,
            ),
        served matches Ok(rsp_adu) ==> rsp_adu.hdr == adu.hdr && rsp_adu.pdu.0 is Ok,
{
    match served {
        Ok(rsp_adu) => {
            let rsp = rsp_adu.pdu.0->Ok_0;
            let outcome = Ok::<Response, S::Error>(rsp);
            assert(spec_handles(service, adu.pdu.0, outcome));
            assert(served == spec_frame_outcome(adu.hdr, outcome));
        },
        Err(e) => {
            let outcome = Err::<Response, S::Error>(e);
            assert(spec_handles(service, adu.pdu.0, outcome));
            assert(served == spec_frame_outcome(adu.hdr, outcome));
        },
    }
}

/// A response that is framed under a header carries that header, so the
/// client that sent the request under it accepts the reply.
pub proof fn lemma_framed_response_correlates(hdr: Header, rsp: Response)
    ensures
        spec_frame_outcome::<()>(hdr, Ok(rsp)) matches Ok(adu) && crate::service::tcp::spec_resolve(
            hdr,
            adu,
        ) == Ok::<Response, crate::service::tcp::Error>(rsp),
{
}

} // verus!
