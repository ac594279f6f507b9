use std::io::{Error, ErrorKind};
use tokio_modbus::frame::tcp::{Header, RequestAdu, ResponseAdu};
use tokio_modbus::frame::{Request, RequestPdu, Response, ResponsePdu};
use tokio_modbus::server::{frame_outcome, split_request, Handler, ServiceWrapper};

#[derive(Clone)]
struct DummyService {
    response: Response,
}

impl Handler for DummyService {
    type Error = Error;

    fn handle(&self, _: Request) -> Result<Response, Error> {
        Ok(self.response.clone())
    }
}

struct FailingService;

impl Handler for FailingService {
    type Error = Error;

    fn handle(&self, _: Request) -> Result<Response, Error> {
        Err(Error::new(ErrorKind::Other, "no such register"))
    }
}

#[test]
fn service_wrapper() {
    let s = DummyService {
        response: Response::ReadInputRegisters(vec![0x33]),
    };
    let service = ServiceWrapper::new(s.clone());

    let hdr = Header {
        transaction_id: 9,
        unit_id: 7,
    };
    let pdu = Request::ReadInputRegisters(0, 1).into();
    let req_adu = RequestAdu { hdr, pdu };
    let res_adu = service.call(req_adu).unwrap();

    assert_eq!(
        res_adu.hdr,
        Header {
            transaction_id: 9,
            unit_id: 7,
        }
    );
    assert_eq!(res_adu.pdu, s.response.into());
}

#[test]
fn service_wrapper_passes_handler_error_on() {
    let service = ServiceWrapper::new(FailingService);
    let hdr = Header { transaction_id: 1, unit_id: 2 };
    let req_adu = RequestAdu { hdr, pdu: RequestPdu(Request::ReadCoils(0, 1)) };
    let err = service.call(req_adu).unwrap_err();
    assert_eq!(err.kind(), ErrorKind::Other);
    assert_eq!(format!("{}", err), "no such register");
}

#[test]
fn split_request_gives_header_and_request() {
    let hdr = Header { transaction_id: 0x1234, unit_id: 0x56 };
    let req = Request::WriteMultipleRegisters(3, vec![1, 2]);
    let (h, r) = split_request(RequestAdu { hdr, pdu: RequestPdu(req.clone()) });
    assert_eq!(h, hdr);
    assert_eq!(r, req);
}

#[test]
fn frame_outcome_echoes_header() {
    let hdr = Header { transaction_id: 0xFFFF, unit_id: 0 };
    let ok: Result<Response, ()> = Ok(Response::WriteSingleCoil(4));
    assert_eq!(
        frame_outcome(hdr, ok),
        Ok(ResponseAdu { hdr, pdu: ResponsePdu(Ok(Response::WriteSingleCoil(4))) })
    );
    let failed: Result<Response, u8> = Err(3);
    assert_eq!(frame_outcome(hdr, failed), Err(3));
}
