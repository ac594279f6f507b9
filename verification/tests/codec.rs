use tokio_modbus::codec::{self, Error, Extent};
use tokio_modbus::frame::{
    rtu, tcp, Exception, ExceptionResponse, Request, RequestPdu, Response, ResponsePdu,
};

fn request_cases() -> Vec<(Request, Vec<u8>)> {
    vec![
        (Request::ReadCoils(0x12, 4), vec![0x01, 0x00, 0x12, 0x00, 0x04]),
        (Request::ReadDiscreteInputs(0x03, 19), vec![0x02, 0x00, 0x03, 0x00, 19]),
        (Request::WriteSingleCoil(0x1234, true), vec![0x05, 0x12, 0x34, 0xFF, 0x00]),
        (Request::WriteSingleCoil(0x1234, false), vec![0x05, 0x12, 0x34, 0x00, 0x00]),
        (
            Request::WriteMultipleCoils(0x3311, vec![true, false, true, true]),
            vec![0x0F, 0x33, 0x11, 0x00, 0x04, 0x01, 0b0000_1101],
        ),
        (
            Request::WriteMultipleCoils(
                1,
                vec![true, false, false, false, false, false, false, false, false, true],
            ),
            vec![0x0F, 0x00, 0x01, 0x00, 0x0A, 0x02, 0x01, 0x02],
        ),
        (Request::ReadInputRegisters(0x09, 77), vec![0x04, 0x00, 0x09, 0x00, 0x4D]),
        (Request::ReadHoldingRegisters(0x09, 77), vec![0x03, 0x00, 0x09, 0x00, 0x4D]),
        (Request::WriteSingleRegister(0x07, 0xABCD), vec![0x06, 0x00, 0x07, 0xAB, 0xCD]),
        (
            Request::WriteMultipleRegisters(0x06, vec![0xABCD, 0xEF12]),
            vec![0x10, 0x00, 0x06, 0x00, 0x02, 0x04, 0xAB, 0xCD, 0xEF, 0x12],
        ),
        (
            Request::ReadWriteMultipleRegisters(0x05, 51, 0x03, vec![0xABCD, 0xEF12]),
            vec![
                0x17, 0x00, 0x05, 0x00, 0x33, 0x00, 0x03, 0x00, 0x02, 0x04, 0xAB, 0xCD, 0xEF,
                0x12,
            ],
        ),
        (Request::Custom(0x55, vec![0xCC, 0x88, 0xAA, 0xFF]), vec![0x55, 0xCC, 0x88, 0xAA, 0xFF]),
        (Request::Custom(0x42, vec![]), vec![0x42]),
    ]
}

fn response_cases() -> Vec<(Response, Vec<u8>)> {
    vec![
        (
            Response::ReadCoils(vec![true, false, false, true, false, false, false, false]),
            vec![0x01, 0x01, 0b0000_1001],
        ),
        (
            Response::ReadDiscreteInputs(vec![
                true, false, true, true, false, false, false, false,
            ]),
            vec![0x02, 0x01, 0b0000_1101],
        ),
        (Response::WriteSingleCoil(0x33), vec![0x05, 0x00, 0x33]),
        (Response::WriteMultipleCoils(0x3311, 5), vec![0x0F, 0x33, 0x11, 0x00, 0x05]),
        (
            Response::ReadInputRegisters(vec![0xAA00, 0xCCBB, 0xEEDD]),
            vec![0x04, 0x06, 0xAA, 0x00, 0xCC, 0xBB, 0xEE, 0xDD],
        ),
        (
            Response::ReadHoldingRegisters(vec![0xAA00, 0x1111]),
            vec![0x03, 0x04, 0xAA, 0x00, 0x11, 0x11],
        ),
        (Response::WriteSingleRegister(0x07, 0xABCD), vec![0x06, 0x00, 0x07, 0xAB, 0xCD]),
        (Response::WriteMultipleRegisters(0x06, 2), vec![0x10, 0x00, 0x06, 0x00, 0x02]),
        (Response::ReadWriteMultipleRegisters(vec![0x1234]), vec![0x17, 0x02, 0x12, 0x34]),
        (Response::Custom(0x55, vec![0xCC, 0x88, 0xAA, 0xFF]), vec![0x55, 0xCC, 0x88, 0xAA, 0xFF]),
    ]
}

#[test]
fn requests_encode_to_their_layout() {
    for (req, bytes) in request_cases() {
        assert_eq!(codec::encode_request(&req), Ok(bytes));
    }
}

#[test]
fn requests_decode_from_their_layout() {
    for (req, bytes) in request_cases() {
        assert_eq!(codec::decode_request(&bytes), Ok(RequestPdu(req)));
    }
}

#[test]
fn responses_encode_to_their_layout() {
    for (rsp, bytes) in response_cases() {
        assert_eq!(codec::encode_response(&ResponsePdu(Ok(rsp))), Ok(bytes));
    }
}

#[test]
fn responses_decode_from_their_layout() {
    for (rsp, bytes) in response_cases() {
        assert_eq!(codec::decode_response(&bytes), Ok(ResponsePdu(Ok(rsp))));
    }
}

#[test]
fn read_coils_come_back_in_whole_bytes() {
    let pdu = ResponsePdu(Ok(Response::ReadCoils(vec![true, false, true])));
    let bytes = codec::encode_response(&pdu).unwrap();
    assert_eq!(bytes, vec![0x01, 0x01, 0b0000_0101]);
    assert_eq!(
        codec::decode_response(&bytes),
        Ok(ResponsePdu(Ok(Response::ReadCoils(vec![
            true, false, true, false, false, false, false, false
        ]))))
    );
}

#[test]
fn exception_round_trip() {
    let e = ExceptionResponse { function: 0x04, exception: Exception::IllegalDataAddress };
    let bytes = codec::encode_response(&ResponsePdu(Err(e))).unwrap();
    assert_eq!(bytes, vec![0x84, 0x02]);
    assert_eq!(bytes[0], 0x04 | 0x80);
    assert_eq!(codec::decode_response(&bytes), Ok(ResponsePdu(Err(e))));
}

#[test]
fn every_exception_round_trips() {
    let all = [
        Exception::IllegalFunction,
        Exception::IllegalDataAddress,
        Exception::IllegalDataValue,
        Exception::ServerDeviceFailure,
        Exception::Acknowledge,
        Exception::ServerDeviceBusy,
        Exception::MemoryParityError,
        Exception::GatewayPathUnavailable,
        Exception::GatewayTargetDevice,
    ];
    for exception in all {
        for function in [0x01u8, 0x10, 0x17, 0x7F] {
            let e = ExceptionResponse { function, exception };
            let bytes = codec::encode_response(&ResponsePdu(Err(e))).unwrap();
            assert_eq!(bytes, vec![function + 0x80, exception.code()]);
            assert_eq!(codec::decode_response(&bytes), Ok(ResponsePdu(Err(e))));
        }
    }
}

#[test]
fn decode_errors() {
    assert_eq!(codec::decode_request(&[]), Err(Error::TooShort));
    assert_eq!(codec::decode_response(&[]), Err(Error::TooShort));
    assert_eq!(codec::decode_request(&[0x01, 0x00, 0x12, 0x00]), Err(Error::Length));
    assert_eq!(codec::decode_request(&[0x01, 0, 0, 0, 1, 0]), Err(Error::Length));
    assert_eq!(codec::decode_request(&[0x05, 0x12, 0x34, 0x12, 0x00]), Err(Error::CoilValue));
    assert_eq!(codec::decode_request(&[0x0F, 0, 1, 0, 4, 2, 0x0D, 0]), Err(Error::Length));
    assert_eq!(codec::decode_request(&[0x0F, 0, 1, 0, 4, 1]), Err(Error::Length));
    assert_eq!(codec::decode_request(&[0x10, 0, 6, 0, 2, 4, 0xAB, 0xCD, 0xEF]), Err(Error::Length));
    assert_eq!(codec::decode_request(&[0x10, 0, 6, 0, 2, 3, 0xAB, 0xCD, 0xEF]), Err(Error::Length));
    assert_eq!(codec::decode_request(&[0x17, 0, 5, 0, 1, 0, 3, 0, 1]), Err(Error::Length));
    assert_eq!(codec::decode_response(&[0x04, 0x03, 1, 2, 3]), Err(Error::Length));
    assert_eq!(codec::decode_response(&[0x04, 0x04, 1, 2]), Err(Error::Length));
    assert_eq!(codec::decode_response(&[0x01, 0x02, 1]), Err(Error::Length));
    assert_eq!(codec::decode_response(&[0x05, 0x00]), Err(Error::Length));
    assert_eq!(codec::decode_response(&[0x06, 0, 7, 0xAB]), Err(Error::Length));
    assert_eq!(codec::decode_response(&[0x84]), Err(Error::Length));
    assert_eq!(codec::decode_response(&[0x84, 0x02, 0x00]), Err(Error::Length));
    assert_eq!(codec::decode_response(&[0x84, 0x07]), Err(Error::ExceptionCode));
    assert_eq!(codec::decode_response(&[0x84, 0x00]), Err(Error::ExceptionCode));
}

#[test]
fn encode_limits() {
    assert!(codec::encode_request(&Request::WriteMultipleCoils(0, vec![true; 2040])).is_ok());
    assert_eq!(
        codec::encode_request(&Request::WriteMultipleCoils(0, vec![true; 2041])),
        Err(Error::TooLong)
    );
    let most = codec::encode_request(&Request::WriteMultipleRegisters(0, vec![7; 127])).unwrap();
    assert_eq!(most.len(), 6 + 254);
    assert_eq!(most[5], 254);
    assert_eq!(
        codec::encode_request(&Request::WriteMultipleRegisters(0, vec![7; 128])),
        Err(Error::TooLong)
    );
    assert_eq!(
        codec::encode_request(&Request::ReadWriteMultipleRegisters(0, 1, 0, vec![7; 128])),
        Err(Error::TooLong)
    );
    assert_eq!(
        codec::encode_response(&ResponsePdu(Ok(Response::ReadCoils(vec![false; 2041])))),
        Err(Error::TooLong)
    );
    assert_eq!(
        codec::encode_response(&ResponsePdu(Ok(Response::ReadHoldingRegisters(vec![0; 128])))),
        Err(Error::TooLong)
    );
    let adu = tcp::RequestAdu {
        hdr: tcp::Header { transaction_id: 0, unit_id: 0 },
        pdu: RequestPdu(Request::Custom(0x41, vec![0; 65534])),
    };
    assert_eq!(codec::tcp::encode_request(&adu), Err(Error::TooLong));
    let adu = tcp::RequestAdu {
        hdr: tcp::Header { transaction_id: 0, unit_id: 0 },
        pdu: RequestPdu(Request::Custom(0x41, vec![0; 65533])),
    };
    let bytes = codec::tcp::encode_request(&adu).unwrap();
    assert_eq!(bytes.len(), 7 + 65534);
    assert_eq!(&bytes[4..6], &[0xFF, 0xFF]);
}

#[test]
fn tcp_request_frame() {
    let adu = tcp::RequestAdu {
        hdr: tcp::Header { transaction_id: 0x1001, unit_id: 0xFE },
        pdu: RequestPdu(Request::ReadInputRegisters(0x23, 5)),
    };
    let bytes = codec::tcp::encode_request(&adu).unwrap();
    assert_eq!(
        bytes,
        vec![0x10, 0x01, 0x00, 0x00, 0x00, 0x06, 0xFE, 0x04, 0x00, 0x23, 0x00, 0x05]
    );
    assert_eq!(codec::tcp::decode_request(&bytes), Ok(adu));
}

#[test]
fn tcp_response_frame() {
    let adu = tcp::ResponseAdu {
        hdr: tcp::Header { transaction_id: 9, unit_id: 7 },
        pdu: ResponsePdu(Ok(Response::ReadInputRegisters(vec![0x33]))),
    };
    let bytes = codec::tcp::encode_response(&adu).unwrap();
    assert_eq!(bytes, vec![0x00, 0x09, 0x00, 0x00, 0x00, 0x05, 0x07, 0x04, 0x02, 0x00, 0x33]);
    assert_eq!(codec::tcp::decode_response(&bytes), Ok(adu));
}

#[test]
fn tcp_round_trip_of_every_request_and_response() {
    let hdr = tcp::Header { transaction_id: 0xBEEF, unit_id: 0x2A };
    for (req, _) in request_cases() {
        let adu = tcp::RequestAdu { hdr, pdu: RequestPdu(req) };
        let bytes = codec::tcp::encode_request(&adu).unwrap();
        assert_eq!(&bytes[0..2], &[0xBE, 0xEF]);
        assert_eq!(bytes[6], 0x2A);
        assert_eq!(codec::tcp::decode_request(&bytes), Ok(adu));
    }
    for (rsp, _) in response_cases() {
        let adu = tcp::ResponseAdu { hdr, pdu: ResponsePdu(Ok(rsp)) };
        let bytes = codec::tcp::encode_response(&adu).unwrap();
        assert_eq!(codec::tcp::decode_response(&bytes), Ok(adu));
    }
}

#[test]
fn tcp_framing_errors() {
    let good = vec![0x10, 0x01, 0x00, 0x00, 0x00, 0x06, 0xFE, 0x04, 0x00, 0x23, 0x00, 0x05];
    assert!(codec::tcp::decode_request(&good).is_ok());
    assert_eq!(codec::tcp::decode_request(&good[0..6]), Err(Error::TooShort));
    let mut protocol = good.clone();
    protocol[3] = 1;
    assert_eq!(codec::tcp::decode_request(&protocol), Err(Error::ProtocolId));
    let mut protocol = good.clone();
    protocol[2] = 1;
    assert_eq!(codec::tcp::decode_response(&protocol), Err(Error::ProtocolId));
    let mut length = good.clone();
    length[5] = 7;
    assert_eq!(codec::tcp::decode_request(&length), Err(Error::Length));
    let mut longer = good.clone();
    longer.push(0);
    assert_eq!(codec::tcp::decode_request(&longer), Err(Error::Length));
    assert_eq!(codec::tcp::decode_request(&good[0..11]), Err(Error::Length));
    assert_eq!(
        codec::tcp::decode_request(&[0, 1, 0, 0, 0, 1, 9]),
        Err(Error::TooShort)
    );
    assert_eq!(
        codec::tcp::unframe(&good),
        Ok((tcp::Header { transaction_id: 0x1001, unit_id: 0xFE }, &good[7..]))
    );
    assert_eq!(
        codec::tcp::frame(tcp::Header { transaction_id: 0x1001, unit_id: 0xFE }, &good[7..]),
        Ok(good.clone())
    );
}

#[test]
fn rtu_checksum_of_known_frames() {
    assert_eq!(codec::rtu::crc16(&[0x01, 0x03, 0x00, 0x00, 0x00, 0x01]), 0x0A84);
    assert_eq!(codec::rtu::crc16(&[0x01, 0x04, 0x00, 0x00, 0x00, 0x01]), 0xCA31);
    assert_eq!(codec::rtu::crc16(&[]), 0xFFFF);
}

#[test]
fn rtu_request_frame() {
    let adu = rtu::RequestAdu {
        hdr: rtu::Header { slave_id: 0x01 },
        pdu: RequestPdu(Request::ReadHoldingRegisters(0, 1)),
    };
    let bytes = codec::rtu::encode_request(&adu).unwrap();
    assert_eq!(bytes, vec![0x01, 0x03, 0x00, 0x00, 0x00, 0x01, 0x84, 0x0A]);
    assert_eq!(codec::rtu::decode_request(&bytes), Ok(adu));
    assert_eq!(
        codec::rtu::unframe(&bytes),
        Ok((rtu::Header { slave_id: 1 }, &bytes[1..6]))
    );
    assert_eq!(codec::rtu::frame(rtu::Header { slave_id: 1 }, &bytes[1..6]), bytes);
}

#[test]
fn rtu_round_trip_of_every_request_and_response() {
    let hdr = rtu::Header { slave_id: 0x11 };
    for (req, _) in request_cases() {
        let adu = rtu::RequestAdu { hdr, pdu: RequestPdu(req) };
        let bytes = codec::rtu::encode_request(&adu).unwrap();
        assert_eq!(bytes[0], 0x11);
        assert_eq!(codec::rtu::decode_request(&bytes), Ok(adu));
    }
    for (rsp, _) in response_cases() {
        let adu = rtu::ResponseAdu { hdr, pdu: ResponsePdu(Ok(rsp)) };
        let bytes = codec::rtu::encode_response(&adu).unwrap();
        assert_eq!(codec::rtu::decode_response(&bytes), Ok(adu));
    }
    let e = ExceptionResponse { function: 0x04, exception: Exception::IllegalDataAddress };
    let adu = rtu::ResponseAdu { hdr, pdu: ResponsePdu(Err(e)) };
    let bytes = codec::rtu::encode_response(&adu).unwrap();
    assert_eq!(bytes[1], 0x84);
    assert_eq!(codec::rtu::decode_response(&bytes), Ok(adu));
}

#[test]
fn rtu_any_flipped_bit_is_refused() {
    let adu = rtu::ResponseAdu {
        hdr: rtu::Header { slave_id: 0x11 },
        pdu: ResponsePdu(Ok(Response::ReadInputRegisters(vec![0, 0, 0x77, 0, 0, 0, 0]))),
    };
    let bytes = codec::rtu::encode_response(&adu).unwrap();
    assert!(codec::rtu::decode_response(&bytes).is_ok());
    for i in 0..bytes.len() {
        for k in 0..8 {
            let mut flipped = bytes.clone();
            flipped[i] ^= 1 << k;
            assert_eq!(codec::rtu::decode_response(&flipped), Err(Error::Checksum));
            assert_eq!(codec::rtu::decode_request(&flipped), Err(Error::Checksum));
        }
    }
}

#[test]
fn rtu_framing_errors() {
    assert_eq!(codec::rtu::decode_request(&[]), Err(Error::TooShort));
    assert_eq!(codec::rtu::decode_request(&[0x01, 0x84]), Err(Error::TooShort));
    assert_eq!(
        codec::rtu::decode_request(&[0x01, 0x03, 0x00, 0x00, 0x00, 0x01, 0x0A, 0x84]),
        Err(Error::Checksum)
    );
    let empty = codec::rtu::frame(rtu::Header { slave_id: 5 }, &[]);
    assert_eq!(empty.len(), 3);
    assert_eq!(codec::rtu::decode_request(&empty), Err(Error::TooShort));
    let short = codec::rtu::frame(rtu::Header { slave_id: 5 }, &[0x03, 0x00]);
    assert_eq!(codec::rtu::decode_request(&short), Err(Error::Length));
}

#[test]
fn stream_is_cut_where_a_frame_ends() {
    let frame = vec![0x10, 0x01, 0x00, 0x00, 0x00, 0x06, 0xFE, 0x04, 0x00, 0x23, 0x00, 0x05];
    let mut stream = frame.clone();
    stream.extend_from_slice(&[0x10, 0x02, 0x00]);
    assert_eq!(codec::tcp::frame_extent(&stream), Extent::Len(12));
    assert_eq!(codec::tcp::frame_extent(&frame[0..5]), Extent::Incomplete);
    assert_eq!(codec::tcp::frame_extent(&frame[0..6]), Extent::Len(12));
    assert_eq!(Extent::Len(12).complete(11), Ok(None));
    assert_eq!(Extent::Len(12).complete(12), Ok(Some(12)));
    assert_eq!(Extent::Len(12).complete(15), Ok(Some(12)));
    assert_eq!(Extent::Incomplete.complete(15), Ok(None));
    assert_eq!(Extent::Unknown.complete(15), Err(Error::FunctionCode));

    for (req, bytes) in request_cases() {
        let mut more = bytes.clone();
        more.extend_from_slice(&[0xAA, 0xBB, 0xCC]);
        let expected = match req {
            Request::Custom(_, _) => Extent::Unknown,
            _ => Extent::Len(bytes.len()),
        };
        assert_eq!(codec::request_extent(&more), expected);
        let adu = rtu::RequestAdu { hdr: rtu::Header { slave_id: 9 }, pdu: RequestPdu(req) };
        let mut framed = codec::rtu::encode_request(&adu).unwrap();
        let expected = match expected {
            Extent::Len(n) => Extent::Len(n + 3),
            other => other,
        };
        framed.extend_from_slice(&[0xAA, 0xBB, 0xCC]);
        assert_eq!(codec::rtu::request_frame_extent(&framed), expected);
    }
    for (rsp, bytes) in response_cases() {
        let mut more = bytes.clone();
        more.extend_from_slice(&[0xAA, 0xBB, 0xCC]);
        let expected = match rsp {
            Response::Custom(_, _) => Extent::Unknown,
            _ => Extent::Len(bytes.len()),
        };
        assert_eq!(codec::response_extent(&more), expected);
        let adu = rtu::ResponseAdu { hdr: rtu::Header { slave_id: 9 }, pdu: ResponsePdu(Ok(rsp)) };
        let mut framed = codec::rtu::encode_response(&adu).unwrap();
        let expected = match expected {
            Extent::Len(n) => Extent::Len(n + 3),
            other => other,
        };
        framed.extend_from_slice(&[0xAA, 0xBB, 0xCC]);
        assert_eq!(codec::rtu::response_frame_extent(&framed), expected);
    }
    assert_eq!(codec::response_extent(&[0x84]), Extent::Len(2));
    assert_eq!(codec::response_extent(&[0x03]), Extent::Incomplete);
    assert_eq!(codec::request_extent(&[0x10, 0, 0, 0, 1]), Extent::Incomplete);
    assert_eq!(codec::request_extent(&[0x17, 0, 0, 0, 1, 0, 0, 0, 1]), Extent::Incomplete);
    assert_eq!(codec::request_extent(&[]), Extent::Incomplete);
    assert_eq!(codec::rtu::request_frame_extent(&[]), Extent::Incomplete);
    assert_eq!(codec::rtu::request_frame_extent(&[1]), Extent::Incomplete);
    assert_eq!(codec::rtu::response_frame_extent(&[1, 0x84]), Extent::Len(5));
}
