//! The transport-neutral message model: requests, responses and exceptions.

use vstd::prelude::*;
use vstd::std_specs::convert::{FromSpec, FromSpecImpl};
use crate::text::{append_decimal, spec_decimal};
use vstd::string::StringExecFns;

pub mod rtu;
pub mod tcp;

verus! {

/// A Modbus function code is represented by an unsigned 8 bit integer.
pub type FunctionCode = u8;

/// A Modbus address is represented by 16 bit (from `0` to `65535`).
pub type Address = u16;

/// A Coil represents a single bit.
///
/// - `true` is equivalent to `ON`, `1` and `0xFF00`.
/// - `false` is equivalent to `OFF`, `0` and `0x0000`.
pub type Coil = bool;

/// Modbus uses 16 bit for its data items (big-endian representation).
pub type Word = u16;

/// Number of items to process (`0` - `65535`).
pub type Quantity = u16;

/// A request represents a message from the client (master) to the server (slave).
#[derive(Debug, Clone, PartialEq, Eq)]
pub enum Request {
    ReadCoils(Address, Quantity),
    ReadDiscreteInputs(Address, Quantity),
    WriteSingleCoil(Address, Coil),
    WriteMultipleCoils(Address, Vec<Coil>),
    ReadInputRegisters(Address, Quantity),
    ReadHoldingRegisters(Address, Quantity),
    WriteSingleRegister(Address, Word),
    WriteMultipleRegisters(Address, Vec<Word>),
    ReadWriteMultipleRegisters(Address, Quantity, Address, Vec<Word>),
    Custom(FunctionCode, Vec<u8>),
}

/// The data of a successful request.
#[derive(Debug, Clone, PartialEq, Eq)]
pub enum Response {
    ReadCoils(Vec<Coil>),
    ReadDiscreteInputs(Vec<Coil>),
    WriteSingleCoil(Address),
    WriteMultipleCoils(Address, Quantity),
    ReadInputRegisters(Vec<Word>),
    ReadHoldingRegisters(Vec<Word>),
    WriteSingleRegister(Address, Word),
    WriteMultipleRegisters(Address, Quantity),
    ReadWriteMultipleRegisters(Vec<Word>),
    Custom(FunctionCode, Vec<u8>),
}

/// What a [`Request`] stands for: the same variants over sequences.
pub enum RequestModel {
    ReadCoils(Address, Quantity),
    ReadDiscreteInputs(Address, Quantity),
    WriteSingleCoil(Address, Coil),
    WriteMultipleCoils(Address, Seq<Coil>),
    ReadInputRegisters(Address, Quantity),
    ReadHoldingRegisters(Address, Quantity),
    WriteSingleRegister(Address, Word),
    WriteMultipleRegisters(Address, Seq<Word>),
    ReadWriteMultipleRegisters(Address, Quantity, Address, Seq<Word>),
    Custom(FunctionCode, Seq<u8>),
}

/// What a [`Response`] stands for: the same variants over sequences.
pub enum ResponseModel {
    ReadCoils(Seq<Coil>),
    ReadDiscreteInputs(Seq<Coil>),
    WriteSingleCoil(Address),
    WriteMultipleCoils(Address, Quantity),
    ReadInputRegisters(Seq<Word>),
    ReadHoldingRegisters(Seq<Word>),
    WriteSingleRegister(Address, Word),
    WriteMultipleRegisters(Address, Quantity),
    ReadWriteMultipleRegisters(Seq<Word>),
    Custom(FunctionCode, Seq<u8>),
}

impl View for Request {
    type V = RequestModel;

    open spec fn view(&self) -> RequestModel {
        match *self {
            Request::ReadCoils(a, q) => RequestModel::ReadCoils(a, q),
            Request::ReadDiscreteInputs(a, q) => RequestModel::ReadDiscreteInputs(a, q),
            Request::WriteSingleCoil(a, c) => RequestModel::WriteSingleCoil(a, c),
            Request::WriteMultipleCoils(a, cs) => RequestModel::WriteMultipleCoils(a, cs@),
            Request::ReadInputRegisters(a, q) => RequestModel::ReadInputRegisters(a, q),
            Request::ReadHoldingRegisters(a, q) => RequestModel::ReadHoldingRegisters(a, q),
            Request::WriteSingleRegister(a, w) => RequestModel::WriteSingleRegister(a, w),
            Request::WriteMultipleRegisters(a, ws) => RequestModel::WriteMultipleRegisters(a, ws@),
            Request::ReadWriteMultipleRegisters(ra, q, wa, ws) => {
                RequestModel::ReadWriteMultipleRegisters(ra, q, wa, ws@)
            },
            Request::Custom(f, data) => RequestModel::Custom(f, data@),
        }
    }
}

impl View for Response {
    type V = ResponseModel;

    open spec fn view(&self) -> ResponseModel {
        match *self {
            Response::ReadCoils(cs) => ResponseModel::ReadCoils(cs@),
            Response::ReadDiscreteInputs(cs) => ResponseModel::ReadDiscreteInputs(cs@),
            Response::WriteSingleCoil(a) => ResponseModel::WriteSingleCoil(a),
            Response::WriteMultipleCoils(a, q) => ResponseModel::WriteMultipleCoils(a, q),
            Response::ReadInputRegisters(ws) => ResponseModel::ReadInputRegisters(ws@),
            Response::ReadHoldingRegisters(ws) => ResponseModel::ReadHoldingRegisters(ws@),
            Response::WriteSingleRegister(a, w) => ResponseModel::WriteSingleRegister(a, w),
            Response::WriteMultipleRegisters(a, q) => ResponseModel::WriteMultipleRegisters(a, q),
            Response::ReadWriteMultipleRegisters(ws) => {
                ResponseModel::ReadWriteMultipleRegisters(ws@)
            },
            Response::Custom(f, data) => ResponseModel::Custom(f, data@),
        }
    }
}

/// A server (slave) exception.
#[derive(Debug, Clone, Copy, PartialEq, Eq, Structural)]
pub enum Exception {
    IllegalFunction,
    IllegalDataAddress,
    IllegalDataValue,
    ServerDeviceFailure,
    Acknowledge,
    ServerDeviceBusy,
    MemoryParityError,
    GatewayPathUnavailable,
    GatewayTargetDevice,
}

impl Exception {
    /// The number that stands for this exception on the wire.
    pub open spec fn spec_code(self) -> u8 {
        match self {
            Exception::IllegalFunction => 0x01,
            Exception::IllegalDataAddress => 0x02,
            Exception::IllegalDataValue => 0x03,
            Exception::ServerDeviceFailure => 0x04,
            Exception::Acknowledge => 0x05,
            Exception::ServerDeviceBusy => 0x06,
            Exception::MemoryParityError => 0x08,
            Exception::GatewayPathUnavailable => 0x0A,
            Exception::GatewayTargetDevice => 0x0B,
        }
    }

    /// The exception that a wire number stands for, if any.
    pub open spec fn spec_from_code(code: u8) -> Option<Exception> {
        if code == 0x01 {
            Some(Exception::IllegalFunction)
        } else if code == 0x02 {
            Some(Exception::IllegalDataAddress)
        } else if code == 0x03 {
            Some(Exception::IllegalDataValue)
        } else if code == 0x04 {
            Some(Exception::ServerDeviceFailure)
        } else if code == 0x05 {
            Some(Exception::Acknowledge)
        } else if code == 0x06 {
            Some(Exception::ServerDeviceBusy)
        } else if code == 0x08 {
            Some(Exception::MemoryParityError)
        } else if code == 0x0A {
            Some(Exception::GatewayPathUnavailable)
        } else if code == 0x0B {
            Some(Exception::GatewayTargetDevice)
        } else {
            None
        }
    }

    /// The text that describes this exception.
    pub open spec fn spec_description(self) -> Seq<char> {
        match self {
            Exception::IllegalFunction => "Illegal function"@,
            Exception::IllegalDataAddress => "Illegal data address"@,
            Exception::IllegalDataValue => "Illegal data value"@,
            Exception::ServerDeviceFailure => "Server device failure"@,
            Exception::Acknowledge => "Acknowledge"@,
            Exception::ServerDeviceBusy => "Server device busy"@,
            Exception::MemoryParityError => "Memory parity error"@,
            Exception::GatewayPathUnavailable => "Gateway path unavailable"@,
            Exception::GatewayTargetDevice => "Gateway target device failed to respond"@,
        }
    }

    pub fn code(&self) -> (code: u8)
        ensures
            code == self.spec_code(),
    {
        match *self {
            Exception::IllegalFunction => 0x01,
            Exception::IllegalDataAddress => 0x02,
            Exception::IllegalDataValue => 0x03,
            Exception::ServerDeviceFailure => 0x04,
            Exception::Acknowledge => 0x05,
            Exception::ServerDeviceBusy => 0x06,
            Exception::MemoryParityError => 0x08,
            Exception::GatewayPathUnavailable => 0x0A,
            Exception::GatewayTargetDevice => 0x0B,
        }
    }

    pub fn from_code(code: u8) -> (exception: Option<Exception>)
        ensures
            exception == Exception::spec_from_code(code),
    {
        match code {
            0x01 => Some(Exception::IllegalFunction),
            0x02 => Some(Exception::IllegalDataAddress),
            0x03 => Some(Exception::IllegalDataValue),
            0x04 => Some(Exception::ServerDeviceFailure),
            0x05 => Some(Exception::Acknowledge),
            0x06 => Some(Exception::ServerDeviceBusy),
            0x08 => Some(Exception::MemoryParityError),
            0x0A => Some(Exception::GatewayPathUnavailable),
            0x0B => Some(Exception::GatewayTargetDevice),
            _ => None,
        }
    }

    pub fn description(&self) -> (text: &'static str)
        ensures
            text@ == self.spec_description(),
    {
        match *self {
            Exception::IllegalFunction => "Illegal function",
            Exception::IllegalDataAddress => "Illegal data address",
            Exception::IllegalDataValue => "Illegal data value",
            Exception::ServerDeviceFailure => "Server device failure",
            Exception::Acknowledge => "Acknowledge",
            Exception::ServerDeviceBusy => "Server device busy",
            Exception::MemoryParityError => "Memory parity error",
            Exception::GatewayPathUnavailable => "Gateway path unavailable",
            Exception::GatewayTargetDevice => "Gateway target device failed to respond",
        }
    }

    /// A number names an exception exactly when it is that exception's code.
    pub proof fn lemma_code_round_trip(exception: Exception)
        ensures
            Exception::spec_from_code(exception.spec_code()) == Some(exception),
            1 <= exception.spec_code() <= 0x0B,
    {
    }

    /// Whatever number names an exception is that exception's code.
    pub proof fn lemma_from_code_sound(code: u8)
        ensures
            Exception::spec_from_code(code) matches Some(e) ==> e.spec_code() == code,
    {
    }
}

/// A server (slave) exception response.
#[derive(Debug, Clone, Copy, PartialEq, Eq, Structural)]
pub struct ExceptionResponse {
    pub function: FunctionCode,
    pub exception: Exception,
}

impl ExceptionResponse {
    /// The text that reports this exception response: the function that
    /// failed, in decimal, and what the exception means.
    pub open spec fn spec_message(self) -> Seq<char> {
        "Modbus function "@ + spec_decimal(self.function as nat) + ": "@
            + self.exception.spec_description()
    }

    pub fn description(&self) -> (text: &'static str)
        ensures
            text@ == self.exception.spec_description(),
    {
        self.exception.description()
    }

    /// Reports this exception response as text.
    pub fn message(&self) -> (text: String)
        ensures
            text@ == self.spec_message(),
    {
        let mut text = String::new();
        text.append("Modbus function ");
        append_decimal(&mut text, self.function as u16);
        text.append(": ");
        text.append(self.exception.description());
        assert(text@ =~= self.spec_message());
        text
    }
}

/// Represents a message from the client (master) to the server (slave).
#[derive(Debug, Clone, PartialEq, Eq)]
pub struct RequestPdu(pub Request);

/// Represents a message from the server (slave) to the client (master).
#[derive(Debug, PartialEq, Eq)]
pub struct ResponsePdu(pub Result<Response, ExceptionResponse>);

/// What a [`ResponsePdu`] stands for.
pub open spec fn outcome_view(outcome: Result<Response, ExceptionResponse>) -> Result<
    ResponseModel,
    ExceptionResponse,
> {
    match outcome {
        Ok(rsp) => Ok(rsp@),
        Err(e) => Err(e),
    }
}

impl View for RequestPdu {
    type V = RequestModel;

    open spec fn view(&self) -> RequestModel {
        self.0@
    }
}

impl View for ResponsePdu {
    type V = Result<ResponseModel, ExceptionResponse>;

    open spec fn view(&self) -> Result<ResponseModel, ExceptionResponse> {
        outcome_view(self.0)
    }
}

impl From<Request> for RequestPdu {
    fn from(from: Request) -> (pdu: Self) {
        RequestPdu(from)
    }
}

impl FromSpecImpl<Request> for RequestPdu {
    open spec fn obeys_from_spec() -> bool {
        true
    }

    open spec fn from_spec(from: Request) -> Self {
        RequestPdu(from)
    }
}

impl From<RequestPdu> for Request {
    fn from(from: RequestPdu) -> (req: Self) {
        from.0
    }
}

impl FromSpecImpl<RequestPdu> for Request {
    open spec fn obeys_from_spec() -> bool {
        true
    }

    open spec fn from_spec(from: RequestPdu) -> Self {
        from.0
    }
}

impl From<Response> for ResponsePdu {
    fn from(from: Response) -> (pdu: Self) {
        ResponsePdu(Ok(from))
    }
}

impl FromSpecImpl<Response> for ResponsePdu {
    open spec fn obeys_from_spec() -> bool {
        true
    }

    open spec fn from_spec(from: Response) -> Self {
        ResponsePdu(Ok(from))
    }
}

impl From<ExceptionResponse> for ResponsePdu {
    fn from(from: ExceptionResponse) -> (pdu: Self) {
        ResponsePdu(Err(from))
    }
}

impl FromSpecImpl<ExceptionResponse> for ResponsePdu {
    open spec fn obeys_from_spec() -> bool {
        true
    }

    open spec fn from_spec(from: ExceptionResponse) -> Self {
        ResponsePdu(Err(from))
    }
}

impl From<Result<Response, ExceptionResponse>> for ResponsePdu {
    fn from(from: Result<Response, ExceptionResponse>) -> (pdu: Self) {
        ResponsePdu(from)
    }
}

impl FromSpecImpl<Result<Response, ExceptionResponse>> for ResponsePdu {
    open spec fn obeys_from_spec() -> bool {
        true
    }

    open spec fn from_spec(from: Result<Response, ExceptionResponse>) -> Self {
        ResponsePdu(from)
    }
}

impl From<ResponsePdu> for Result<Response, ExceptionResponse> {
    fn from(from: ResponsePdu) -> (outcome: Self) {
        from.0
    }
}

impl FromSpecImpl<ResponsePdu> for Result<Response, ExceptionResponse> {
    open spec fn obeys_from_spec() -> bool {
        true
    }

    open spec fn from_spec(from: ResponsePdu) -> Self {
        from.0
    }
}

/// A request that is wrapped into a PDU and taken out again is the request
/// that went in.
pub proof fn lemma_request_pdu_round_trip(req: Request)
    ensures
        <Request as FromSpec<RequestPdu>>::from_spec(
            <RequestPdu as FromSpec<Request>>::from_spec(req),
        ) == req,
{
}

/// A PDU that is unwrapped into a request and wrapped again is the PDU that
/// went in.
pub proof fn lemma_request_pdu_round_trip_inverse(pdu: RequestPdu)
    ensures
        <RequestPdu as FromSpec<Request>>::from_spec(
            <Request as FromSpec<RequestPdu>>::from_spec(pdu),
        ) == pdu,
{
}

/// An outcome, a response or an exception, that is wrapped into a PDU and
/// taken out again is the outcome that went in.
pub proof fn lemma_response_pdu_round_trip(outcome: Result<Response, ExceptionResponse>)
    ensures
        <Result<Response, ExceptionResponse> as FromSpec<ResponsePdu>>::from_spec(
            <ResponsePdu as FromSpec<Result<Response, ExceptionResponse>>>::from_spec(outcome),
        ) == outcome,
{
}

/// A response wrapped into a PDU comes out as that response, a success.
pub proof fn lemma_response_pdu_success(rsp: Response)
    ensures
        <Result<Response, ExceptionResponse> as FromSpec<ResponsePdu>>::from_spec(
            <ResponsePdu as FromSpec<Response>>::from_spec(rsp),
        ) == Ok::<Response, ExceptionResponse>(rsp),
{
}

/// An exception wrapped into a PDU comes out as that exception, a failure.
pub proof fn lemma_response_pdu_exception(e: ExceptionResponse)
    ensures
        <Result<Response, ExceptionResponse> as FromSpec<ResponsePdu>>::from_spec(
            <ResponsePdu as FromSpec<ExceptionResponse>>::from_spec(e),
        ) == Err::<Response, ExceptionResponse>(e),
{
}

} // verus!
