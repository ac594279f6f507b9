//! The header and the data units of the TCP transport.

use crate::frame::{RequestPdu, ResponsePdu};
use vstd::prelude::*;

verus! {

pub type TransactionId = u16;

pub type UnitId = u8;

/// The logical header of a TCP data unit. The protocol identifier and the
/// length exist on the wire only.
#[derive(Debug, Clone, Copy, PartialEq, Eq, Structural)]
pub struct Header {
    pub transaction_id: TransactionId,
    pub unit_id: UnitId,
}

/// A request as it is transmitted over TCP.
#[derive(Debug, Clone, PartialEq, Eq)]
pub struct RequestAdu {
    pub hdr: Header,
    pub pdu: RequestPdu,
}

/// A response as it is transmitted over TCP.
#[derive(Debug, PartialEq, Eq)]
pub struct ResponseAdu {
    pub hdr: Header,
    pub pdu: ResponsePdu,
}

} // verus!
