//! The header and the data units of the RTU transport.

use crate::frame::{RequestPdu, ResponsePdu};
use vstd::prelude::*;

verus! {

pub type SlaveId = u8;

/// The logical header of an RTU data unit.
#[derive(Debug, Clone, Copy, PartialEq, Eq, Structural)]
pub struct Header {
    pub slave_id: SlaveId,
}

/// A request as it is transmitted over a serial line.
#[derive(Debug, Clone, PartialEq, Eq)]
pub struct RequestAdu {
    pub hdr: Header,
    pub pdu: RequestPdu,
}

/// A response as it is transmitted over a serial line.
#[derive(Debug, PartialEq, Eq)]
pub struct ResponseAdu {
    pub hdr: Header,
    pub pdu: ResponsePdu,
}

} // verus!
