//! The typed operations of a client: the request that each one sends, and
//! what it accepts as the reply.
//!
//! A reply of another shape than the operation asks for is refused, never
//! unwrapped on trust: a peer that answers a read with the echo of a write
//! violates the protocol, which is another thing than an exception.

use crate::frame::{Address, Coil, Quantity, Response, Word};
use vstd::prelude::*;

pub mod sync;

verus! {

/// The coils that the first `cnt` places of `cs` hold. Coils travel in whole
/// bytes, so a reply may carry more than were asked for.
pub open spec fn first_coils(cs: Seq<Coil>, cnt: Quantity) -> Seq<Coil> {
    if cnt <= cs.len() {
        cs.subrange(0, cnt as int)
    } else {
        cs
    }
}

fn truncated(cs: Vec<Coil>, cnt: Quantity) -> (out: Vec<Coil>)
    ensures
        out@ == first_coils(cs@, cnt),
{
    let mut out = cs;
    out.truncate(cnt as usize);
    out
}

/// What a reply gives to a read of `cnt` coils.
pub open spec fn spec_read_coils_reply(rsp: Response, cnt: Quantity) -> Option<Seq<Coil>> {
    match rsp {
        Response::ReadCoils(cs) => Some(first_coils(cs@, cnt)),
        _ => None,
    }
}

/// What a reply gives to a read of `cnt` discrete inputs.
pub open spec fn spec_read_discrete_inputs_reply(rsp: Response, cnt: Quantity) -> Option<
    Seq<Coil>,
> {
    match rsp {
        Response::ReadDiscreteInputs(cs) => Some(first_coils(cs@, cnt)),
        _ => None,
    }
}

/// What a reply gives to a read of input registers.
pub open spec fn spec_read_input_registers_reply(rsp: Response) -> Option<Seq<Word>> {
    match rsp {
        Response::ReadInputRegisters(ws) => Some(ws@),
        _ => None,
    }
}

/// What a reply gives to a read of holding registers.
pub open spec fn spec_read_holding_registers_reply(rsp: Response) -> Option<Seq<Word>> {
    match rsp {
        Response::ReadHoldingRegisters(ws) => Some(ws@),
        _ => None,
    }
}

/// What a reply gives to a combined write and read of registers.
pub open spec fn spec_read_write_multiple_registers_reply(rsp: Response) -> Option<Seq<Word>> {
    match rsp {
        Response::ReadWriteMultipleRegisters(ws) => Some(ws@),
        _ => None,
    }
}

/// The coils of a reply to a read of `cnt` coils: the first `cnt` of those
/// that came, from a reply of that shape and no other.
pub fn read_coils_reply(rsp: Response, cnt: Quantity) -> (coils: Option<Vec<Coil>>)
    ensures
        coils is Some == spec_read_coils_reply(rsp, cnt) is Some,
        coils matches Some(cs) ==> spec_read_coils_reply(rsp, cnt) == Some(cs@),
{
    match rsp {
        Response::ReadCoils(cs) => Some(truncated(cs, cnt)),
        _ => None,
    }
}

/// The inputs of a reply to a read of `cnt` discrete inputs: the first
/// `cnt` of those that came, from a reply of that shape and no other.
pub fn read_discrete_inputs_reply(rsp: Response, cnt: Quantity) -> (coils: Option<Vec<Coil>>)
    ensures
        coils is Some == spec_read_discrete_inputs_reply(rsp, cnt) is Some,
        coils matches Some(cs) ==> spec_read_discrete_inputs_reply(rsp, cnt) == Some(cs@),
{
    match rsp {
        Response::ReadDiscreteInputs(cs) => Some(truncated(cs, cnt)),
        _ => None,
    }
}

/// The registers of a reply to a read of input registers.
pub fn read_input_registers_reply(rsp: Response) -> (words: Option<Vec<Word>>)
    ensures
        words is Some == spec_read_input_registers_reply(rsp) is Some,
        words matches Some(ws) ==> spec_read_input_registers_reply(rsp) == Some(ws@),
{
    match rsp {
        Response::ReadInputRegisters(ws) => Some(ws),
        _ => None,
    }
}

/// The registers of a reply to a read of holding registers.
pub fn read_holding_registers_reply(rsp: Response) -> (words: Option<Vec<Word>>)
    ensures
        words is Some == spec_read_holding_registers_reply(rsp) is Some,
        words matches Some(ws) ==> spec_read_holding_registers_reply(rsp) == Some(ws@),
{
    match rsp {
        Response::ReadHoldingRegisters(ws) => Some(ws),
        _ => None,
    }
}

/// The registers of a reply to a combined write and read of registers.
pub fn read_write_multiple_registers_reply(rsp: Response) -> (words: Option<Vec<Word>>)
    ensures
        words is Some == spec_read_write_multiple_registers_reply(rsp) is Some,
        words matches Some(ws) ==> spec_read_write_multiple_registers_reply(rsp) == Some(ws@),
{
    match rsp {
        Response::ReadWriteMultipleRegisters(ws) => Some(ws),
        _ => None,
    }
}

/// Whether a reply confirms the write of a single coil at `addr`.
pub fn write_single_coil_reply(rsp: &Response, addr: Address) -> (confirmed: bool)
    ensures
        confirmed == (rsp@ == crate::frame::ResponseModel::WriteSingleCoil(addr)),
{
    match rsp {
        Response::WriteSingleCoil(a) => *a == addr,
        _ => false,
    }
}

/// Whether a reply confirms the write of `cnt` coils from `addr` on.
pub fn write_multiple_coils_reply(rsp: &Response, addr: Address, cnt: Quantity) -> (confirmed:
    bool)
    ensures
        confirmed == (rsp@ == crate::frame::ResponseModel::WriteMultipleCoils(addr, cnt)),
{
    match rsp {
        Response::WriteMultipleCoils(a, q) => *a == addr && *q == cnt,
        _ => false,
    }
}

/// Whether a reply confirms the write of `word` to the register at `addr`.
pub fn write_single_register_reply(rsp: &Response, addr: Address, word: Word) -> (confirmed:
    bool)
    ensures
        confirmed == (rsp@ == crate::frame::ResponseModel::WriteSingleRegister(addr, word)),
{
    match rsp {
        Response::WriteSingleRegister(a, w) => *a == addr && *w == word,
        _ => false,
    }
}

/// Whether a reply confirms the write of `cnt` registers from `addr` on.
pub fn write_multiple_registers_reply(rsp: &Response, addr: Address, cnt: Quantity) -> (confirmed:
    bool)
    ensures
        confirmed == (rsp@ == crate::frame::ResponseModel::WriteMultipleRegisters(addr, cnt)),
{
    match rsp {
        Response::WriteMultipleRegisters(a, q) => *a == addr && *q == cnt,
        _ => false,
    }
}

} // verus!
