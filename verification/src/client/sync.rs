//! The blocking surface of a client. Each method runs one call to its end
//! before it returns; a second call cannot begin before, since each takes
//! the client by `&mut`.

use crate::frame::{Address, Coil, Quantity, Request, Response, Word};
use vstd::prelude::*;

verus! {

/// A transport independent synchronous client trait.
pub trait Client {
    type Error;

    fn call(&mut self, req: Request) -> Result<Response, Self::Error>;
}

/// A transport independent synchronous reader trait.
pub trait Reader {
    type Error;

    fn read_coils(&mut self, addr: Address, cnt: Quantity) -> Result<Vec<Coil>, Self::Error>;

    fn read_discrete_inputs(&mut self, addr: Address, cnt: Quantity) -> Result<
        Vec<Coil>,
        Self::Error,
    >;

    fn read_input_registers(&mut self, addr: Address, cnt: Quantity) -> Result<
        Vec<Word>,
        Self::Error,
    >;

    fn read_holding_registers(&mut self, addr: Address, cnt: Quantity) -> Result<
        Vec<Word>,
        Self::Error,
    >;

    fn read_write_multiple_registers(
        &mut self,
        read_addr: Address,
        read_cnt: Quantity,
        write_addr: Address,
        write_data: &[Word],
    ) -> Result<Vec<Word>, Self::Error>;
}

/// A transport independent synchronous writer trait.
pub trait Writer {
    type Error;

    fn write_single_coil(&mut self, addr: Address, coil: Coil) -> Result<(), Self::Error>;

    fn write_multiple_coils(&mut self, addr: Address, coils: &[Coil]) -> Result<(), Self::Error>;

    fn write_single_register(&mut self, addr: Address, data: Word) -> Result<(), Self::Error>;

    fn write_multiple_registers(&mut self, addr: Address, data: &[Word]) -> Result<
        (),
        Self::Error,
    >;
}

} // verus!
