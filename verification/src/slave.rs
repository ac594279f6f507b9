//! The address of a slave device on a serial line.

use crate::frame::rtu::SlaveId;
use vstd::prelude::*;
use vstd::std_specs::convert::FromSpecImpl;

verus! {

/// A single byte for addressing Modbus slave devices.
#[derive(Debug, Clone, Copy, PartialEq, Eq, Structural)]
pub struct Slave(pub SlaveId);

impl From<SlaveId> for Slave {
    fn from(from: SlaveId) -> (slave: Self) {
        Slave(from)
    }
}

impl FromSpecImpl<SlaveId> for Slave {
    open spec fn obeys_from_spec() -> bool {
        true
    }

    open spec fn from_spec(from: SlaveId) -> Self {
        Slave(from)
    }
}

impl From<Slave> for SlaveId {
    fn from(from: Slave) -> (slave_id: Self) {
        from.0
    }
}

impl FromSpecImpl<Slave> for SlaveId {
    open spec fn obeys_from_spec() -> bool {
        true
    }

    open spec fn from_spec(from: Slave) -> Self {
        from.0
    }
}

/// A client that addresses one slave at a time.
pub trait SlaveContext {
    /// Selects the slave for the calls that follow.
    fn set_slave(&mut self, slave: Slave);
}

} // verus!
