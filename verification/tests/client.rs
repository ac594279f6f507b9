use tokio_modbus::client;
use tokio_modbus::client::sync::{Client, Reader};
use tokio_modbus::codec;
use tokio_modbus::frame::{Request, Response};
use tokio_modbus::server::{Handler, ServiceWrapper};
use tokio_modbus::service;

#[test]
fn read_replies_of_the_right_shape() {
    let eight = vec![true, false, true, false, false, false, false, false];
    assert_eq!(
        client::read_coils_reply(Response::ReadCoils(eight.clone()), 3),
        Some(vec![true, false, true])
    );
    assert_eq!(
        client::read_coils_reply(Response::ReadCoils(eight.clone()), 8),
        Some(eight.clone())
    );
    assert_eq!(
        client::read_coils_reply(Response::ReadCoils(vec![true]), 2),
        Some(vec![true])
    );
    assert_eq!(
        client::read_discrete_inputs_reply(Response::ReadDiscreteInputs(eight.clone()), 2),
        Some(vec![true, false])
    );
    assert_eq!(
        client::read_input_registers_reply(Response::ReadInputRegisters(vec![1, 2])),
        Some(vec![1, 2])
    );
    assert_eq!(
        client::read_holding_registers_reply(Response::ReadHoldingRegisters(vec![3])),
        Some(vec![3])
    );
    assert_eq!(
        client::read_write_multiple_registers_reply(Response::ReadWriteMultipleRegisters(vec![
            4, 5
        ])),
        Some(vec![4, 5])
    );
}

#[test]
fn read_replies_of_another_shape_are_refused() {
    assert_eq!(client::read_coils_reply(Response::WriteSingleCoil(1), 1), None);
    assert_eq!(
        client::read_coils_reply(Response::ReadDiscreteInputs(vec![true]), 1),
        None
    );
    assert_eq!(
        client::read_discrete_inputs_reply(Response::ReadCoils(vec![true]), 1),
        None
    );
    assert_eq!(
        client::read_input_registers_reply(Response::ReadHoldingRegisters(vec![1])),
        None
    );
    assert_eq!(
        client::read_holding_registers_reply(Response::ReadInputRegisters(vec![1])),
        None
    );
    assert_eq!(
        client::read_write_multiple_registers_reply(Response::Custom(0x17, vec![1])),
        None
    );
}

#[test]
fn write_replies_confirm_only_their_echo() {
    assert!(client::write_single_coil_reply(&Response::WriteSingleCoil(7), 7));
    assert!(!client::write_single_coil_reply(&Response::WriteSingleCoil(8), 7));
    assert!(!client::write_single_coil_reply(&Response::WriteSingleRegister(7, 0), 7));
    assert!(client::write_multiple_coils_reply(&Response::WriteMultipleCoils(7, 3), 7, 3));
    assert!(!client::write_multiple_coils_reply(&Response::WriteMultipleCoils(7, 4), 7, 3));
    assert!(!client::write_multiple_coils_reply(&Response::WriteMultipleRegisters(7, 3), 7, 3));
    assert!(client::write_single_register_reply(&Response::WriteSingleRegister(7, 9), 7, 9));
    assert!(!client::write_single_register_reply(&Response::WriteSingleRegister(7, 8), 7, 9));
    assert!(!client::write_single_register_reply(&Response::WriteSingleRegister(6, 9), 7, 9));
    assert!(client::write_multiple_registers_reply(&Response::WriteMultipleRegisters(7, 2), 7, 2));
    assert!(!client::write_multiple_registers_reply(&Response::WriteMultipleRegisters(8, 2), 7, 2));
    assert!(!client::write_multiple_registers_reply(&Response::WriteMultipleCoils(7, 2), 7, 2));
}

struct MbServer;

impl Handler for MbServer {
    type Error = String;

    fn handle(&self, req: Request) -> Result<Response, String> {
        match req {
            Request::ReadInputRegisters(_addr, cnt) => {
                let mut registers = vec![0; cnt as usize];
                registers[2] = 0x77;
                Ok(Response::ReadInputRegisters(registers))
            }
            _ => Err(String::from("not implemented")),
        }
    }
}

struct Loopback {
    context: service::tcp::Context,
    server: ServiceWrapper<MbServer>,
}

impl Client for Loopback {
    type Error = String;

    fn call(&mut self, req: Request) -> Result<Response, String> {
        let req_adu = self.context.next_request_adu(req);
        let req_hdr = req_adu.hdr;
        let sent = codec::tcp::encode_request(&req_adu).map_err(|e| format!("{:?}", e))?;
        let received = codec::tcp::decode_request(&sent).map_err(|e| format!("{:?}", e))?;
        let rsp_adu = self.server.call(received)?;
        let sent = codec::tcp::encode_response(&rsp_adu).map_err(|e| format!("{:?}", e))?;
        let received = codec::tcp::decode_response(&sent).map_err(|e| format!("{:?}", e))?;
        service::tcp::resolve_response(req_hdr, received).map_err(|e| format!("{:?}", e))
    }
}

impl Reader for Loopback {
    type Error = String;

    fn read_coils(&mut self, addr: u16, cnt: u16) -> Result<Vec<bool>, String> {
        let rsp = self.call(Request::ReadCoils(addr, cnt))?;
        client::read_coils_reply(rsp, cnt).ok_or(String::from("unexpected response"))
    }

    fn read_discrete_inputs(&mut self, addr: u16, cnt: u16) -> Result<Vec<bool>, String> {
        let rsp = self.call(Request::ReadDiscreteInputs(addr, cnt))?;
        client::read_discrete_inputs_reply(rsp, cnt).ok_or(String::from("unexpected response"))
    }

    fn read_input_registers(&mut self, addr: u16, cnt: u16) -> Result<Vec<u16>, String> {
        let rsp = self.call(Request::ReadInputRegisters(addr, cnt))?;
        client::read_input_registers_reply(rsp).ok_or(String::from("unexpected response"))
    }

    fn read_holding_registers(&mut self, addr: u16, cnt: u16) -> Result<Vec<u16>, String> {
        let rsp = self.call(Request::ReadHoldingRegisters(addr, cnt))?;
        client::read_holding_registers_reply(rsp).ok_or(String::from("unexpected response"))
    }

    fn read_write_multiple_registers(
        &mut self,
        read_addr: u16,
        read_cnt: u16,
        write_addr: u16,
        write_data: &[u16],
    ) -> Result<Vec<u16>, String> {
        let req =
            Request::ReadWriteMultipleRegisters(read_addr, read_cnt, write_addr, write_data.to_vec());
        let rsp = self.call(req)?;
        client::read_write_multiple_registers_reply(rsp).ok_or(String::from("unexpected response"))
    }
}

#[test]
fn read_input_registers_end_to_end() {
    let mut client = Loopback {
        context: service::tcp::Context::new(1),
        server: ServiceWrapper::new(MbServer),
    };
    assert_eq!(client.read_input_registers(0, 7), Ok(vec![0, 0, 0x77, 0, 0, 0, 0]));
    assert_eq!(client.context.transaction_id, 1);
    assert_eq!(client.read_input_registers(0x10, 3), Ok(vec![0, 0, 0x77]));
    assert_eq!(client.context.transaction_id, 2);
    assert_eq!(client.read_input_registers(0, 127).map(|r| r.len()), Ok(127));
    assert_eq!(client.read_input_registers(0, 128), Err(String::from("TooLong")));
    assert_eq!(client.read_coils(0, 1), Err(String::from("not implemented")));
    assert_eq!(client.context.transaction_id, 5);
}
