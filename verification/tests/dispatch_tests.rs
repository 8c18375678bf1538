use modbus_rtu_core::crc::crc16;
use modbus_rtu_core::device::{fill_register_pairs, SimulatedDevice};
use modbus_rtu_core::dispatch::{resolve, serve_one, validate_response, Service, SlaveConfig};
use modbus_rtu_core::types::{Exception, Request, Response};

fn with_crc(body: Vec<u8>) -> Vec<u8> {
    let crc = crc16(&body);
    let mut out = body;
    out.push((crc % 256) as u8);
    out.push((crc / 256) as u8);
    out
}

fn device() -> SimulatedDevice {
    SimulatedDevice { input_first: 0x1234, input_second: 0x4248 }
}

fn answer_all() -> SlaveConfig {
    SlaveConfig { local_address: None }
}

/// A service answering exactly what it was told to, whatever the request.
struct FixedService {
    answer: Result<Response, Exception>,
}

impl Service for FixedService {
    fn call(&mut self, _request: &Request) -> Result<Response, Exception> {
        self.answer.clone()
    }
}

#[test]
fn serve_read_holding_end_to_end() {
    // Read 2 holding registers at address 0 from slave 1; the device
    // answers the registers 0x0001, 0x0000.
    let raw = with_crc(vec![0x01u8, 0x03, 0x00, 0x00, 0x00, 0x02]);
    let reply = serve_one(&raw, &mut device(), answer_all());
    assert_eq!(reply, Some(with_crc(vec![0x01u8, 0x03, 0x04, 0x00, 0x01, 0x00, 0x00])));
}

#[test]
fn serve_write_echoes_address_and_quantity() {
    // Write 2 registers at address 0x0010: the reply echoes the start
    // address and the quantity, whatever the values written.
    let raw_a = with_crc(vec![
        0x01u8, 0x10, 0x00, 0x10, 0x00, 0x02, 0x04, 0xAB, 0xCD, 0x12, 0x34,
    ]);
    let raw_b = with_crc(vec![
        0x01u8, 0x10, 0x00, 0x10, 0x00, 0x02, 0x04, 0x00, 0x00, 0xFF, 0xFF,
    ]);
    let expected = Some(with_crc(vec![0x01u8, 0x10, 0x00, 0x10, 0x00, 0x02]));
    assert_eq!(serve_one(&raw_a, &mut device(), answer_all()), expected);
    assert_eq!(serve_one(&raw_b, &mut device(), answer_all()), expected);
}

#[test]
fn serve_read_input_uses_stored_words() {
    let raw = with_crc(vec![0x01u8, 0x04, 0x00, 0x00, 0x00, 0x03]);
    let reply = serve_one(&raw, &mut device(), answer_all());
    // Pairs of the stored words, and a zero for the odd trailing register.
    assert_eq!(
        reply,
        Some(with_crc(vec![0x01u8, 0x04, 0x06, 0x12, 0x34, 0x42, 0x48, 0x00, 0x00]))
    );
}

#[test]
fn serve_unknown_function_yields_exception_frame() {
    // Function code 0x99 already has its high bit set: the exception
    // frame carries 0x99 | 0x80 == 0x99 and code 1, IllegalFunction.
    let raw = with_crc(vec![0x01u8, 0x99, 0x00, 0x00]);
    let reply = serve_one(&raw, &mut device(), answer_all());
    assert_eq!(reply, Some(with_crc(vec![0x01u8, 0x99, 0x01])));
}

#[test]
fn serve_bad_quantity_yields_illegal_data_value_frame() {
    let raw = with_crc(vec![0x01u8, 0x03, 0x00, 0x00, 0x00, 0x00]);
    let reply = serve_one(&raw, &mut device(), answer_all());
    assert_eq!(reply, Some(with_crc(vec![0x01u8, 0x83, 0x03])));
}

#[test]
fn serve_corrupt_frame_is_silence() {
    let mut raw = with_crc(vec![0x01u8, 0x03, 0x00, 0x00, 0x00, 0x02]);
    raw[4] ^= 0x40;
    assert_eq!(serve_one(&raw, &mut device(), answer_all()), None);
}

#[test]
fn serve_short_frame_is_silence() {
    let raw = vec![0x01u8, 0x03, 0x84];
    assert_eq!(serve_one(&raw, &mut device(), answer_all()), None);
}

#[test]
fn serve_other_slave_address_is_silence() {
    let raw = with_crc(vec![0x07u8, 0x03, 0x00, 0x00, 0x00, 0x02]);
    let config = SlaveConfig { local_address: Some(0x01) };
    assert_eq!(serve_one(&raw, &mut device(), config), None);
}

#[test]
fn serve_broadcast_is_processed_in_silence() {
    let raw = with_crc(vec![0x00u8, 0x10, 0x00, 0x10, 0x00, 0x01, 0x02, 0x00, 0x07]);
    let config = SlaveConfig { local_address: Some(0x01) };
    assert_eq!(serve_one(&raw, &mut device(), config), None);
}

#[test]
fn serve_matching_address_is_answered() {
    let raw = with_crc(vec![0x01u8, 0x03, 0x00, 0x00, 0x00, 0x02]);
    let config = SlaveConfig { local_address: Some(0x01) };
    let reply = serve_one(&raw, &mut device(), config);
    assert_eq!(reply, Some(with_crc(vec![0x01u8, 0x03, 0x04, 0x00, 0x01, 0x00, 0x00])));
}

#[test]
fn serve_wrong_length_answer_becomes_device_failure() {
    // The service answers 1 register where 2 were asked: the dispatcher
    // reports SlaveDeviceFailure (code 4) instead of malformed data.
    let raw = with_crc(vec![0x01u8, 0x03, 0x00, 0x00, 0x00, 0x02]);
    let mut service = FixedService {
        answer: Ok(Response::ReadHoldingRegisters { values: vec![0x0001] }),
    };
    let reply = serve_one(&raw, &mut service, answer_all());
    assert_eq!(reply, Some(with_crc(vec![0x01u8, 0x83, 0x04])));
}

#[test]
fn serve_wrong_variant_answer_becomes_device_failure() {
    let raw = with_crc(vec![0x01u8, 0x04, 0x00, 0x00, 0x00, 0x01]);
    let mut service = FixedService {
        answer: Ok(Response::WriteMultipleRegisters { start_addr: 0, quantity: 1 }),
    };
    let reply = serve_one(&raw, &mut service, answer_all());
    assert_eq!(reply, Some(with_crc(vec![0x01u8, 0x84, 0x04])));
}

#[test]
fn serve_service_exception_is_forwarded() {
    let raw = with_crc(vec![0x01u8, 0x03, 0x10, 0x00, 0x00, 0x01]);
    let mut service = FixedService { answer: Err(Exception::IllegalDataAddress) };
    let reply = serve_one(&raw, &mut service, answer_all());
    assert_eq!(reply, Some(with_crc(vec![0x01u8, 0x83, 0x02])));
}

#[test]
fn resolve_passes_matching_response() {
    let request = Request::ReadHoldingRegisters { start_addr: 0, quantity: 2 };
    let response = Response::ReadHoldingRegisters { values: vec![7, 8] };
    assert_eq!(resolve(&request, Ok(response.clone())), Ok(response));
}

#[test]
fn resolve_rejects_wrong_length() {
    let request = Request::ReadHoldingRegisters { start_addr: 0, quantity: 2 };
    let response = Response::ReadHoldingRegisters { values: vec![7, 8, 9] };
    assert_eq!(resolve(&request, Ok(response)), Err(Exception::SlaveDeviceFailure));
}

#[test]
fn resolve_rejects_wrong_write_echo() {
    let request = Request::WriteMultipleRegisters { start_addr: 5, values: vec![1, 2] };
    let response = Response::WriteMultipleRegisters { start_addr: 6, quantity: 2 };
    assert_eq!(resolve(&request, Ok(response)), Err(Exception::SlaveDeviceFailure));
}

#[test]
fn resolve_forwards_exception() {
    let request = Request::ReadInputRegisters { start_addr: 0, quantity: 1 };
    assert_eq!(
        resolve(&request, Err(Exception::IllegalDataAddress)),
        Err(Exception::IllegalDataAddress)
    );
}

#[test]
fn validate_response_checks_variant_and_length() {
    let read = Request::ReadInputRegisters { start_addr: 0, quantity: 2 };
    assert!(validate_response(&read, &Response::ReadInputRegisters { values: vec![1, 2] }));
    assert!(!validate_response(&read, &Response::ReadHoldingRegisters { values: vec![1, 2] }));
    assert!(!validate_response(&read, &Response::ReadInputRegisters { values: vec![1] }));
    let write = Request::WriteMultipleRegisters { start_addr: 3, values: vec![1, 2] };
    assert!(validate_response(&write, &Response::WriteMultipleRegisters { start_addr: 3, quantity: 2 }));
    assert!(!validate_response(&write, &Response::WriteMultipleRegisters { start_addr: 3, quantity: 1 }));
}

#[test]
fn simulated_device_fills_and_keeps_its_state() {
    let mut dev = device();
    let reply = Service::call(&mut dev, &Request::ReadInputRegisters { start_addr: 0, quantity: 4 });
    assert_eq!(
        reply,
        Ok(Response::ReadInputRegisters { values: vec![0x1234, 0x4248, 0x1234, 0x4248] })
    );
    assert_eq!(dev.input_first, 0x1234);
    assert_eq!(dev.input_second, 0x4248);
    let reply = Service::call(&mut dev, &Request::ReadHoldingRegisters { start_addr: 2, quantity: 3 });
    assert_eq!(reply, Ok(Response::ReadHoldingRegisters { values: vec![1, 0, 0] }));
}

#[test]
fn fill_register_pairs_even_quantity() {
    assert_eq!(fill_register_pairs(4, 1, 0), vec![1, 0, 1, 0]);
}

#[test]
fn fill_register_pairs_odd_quantity_leaves_zero_tail() {
    assert_eq!(fill_register_pairs(5, 0x12, 0x34), vec![0x12, 0x34, 0x12, 0x34, 0]);
}

#[test]
fn fill_register_pairs_empty() {
    assert_eq!(fill_register_pairs(0, 1, 0), Vec::<u16>::new());
}
