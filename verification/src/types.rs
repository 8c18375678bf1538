//! Protocol data types: decoded frames, typed requests and responses,
//! protocol exceptions, and frame-level errors, each with a ghost model
//! that the contracts speak of.

use vstd::prelude::*;

verus! {

/// Why a candidate frame was rejected before any protocol processing.
/// A frame that fails at this level is silently discarded: no response
/// is owed, since the requester cannot reliably be identified.
#[derive(Clone, Copy, Debug, PartialEq, Eq, Structural)]
pub enum FrameError {
    /// Under the four-byte minimum (address, function, two CRC bytes).
    TooShort,
    /// The trailing CRC does not match the CRC computed over the body.
    Crc,
}

/// A Modbus protocol exception, reported to the requester in an
/// exception frame.
#[derive(Clone, Copy, Debug, PartialEq, Eq, Structural)]
pub enum Exception {
    IllegalFunction,
    IllegalDataAddress,
    IllegalDataValue,
    SlaveDeviceFailure,
}

/// The one-byte code a protocol exception is encoded as on the wire.
pub open spec fn exception_code(e: Exception) -> u8 {
    match e {
        Exception::IllegalFunction => 1,
        Exception::IllegalDataAddress => 2,
        Exception::IllegalDataValue => 3,
        Exception::SlaveDeviceFailure => 4,
    }
}

impl Exception {
    /// The wire code of this exception.
    pub fn code(&self) -> (r: u8)
        ensures
            r == exception_code(*self),
    {
        match self {
            Exception::IllegalFunction => 1,
            Exception::IllegalDataAddress => 2,
            Exception::IllegalDataValue => 3,
            Exception::SlaveDeviceFailure => 4,
        }
    }
}

/// A structurally decoded frame: CRC already checked and stripped.
#[derive(Clone, Debug, PartialEq)]
pub struct Frame {
    /// Slave (unit) address the frame is directed at.
    pub address: u8,
    /// Function code of the protocol data unit.
    pub function: u8,
    /// Everything between the function code and the CRC.
    pub payload: Vec<u8>,
}

/// Ghost model of a decoded frame.
#[verifier::ext_equal]
pub ghost struct FrameModel {
    pub address: u8,
    pub function: u8,
    pub payload: Seq<u8>,
}

impl View for Frame {
    type V = FrameModel;

    open spec fn view(&self) -> FrameModel {
        FrameModel { address: self.address, function: self.function, payload: self.payload@ }
    }
}

/// A typed request, decoded from a frame's function code and payload.
#[derive(Clone, Debug, PartialEq)]
pub enum Request {
    /// Function code 0x03: read `quantity` holding registers starting at
    /// `start_addr`.
    ReadHoldingRegisters { start_addr: u16, quantity: u16 },
    /// Function code 0x04: read `quantity` input registers starting at
    /// `start_addr`.
    ReadInputRegisters { start_addr: u16, quantity: u16 },
    /// Function code 0x10: write `values` to consecutive registers
    /// starting at `start_addr`.
    WriteMultipleRegisters { start_addr: u16, values: Vec<u16> },
}

/// Ghost model of a typed request.
#[verifier::ext_equal]
pub ghost enum RequestModel {
    ReadHoldingRegisters { start_addr: u16, quantity: u16 },
    ReadInputRegisters { start_addr: u16, quantity: u16 },
    WriteMultipleRegisters { start_addr: u16, values: Seq<u16> },
}

impl View for Request {
    type V = RequestModel;

    open spec fn view(&self) -> RequestModel {
        match self {
            Request::ReadHoldingRegisters { start_addr, quantity } => {
                RequestModel::ReadHoldingRegisters { start_addr: *start_addr, quantity: *quantity }
            },
            Request::ReadInputRegisters { start_addr, quantity } => {
                RequestModel::ReadInputRegisters { start_addr: *start_addr, quantity: *quantity }
            },
            Request::WriteMultipleRegisters { start_addr, values } => {
                RequestModel::WriteMultipleRegisters { start_addr: *start_addr, values: values@ }
            },
        }
    }
}

impl RequestModel {
    /// A request the decoder can produce: read quantities within the
    /// protocol bound, and a write short enough that its byte count
    /// fits the one-byte byte-count field.
    pub open spec fn wf(self) -> bool {
        match self {
            RequestModel::ReadHoldingRegisters { quantity, .. } => 1 <= quantity <= 125,
            RequestModel::ReadInputRegisters { quantity, .. } => 1 <= quantity <= 125,
            RequestModel::WriteMultipleRegisters { values, .. } => values.len() <= 127,
        }
    }
}

impl Request {
    /// Executable form of `RequestModel::wf` on the request's model.
    pub fn is_wf(&self) -> (r: bool)
        ensures
            r == self@.wf(),
    {
        match self {
            Request::ReadHoldingRegisters { quantity, .. } => 1 <= *quantity && *quantity <= 125,
            Request::ReadInputRegisters { quantity, .. } => 1 <= *quantity && *quantity <= 125,
            Request::WriteMultipleRegisters { values, .. } => values.len() <= 127,
        }
    }
}

/// A typed response, to be encoded into a reply frame.
#[derive(Clone, Debug, PartialEq)]
pub enum Response {
    /// Register values answering a read of holding registers.
    ReadHoldingRegisters { values: Vec<u16> },
    /// Register values answering a read of input registers.
    ReadInputRegisters { values: Vec<u16> },
    /// Acknowledgement of a write: the starting address and the count
    /// of registers written.
    WriteMultipleRegisters { start_addr: u16, quantity: u16 },
}

/// Ghost model of a typed response.
#[verifier::ext_equal]
pub ghost enum ResponseModel {
    ReadHoldingRegisters { values: Seq<u16> },
    ReadInputRegisters { values: Seq<u16> },
    WriteMultipleRegisters { start_addr: u16, quantity: u16 },
}

impl View for Response {
    type V = ResponseModel;

    open spec fn view(&self) -> ResponseModel {
        match self {
            Response::ReadHoldingRegisters { values } => {
                ResponseModel::ReadHoldingRegisters { values: values@ }
            },
            Response::ReadInputRegisters { values } => {
                ResponseModel::ReadInputRegisters { values: values@ }
            },
            Response::WriteMultipleRegisters { start_addr, quantity } => {
                ResponseModel::WriteMultipleRegisters {
                    start_addr: *start_addr,
                    quantity: *quantity,
                }
            },
        }
    }
}

/// What a service owes for each request: the matching response variant,
/// with exactly the requested number of registers for a read and a
/// faithful echo for a write. Anything else is a contract violation
/// that the dispatcher turns into `SlaveDeviceFailure`.
pub open spec fn response_matches(req: RequestModel, resp: ResponseModel) -> bool {
    match req {
        RequestModel::ReadHoldingRegisters { quantity, .. } => {
            resp matches ResponseModel::ReadHoldingRegisters { values } && values.len()
                == quantity
        },
        RequestModel::ReadInputRegisters { quantity, .. } => {
            resp matches ResponseModel::ReadInputRegisters { values } && values.len() == quantity
        },
        RequestModel::WriteMultipleRegisters { start_addr, values } => {
            resp matches ResponseModel::WriteMultipleRegisters {
                start_addr: resp_addr,
                quantity: resp_qty,
            } && resp_addr == start_addr && resp_qty == values.len()
        },
    }
}

} // verus!
