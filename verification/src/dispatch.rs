//! The request dispatcher: decode a candidate frame, resolve the typed
//! request against a user-supplied service, and encode the reply frame
//! or exception frame. Frame-level failures are answered with silence,
//! as the RTU wire protocol demands.

use vstd::prelude::*;

use crate::codec::{
    decode_frame, decode_request, encode_exception, encode_response, exception_frame_bytes,
    parse_frame, parse_request, response_frame_bytes,
};
use crate::types::{
    Exception, Request, RequestModel, Response, ResponseModel, response_matches,
};

verus! {

/// The capability a device implementation supplies: one call per
/// decoded request, answering with a response or a protocol exception.
/// The dispatcher only hands over well-formed requests, so an
/// implementation may rely on read quantities between 1 and 125 and on
/// writes of at most 127 registers.
pub trait Service {
    /// Answers one decoded request.
    fn call(&mut self, request: &Request) -> (r: Result<Response, Exception>)
        requires
            request@.wf(),
    ;
}

/// Which frames this slave answers: frames carrying its own address,
/// or every frame when no address is configured.
#[derive(Clone, Copy, Debug)]
pub struct SlaveConfig {
    /// The slave's own bus address, or `None` to answer all addresses.
    pub local_address: Option<u8>,
}

/// Whether a frame addressed to `address` is answered under `config`.
pub open spec fn answers(config: SlaveConfig, address: u8) -> bool {
    match config.local_address {
        None => true,
        Some(a) => address == a,
    }
}

/// What the dispatcher makes of a service's answer: a response that
/// matches the request passes through; a response that violates the
/// service contract becomes `SlaveDeviceFailure`; an exception passes
/// through.
pub open spec fn dispatch_outcome(
    req: RequestModel,
    handled: Result<ResponseModel, Exception>,
) -> Result<ResponseModel, Exception> {
    match handled {
        Ok(resp) => if response_matches(req, resp) {
            Ok(resp)
        } else {
            Err(Exception::SlaveDeviceFailure)
        },
        Err(e) => Err(e),
    }
}

/// Checks that a response is of the variant the request calls for,
/// carries exactly the requested number of registers for a read, and
/// echoes the start address and register count for a write.
pub fn validate_response(request: &Request, response: &Response) -> (r: bool)
    ensures
        r == response_matches(request@, response@),
{
    match request {
        Request::ReadHoldingRegisters { quantity, .. } => match response {
            Response::ReadHoldingRegisters { values } => values.len() == *quantity as usize,
            _ => false,
        },
        Request::ReadInputRegisters { quantity, .. } => match response {
            Response::ReadInputRegisters { values } => values.len() == *quantity as usize,
            _ => false,
        },
        Request::WriteMultipleRegisters { start_addr, values } => match response {
            Response::WriteMultipleRegisters { start_addr: resp_addr, quantity } => {
                *resp_addr == *start_addr && *quantity as usize == values.len()
            },
            _ => false,
        },
    }
}

/// Screens a service's answer: whatever the service returned, the
/// result is exactly `dispatch_outcome` of it, so a malformed response
/// never reaches the wire.
pub fn resolve(request: &Request, handled: Result<Response, Exception>) -> (r: Result<
    Response,
    Exception,
>)
    ensures
        match dispatch_outcome(
            request@,
            match handled {
                Ok(resp) => Ok(resp@),
                Err(e) => Err(e),
            },
        ) {
            Ok(m) => r matches Ok(resp) && resp@ == m,
            Err(e) => r matches Err(e2) && e2 == e,
        },
{
    match handled {
        Ok(response) => {
            if validate_response(request, &response) {
                Ok(response)
            } else {
                Err(Exception::SlaveDeviceFailure)
            }
        },
        Err(e) => Err(e),
    }
}

/// Serves one candidate frame end to end: decode, filter by address,
/// parse, call the service, screen its answer, encode. Returns the
/// complete reply frame to write back, or `None` where the wire
/// protocol demands silence — a malformed frame, or a frame this slave
/// does not answer. A broadcast frame (address 0) is handed to the
/// service but answered with silence. Whatever the service did, an
/// emitted success frame
/// encodes a response that matches the request, and any other emitted
/// frame is a well-formed exception frame for the request's function
/// code.
pub fn serve_one<S: Service>(raw: &Vec<u8>, service: &mut S, config: SlaveConfig) -> (r: Option<
    Vec<u8>,
>)
    ensures
        parse_frame(raw@) is Err ==> r is None,
        parse_frame(raw@) matches Ok(f) ==> (!answers(config, f.address) ==> r is None),
        parse_frame(raw@) matches Ok(f) ==> (answers(config, f.address) ==> match parse_request(
            f.function,
            f.payload,
        ) {
            Err(e) => r matches Some(out) && out@ == exception_frame_bytes(
                f.address,
                f.function,
                e,
            ),
            Ok(req) => r matches Some(out) && ((exists|e: Exception|
                out@ == exception_frame_bytes(f.address, f.function, e)) || (
            exists|resp: ResponseModel|
                #[trigger] response_matches(req, resp) && out@ == response_frame_bytes(
                    f.address,
                    f.function,
                    resp,
                ))),
        }),
{
    let frame = match decode_frame(raw) {
        Err(_) => { return None; },
        Ok(f) => f,
    };
    let answer = match config.local_address {
        None => true,
        Some(a) => frame.address == a,
    };
    if !answer && frame.address != 0 {
        return None;
    }
    let request = match decode_request(frame.function, &frame.payload) {
        Err(e) => {
            if answer {
                return Some(encode_exception(frame.address, frame.function, e));
            } else {
                return None;
            }
        },
        Ok(q) => q,
    };
    proof {
        crate::codec::lemma_parsed_request_wf(frame@.function, frame@.payload);
    }
    let handled = service.call(&request);
    let outcome = resolve(&request, handled);
    if !answer {
        return None;
    }
    match outcome {
        Ok(response) => {
            proof {
                assert(response_matches(request@, response@));
            }
            Some(encode_response(frame.address, frame.function, &response))
        },
        Err(e) => Some(encode_exception(frame.address, frame.function, e)),
    }
}

} // verus!
