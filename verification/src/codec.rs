//! The frame codec: byte-level parsing and encoding of Modbus RTU
//! frames, requests, responses and exception replies. Every exec
//! function is specified against a spec-level model of the wire format.

use vstd::prelude::*;

use crate::crc::{crc16, crc16_of};
use crate::types::{
    Exception, Frame, FrameError, FrameModel, Request, RequestModel, Response, ResponseModel,
    exception_code,
};

verus! {

/// The 16-bit value written big-endian as the bytes `hi`, `lo`.
pub open spec fn be_u16(hi: u8, lo: u8) -> u16 {
    ((hi as int) * 256 + (lo as int)) as u16
}

/// High byte of a 16-bit value in big-endian order.
pub open spec fn u16_hi(x: u16) -> u8 {
    (x / 256) as u8
}

/// Low byte of a 16-bit value in big-endian order.
pub open spec fn u16_lo(x: u16) -> u8 {
    (x % 256) as u8
}

/// A word split into its big-endian bytes reassembles to itself.
pub proof fn lemma_be_u16_split(x: u16)
    ensures
        be_u16(u16_hi(x), u16_lo(x)) == x,
{
}

/// Register words laid out as consecutive big-endian byte pairs.
pub open spec fn words_be_bytes(values: Seq<u16>) -> Seq<u8> {
    Seq::new(
        2 * values.len(),
        |k: int| if k % 2 == 0 {
            u16_hi(values[k / 2])
        } else {
            u16_lo(values[k / 2])
        },
    )
}

/// Consecutive big-endian byte pairs read back as register words.
pub open spec fn bytes_to_words(bytes: Seq<u8>) -> Seq<u16> {
    Seq::new(bytes.len() / 2, |i: int| be_u16(bytes[2 * i], bytes[2 * i + 1]))
}

/// Splitting words to bytes and reading them back is the identity.
pub proof fn lemma_words_round_trip(values: Seq<u16>)
    ensures
        bytes_to_words(words_be_bytes(values)) == values,
{
    let bytes = words_be_bytes(values);
    assert forall|i: int| 0 <= i < values.len() implies bytes_to_words(bytes)[i]
        == values[i] by {
        assert((2 * i) % 2 == 0);
        assert((2 * i) / 2 == i);
        assert((2 * i + 1) % 2 == 1);
        assert((2 * i + 1) / 2 == i);
        lemma_be_u16_split(values[i]);
    }
    assert(bytes_to_words(bytes) =~= values);
}

/// A complete frame on the wire: address, function code and payload,
/// followed by the CRC over those bytes, low byte first.
pub open spec fn frame_bytes(address: u8, function: u8, payload: Seq<u8>) -> Seq<u8> {
    let body = seq![address, function] + payload;
    let crc = crc16_of(body);
    body + seq![u16_lo(crc), u16_hi(crc)]
}

/// What `decode_frame` returns on a candidate frame: the minimum-length
/// check, then the CRC check over everything but the trailing two
/// bytes.
pub open spec fn parse_frame(bytes: Seq<u8>) -> Result<FrameModel, FrameError> {
    if bytes.len() < 4 {
        Err(FrameError::TooShort)
    } else {
        let body = bytes.take(bytes.len() - 2);
        let crc = crc16_of(body);
        if bytes[bytes.len() - 2] == u16_lo(crc) && bytes[bytes.len() - 1] == u16_hi(crc) {
            Ok(
                FrameModel {
                    address: bytes[0],
                    function: bytes[1],
                    payload: bytes.subrange(2, bytes.len() - 2),
                },
            )
        } else {
            Err(FrameError::Crc)
        }
    }
}

/// What `decode_request` returns for a function code and payload.
pub open spec fn parse_request(function: u8, p: Seq<u8>) -> Result<RequestModel, Exception> {
    if function == 3 || function == 4 {
        if p.len() != 4 {
            Err(Exception::IllegalDataValue)
        } else {
            let start_addr = be_u16(p[0], p[1]);
            let quantity = be_u16(p[2], p[3]);
            if 1 <= quantity <= 125 {
                if function == 3 {
                    Ok(RequestModel::ReadHoldingRegisters { start_addr, quantity })
                } else {
                    Ok(RequestModel::ReadInputRegisters { start_addr, quantity })
                }
            } else {
                Err(Exception::IllegalDataValue)
            }
        }
    } else if function == 0x10 {
        if p.len() < 5 {
            Err(Exception::IllegalDataValue)
        } else {
            let quantity = be_u16(p[2], p[3]);
            let byte_count = p[4];
            if byte_count == 2 * (quantity as int) && p.len() == 5 + byte_count {
                Ok(
                    RequestModel::WriteMultipleRegisters {
                        start_addr: be_u16(p[0], p[1]),
                        values: bytes_to_words(p.skip(5)),
                    },
                )
            } else {
                Err(Exception::IllegalDataValue)
            }
        }
    } else {
        Err(Exception::IllegalFunction)
    }
}

/// Reassembles a 16-bit value from its big-endian bytes.
fn be16(hi: u8, lo: u8) -> (r: u16)
    ensures
        r == be_u16(hi, lo),
{
    (hi as u16) * 256 + (lo as u16)
}

/// Copies `src[from..to]` into a fresh vector.
fn copy_range(src: &Vec<u8>, from: usize, to: usize) -> (r: Vec<u8>)
    requires
        from <= to <= src.len(),
    ensures
        r@ == src@.subrange(from as int, to as int),
{
    let mut out: Vec<u8> = Vec::new();
    proof {
        assert(out@ =~= src@.subrange(from as int, from as int));
    }
    let mut i: usize = from;
    while i < to
        invariant
            from <= i <= to <= src.len(),
            out@ == src@.subrange(from as int, i as int),
        decreases to - i,
    {
        out.push(src[i]);
        proof {
            assert(out@ =~= src@.subrange(from as int, i as int + 1));
        }
        i = i + 1;
    }
    out
}

/// Validates a candidate frame delimited by the transport and strips
/// the CRC: under four bytes is `TooShort`, a trailing CRC that does
/// not match the CRC-16/Modbus of the preceding bytes is `Crc`, and
/// otherwise the address, function code and payload are returned.
pub fn decode_frame(bytes: &Vec<u8>) -> (r: Result<Frame, FrameError>)
    ensures
        match parse_frame(bytes@) {
            Ok(fm) => r matches Ok(f) && f@ == fm,
            Err(e) => r matches Err(e2) && e2 == e,
        },
{
    let n = bytes.len();
    if n < 4 {
        return Err(FrameError::TooShort);
    }
    let body = copy_range(bytes, 0, n - 2);
    proof {
        assert(body@ =~= bytes@.take(n - 2));
    }
    let crc = crc16(&body);
    let lo = (crc % 256) as u8;
    let hi = (crc / 256) as u8;
    if bytes[n - 2] != lo || bytes[n - 1] != hi {
        return Err(FrameError::Crc);
    }
    let payload = copy_range(bytes, 2, n - 2);
    let frame = Frame { address: bytes[0], function: bytes[1], payload };
    proof {
        assert(frame@ =~= parse_frame(bytes@)->Ok_0);
    }
    Ok(frame)
}

/// Decodes a frame's function code and payload into a typed request.
/// Function codes 0x03 and 0x04 take a four-byte payload of start
/// address and quantity, the quantity between 1 and 125; function code
/// 0x10 takes start address, quantity, a byte count that must equal
/// twice the quantity, and exactly that many data bytes. A malformed
/// payload is `IllegalDataValue`; any other function code is
/// `IllegalFunction`.
pub fn decode_request(function: u8, payload: &Vec<u8>) -> (r: Result<Request, Exception>)
    ensures
        match parse_request(function, payload@) {
            Ok(m) => r matches Ok(q) && q@ == m,
            Err(e) => r matches Err(e2) && e2 == e,
        },
{
    if function == 3 || function == 4 {
        if payload.len() != 4 {
            return Err(Exception::IllegalDataValue);
        }
        let start_addr = be16(payload[0], payload[1]);
        let quantity = be16(payload[2], payload[3]);
        if quantity < 1 || quantity > 125 {
            return Err(Exception::IllegalDataValue);
        }
        if function == 3 {
            Ok(Request::ReadHoldingRegisters { start_addr, quantity })
        } else {
            Ok(Request::ReadInputRegisters { start_addr, quantity })
        }
    } else if function == 0x10 {
        if payload.len() < 5 {
            return Err(Exception::IllegalDataValue);
        }
        let start_addr = be16(payload[0], payload[1]);
        let quantity = be16(payload[2], payload[3]);
        let byte_count = payload[4];
        if byte_count as usize != 2 * quantity as usize {
            return Err(Exception::IllegalDataValue);
        }
        if payload.len() != 5 + byte_count as usize {
            return Err(Exception::IllegalDataValue);
        }
        let mut values: Vec<u16> = Vec::new();
        let mut i: usize = 0;
        while i < quantity as usize
            invariant
                i <= quantity as usize,
                payload@.len() == 5 + 2 * (quantity as int),
                values@.len() == i as int,
                forall|k: int|
                    0 <= k < i as int ==> values@[k] == be_u16(
                        payload@[5 + 2 * k],
                        payload@[6 + 2 * k],
                    ),
            decreases quantity as usize - i,
        {
            let hi = payload[5 + 2 * i];
            let lo = payload[6 + 2 * i];
            values.push(be16(hi, lo));
            i = i + 1;
        }
        proof {
            let words = bytes_to_words(payload@.skip(5));
            assert(payload@.skip(5).len() == 2 * (quantity as int));
            assert forall|k: int| 0 <= k < quantity as int implies words[k] == values@[k] by {
                assert(payload@.skip(5)[2 * k] == payload@[5 + 2 * k]);
                assert(payload@.skip(5)[2 * k + 1] == payload@[6 + 2 * k]);
            }
            assert(values@ =~= words);
        }
        Ok(Request::WriteMultipleRegisters { start_addr, values })
    } else {
        Err(Exception::IllegalFunction)
    }
}

/// The function code a request is carried under.
pub open spec fn request_function(req: RequestModel) -> u8 {
    match req {
        RequestModel::ReadHoldingRegisters { .. } => 3,
        RequestModel::ReadInputRegisters { .. } => 4,
        RequestModel::WriteMultipleRegisters { .. } => 0x10,
    }
}

/// The payload a request is carried as: start address and quantity for
/// a read; start address, quantity, byte count and register data for a
/// write.
pub open spec fn request_pdu(req: RequestModel) -> Seq<u8> {
    match req {
        RequestModel::ReadHoldingRegisters { start_addr, quantity } => {
            seq![u16_hi(start_addr), u16_lo(start_addr), u16_hi(quantity), u16_lo(quantity)]
        },
        RequestModel::ReadInputRegisters { start_addr, quantity } => {
            seq![u16_hi(start_addr), u16_lo(start_addr), u16_hi(quantity), u16_lo(quantity)]
        },
        RequestModel::WriteMultipleRegisters { start_addr, values } => {
            let quantity = values.len() as u16;
            seq![
                u16_hi(start_addr),
                u16_lo(start_addr),
                u16_hi(quantity),
                u16_lo(quantity),
                (2 * values.len()) as u8,
            ] + words_be_bytes(values)
        },
    }
}

/// The payload a response is carried as: byte count then register data
/// for a read; echoed start address and quantity for a write.
pub open spec fn response_pdu(resp: ResponseModel) -> Seq<u8> {
    match resp {
        ResponseModel::ReadHoldingRegisters { values } => {
            seq![(2 * values.len()) as u8] + words_be_bytes(values)
        },
        ResponseModel::ReadInputRegisters { values } => {
            seq![(2 * values.len()) as u8] + words_be_bytes(values)
        },
        ResponseModel::WriteMultipleRegisters { start_addr, quantity } => {
            seq![u16_hi(start_addr), u16_lo(start_addr), u16_hi(quantity), u16_lo(quantity)]
        },
    }
}

/// A response whose byte count fits the one-byte byte-count field of a
/// read reply. Every response the dispatcher emits satisfies this.
pub open spec fn response_encodable(resp: ResponseModel) -> bool {
    match resp {
        ResponseModel::ReadHoldingRegisters { values } => values.len() <= 125,
        ResponseModel::ReadInputRegisters { values } => values.len() <= 125,
        ResponseModel::WriteMultipleRegisters { .. } => true,
    }
}

/// The full reply frame for a successful response.
pub open spec fn response_frame_bytes(address: u8, function: u8, resp: ResponseModel) -> Seq<u8> {
    frame_bytes(address, function, response_pdu(resp))
}

/// The full exception frame for a rejected request: the function code
/// with its high bit set, then the one-byte exception code.
pub open spec fn exception_frame_bytes(address: u8, function: u8, e: Exception) -> Seq<u8> {
    frame_bytes(address, function | 0x80, seq![exception_code(e)])
}

/// Appends a 16-bit value big-endian.
fn push_u16_be(out: &mut Vec<u8>, x: u16)
    ensures
        final(out)@ == old(out)@ + seq![u16_hi(x), u16_lo(x)],
{
    out.push((x / 256) as u8);
    out.push((x % 256) as u8);
    proof {
        assert(final(out)@ =~= old(out)@ + seq![u16_hi(x), u16_lo(x)]);
    }
}

/// Appends register words as big-endian byte pairs.
fn push_words_be(out: &mut Vec<u8>, values: &Vec<u16>)
    ensures
        final(out)@ == old(out)@ + words_be_bytes(values@),
{
    let base = out.len();
    let mut i: usize = 0;
    while i < values.len()
        invariant
            i <= values.len(),
            base == old(out)@.len(),
            out@.len() == base + 2 * i,
            out@.take(base as int) == old(out)@,
            forall|k: int|
                0 <= k < 2 * (i as int) ==> out@[base + k] == words_be_bytes(values@)[k],
        decreases values.len() - i,
    {
        proof {
            assert((2 * (i as int)) % 2 == 0);
            assert((2 * (i as int)) / 2 == i as int);
            assert((2 * (i as int) + 1) % 2 == 1);
            assert((2 * (i as int) + 1) / 2 == i as int);
        }
        let ghost prev: Seq<u8> = out@;
        push_u16_be(out, values[i]);
        proof {
            assert(out@.take(base as int) =~= prev.take(base as int));
        }
        i = i + 1;
    }
    proof {
        assert(out@ =~= old(out)@ + words_be_bytes(values@));
    }
}

/// Appends the CRC-16/Modbus of the bytes so far, low byte first,
/// completing a frame.
fn append_crc(body: Vec<u8>) -> (r: Vec<u8>)
    ensures
        r@ == body@ + seq![u16_lo(crc16_of(body@)), u16_hi(crc16_of(body@))],
{
    let crc = crc16(&body);
    let mut out = body;
    out.push((crc % 256) as u8);
    out.push((crc / 256) as u8);
    proof {
        assert(out@ =~= body@ + seq![u16_lo(crc), u16_hi(crc)]);
    }
    out
}

/// Encodes a successful response into a complete reply frame under the
/// echoed function code.
pub fn encode_response(address: u8, function: u8, response: &Response) -> (r: Vec<u8>)
    requires
        response_encodable(response@),
    ensures
        r@ == response_frame_bytes(address, function, response@),
{
    let mut out: Vec<u8> = Vec::new();
    out.push(address);
    out.push(function);
    match response {
        Response::ReadHoldingRegisters { values } => {
            out.push((2 * values.len()) as u8);
            push_words_be(&mut out, values);
        },
        Response::ReadInputRegisters { values } => {
            out.push((2 * values.len()) as u8);
            push_words_be(&mut out, values);
        },
        Response::WriteMultipleRegisters { start_addr, quantity } => {
            push_u16_be(&mut out, *start_addr);
            push_u16_be(&mut out, *quantity);
        },
    }
    proof {
        assert(out@ =~= seq![address, function] + response_pdu(response@));
    }
    append_crc(out)
}

/// Encodes a protocol exception into a complete exception frame: the
/// function code with its high bit set and the exception code byte.
pub fn encode_exception(address: u8, function: u8, exception: Exception) -> (r: Vec<u8>)
    ensures
        r@ == exception_frame_bytes(address, function, exception),
{
    let mut out: Vec<u8> = Vec::new();
    out.push(address);
    out.push(function | 0x80);
    out.push(exception.code());
    proof {
        assert(out@ =~= seq![address, function | 0x80] + seq![exception_code(exception)]);
    }
    append_crc(out)
}

/// Encodes a request into a complete frame, as a master would send it.
pub fn encode_request(address: u8, request: &Request) -> (r: Vec<u8>)
    requires
        request@.wf(),
    ensures
        r@ == frame_bytes(address, request_function(request@), request_pdu(request@)),
{
    let mut out: Vec<u8> = Vec::new();
    out.push(address);
    match request {
        Request::ReadHoldingRegisters { start_addr, quantity } => {
            out.push(3);
            push_u16_be(&mut out, *start_addr);
            push_u16_be(&mut out, *quantity);
        },
        Request::ReadInputRegisters { start_addr, quantity } => {
            out.push(4);
            push_u16_be(&mut out, *start_addr);
            push_u16_be(&mut out, *quantity);
        },
        Request::WriteMultipleRegisters { start_addr, values } => {
            out.push(0x10);
            push_u16_be(&mut out, *start_addr);
            push_u16_be(&mut out, values.len() as u16);
            out.push((2 * values.len()) as u8);
            push_words_be(&mut out, values);
        },
    }
    proof {
        assert(out@ =~= seq![address, request_function(request@)] + request_pdu(request@));
    }
    append_crc(out)
}

/// Every request the decoder accepts is well-formed: read quantities
/// lie between 1 and 125, and a write carries at most 127 registers,
/// since its byte count fits one byte.
pub proof fn lemma_parsed_request_wf(function: u8, p: Seq<u8>)
    ensures
        parse_request(function, p) matches Ok(m) ==> m.wf(),
{
    if function == 0x10 && parse_request(function, p) is Ok {
        let quantity = be_u16(p[2], p[3]);
        let byte_count = p[4];
        assert(2 * (quantity as int) == byte_count);
        assert(quantity <= 127);
        assert(p.skip(5).len() == byte_count);
        assert(bytes_to_words(p.skip(5)).len() == byte_count / 2);
    }
}

/// Framing round-trips: a frame assembled from any address, function
/// code and payload decodes back to exactly those parts.
pub proof fn lemma_frame_round_trip(address: u8, function: u8, payload: Seq<u8>)
    ensures
        parse_frame(frame_bytes(address, function, payload)) == Ok::<FrameModel, FrameError>(
            FrameModel { address, function, payload },
        ),
{
    let body = seq![address, function] + payload;
    let bytes = frame_bytes(address, function, payload);
    assert(bytes.len() == body.len() + 2);
    assert(bytes.take(bytes.len() - 2) =~= body);
    assert(bytes[bytes.len() - 2] == u16_lo(crc16_of(body)));
    assert(bytes[bytes.len() - 1] == u16_hi(crc16_of(body)));
    assert(bytes[0] == address);
    assert(bytes[1] == function);
    assert(bytes.subrange(2, bytes.len() - 2) =~= payload);
    assert(parse_frame(bytes)->Ok_0 =~= FrameModel { address, function, payload });
}

/// Request payloads round-trip: the payload encoded for any
/// well-formed request parses back, under the request's function code,
/// to an equal request.
pub proof fn lemma_request_round_trip(request: RequestModel)
    requires
        request.wf(),
    ensures
        parse_request(request_function(request), request_pdu(request)) == Ok::<
            RequestModel,
            Exception,
        >(request),
{
    let function = request_function(request);
    let p = request_pdu(request);
    match request {
        RequestModel::ReadHoldingRegisters { start_addr, quantity } => {
            lemma_be_u16_split(start_addr);
            lemma_be_u16_split(quantity);
        },
        RequestModel::ReadInputRegisters { start_addr, quantity } => {
            lemma_be_u16_split(start_addr);
            lemma_be_u16_split(quantity);
        },
        RequestModel::WriteMultipleRegisters { start_addr, values } => {
            let quantity = values.len() as u16;
            lemma_be_u16_split(start_addr);
            lemma_be_u16_split(quantity);
            assert(p.len() == 5 + 2 * values.len());
            assert(p[2] == u16_hi(quantity) && p[3] == u16_lo(quantity));
            assert(be_u16(p[2], p[3]) == quantity);
            assert(p[4] == (2 * values.len()) as u8);
            assert(p[4] == 2 * (quantity as int));
            assert(p.skip(5) =~= words_be_bytes(values));
            lemma_words_round_trip(values);
            assert(parse_request(function, p)->Ok_0 =~= request);
        },
    }
}

/// Full round-trip: encoding any well-formed request as a complete
/// frame, then decoding the frame and parsing its payload, yields the
/// original request and preserves the slave address.
pub proof fn lemma_request_frame_round_trip(address: u8, request: RequestModel)
    requires
        request.wf(),
    ensures
        ({
            let bytes = frame_bytes(address, request_function(request), request_pdu(request));
            &&& parse_frame(bytes) matches Ok(f)
            &&& parse_frame(bytes)->Ok_0.address == address
            &&& parse_request(
                parse_frame(bytes)->Ok_0.function,
                parse_frame(bytes)->Ok_0.payload,
            ) == Ok::<RequestModel, Exception>(request)
        }),
{
    lemma_frame_round_trip(address, request_function(request), request_pdu(request));
    lemma_request_round_trip(request);
}

/// Corrupting a frame that decodes, in exactly one byte ahead of the
/// trailing CRC — one flipped payload bit included — while the CRC
/// bytes stay as they were, makes decoding fail with `Crc`. The
/// checksum never collides on an error confined to a single byte.
pub proof fn lemma_corrupted_frame_rejected(bytes: Seq<u8>, corrupted: Seq<u8>, i: int)
    requires
        parse_frame(bytes) is Ok,
        corrupted.len() == bytes.len(),
        0 <= i < bytes.len() - 2,
        corrupted[i] != bytes[i],
        forall|j: int| 0 <= j < bytes.len() && j != i ==> corrupted[j] == bytes[j],
    ensures
        parse_frame(corrupted) == Err::<FrameModel, FrameError>(FrameError::Crc),
{
    let n = bytes.len() as int;
    let body = bytes.take(n - 2);
    let corrupted_body = corrupted.take(n - 2);
    crate::crc::lemma_crc16_detects_byte_change(body, corrupted_body, i);
    let crc = crc16_of(body);
    let crc2 = crc16_of(corrupted_body);
    assert(corrupted[n - 2] == bytes[n - 2] && corrupted[n - 1] == bytes[n - 1]);
    if corrupted[n - 2] == u16_lo(crc2) && corrupted[n - 1] == u16_hi(crc2) {
        lemma_be_u16_split(crc);
        lemma_be_u16_split(crc2);
        assert(false);
    }
}

/// A read of holding or input registers is accepted exactly when its
/// quantity lies between 1 and 125; outside that bound it is rejected
/// with `IllegalDataValue`.
pub proof fn lemma_read_quantity_bound(function: u8, p: Seq<u8>)
    requires
        function == 3 || function == 4,
        p.len() == 4,
    ensures
        parse_request(function, p) is Ok <==> 1 <= be_u16(p[2], p[3]) <= 125,
        !(1 <= be_u16(p[2], p[3]) <= 125) ==> parse_request(function, p) == Err::<
            RequestModel,
            Exception,
        >(Exception::IllegalDataValue),
{
}

/// A write whose byte-count field does not equal twice its quantity is
/// rejected with `IllegalDataValue`.
pub proof fn lemma_write_byte_count_mismatch(p: Seq<u8>)
    requires
        p.len() >= 5,
        p[4] != 2 * (be_u16(p[2], p[3]) as int),
    ensures
        parse_request(0x10, p) == Err::<RequestModel, Exception>(Exception::IllegalDataValue),
{
}

/// Every function code other than 0x03, 0x04 and 0x10 is rejected with
/// `IllegalFunction`, whatever the payload.
pub proof fn lemma_unknown_function_rejected(function: u8, p: Seq<u8>)
    requires
        function != 3,
        function != 4,
        function != 0x10,
    ensures
        parse_request(function, p) == Err::<RequestModel, Exception>(Exception::IllegalFunction),
{
}

} // verus!
