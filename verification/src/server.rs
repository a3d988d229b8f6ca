use vstd::prelude::*;

use crate::cursor::{rc_rem, spec_u16_from_bytes};
use crate::error::{ExceptionCode, InternalError, RequestError};
use crate::function::{is_user_defined_code, spec_is_user_defined_code};
use crate::traits::ParseRequest;
use crate::types::{AddressRange, CustomFunctionCode, Indexed, WriteMultiple};

verus! {

/// Whether the dispatcher decodes a request body for this function code
/// itself: the read and write codes it serves.
pub open spec fn spec_is_served_code(code: u8) -> bool {
    code == 1 || code == 2 || code == 3 || code == 4 || code == 5 || code == 6 || code == 15
        || code == 16
}

/// A peer address, as plain values: a 4-byte or a 16-byte IP address read
/// big-endian into one integer.
#[derive(Clone, Copy, Debug, PartialEq, Eq, Structural)]
pub enum HostAddress {
    V4(u32),
    V6(u128),
}

/// The accept loop's address-allow policy: a connection from a disallowed
/// peer is closed immediately.
#[derive(Clone, Copy, Debug, PartialEq, Eq, Structural)]
pub enum AddressFilter {
    Any,
    AnyV4,
    AnyV6,
    Exact(HostAddress),
}

impl AddressFilter {
    /// Which peers the policy admits.
    pub open spec fn spec_allows(self, peer: HostAddress) -> bool {
        match self {
            AddressFilter::Any => true,
            AddressFilter::AnyV4 => peer is V4,
            AddressFilter::AnyV6 => peer is V6,
            AddressFilter::Exact(addr) => peer == addr,
        }
    }

    pub fn allows(&self, peer: HostAddress) -> (r: bool)
        ensures
            r == self.spec_allows(peer),
    {
        match self {
            AddressFilter::Any => true,
            AddressFilter::AnyV4 => matches!(peer, HostAddress::V4(_)),
            AddressFilter::AnyV6 => matches!(peer, HostAddress::V6(_)),
            AddressFilter::Exact(addr) => *addr == peer,
        }
    }
}

/// The user-supplied data store behind a server: every operation may refuse
/// with an exception code, which the dispatcher turns into an error frame.
pub trait RequestHandler {
    fn read_coil(&self, address: u16) -> Result<bool, ExceptionCode>;

    fn read_discrete_input(&self, address: u16) -> Result<bool, ExceptionCode>;

    fn read_holding_register(&self, address: u16) -> Result<u16, ExceptionCode>;

    fn read_input_register(&self, address: u16) -> Result<u16, ExceptionCode>;

    fn write_single_coil(&mut self, value: Indexed<bool>) -> Result<(), ExceptionCode>;

    fn write_single_register(&mut self, value: Indexed<u16>) -> Result<(), ExceptionCode>;

    fn write_multiple_coils(&mut self, start: u16, values: &Vec<bool>) -> Result<
        (),
        ExceptionCode,
    >;

    fn write_multiple_registers(&mut self, start: u16, values: &Vec<u16>) -> Result<
        (),
        ExceptionCode,
    >;

    fn process_cfc(&mut self, values: CustomFunctionCode) -> Result<
        CustomFunctionCode,
        ExceptionCode,
    >;
}

/// A decoded request PDU, ready for the dispatcher.
#[derive(Debug)]
pub enum Request {
    ReadCoils(AddressRange),
    ReadDiscreteInputs(AddressRange),
    ReadHoldingRegisters(AddressRange),
    ReadInputRegisters(AddressRange),
    WriteSingleCoil(Indexed<bool>),
    WriteSingleRegister(Indexed<u16>),
    WriteMultipleCoils(WriteMultiple<bool>),
    WriteMultipleRegisters(WriteMultiple<u16>),
    SendCustomFunctionCode(CustomFunctionCode),
}

/// A decoded success response PDU.
#[derive(Debug)]
pub enum Response {
    Bits(Vec<Indexed<bool>>),
    Registers(Vec<Indexed<u16>>),
    WriteSingleCoil(Indexed<bool>),
    WriteSingleRegister(Indexed<u16>),
    WriteMultiple(AddressRange),
    Custom(CustomFunctionCode),
}

/// Serves one decoded request against the handler: reads walk the addressed
/// range in order, writes echo what the request named, and custom codes
/// outside the user-defined ranges are refused before the handler is
/// consulted. An Err becomes an exception frame; the connection stays open.
pub fn dispatch<H: RequestHandler>(handler: &mut H, request: &Request) -> (r: Result<
    Response,
    ExceptionCode,
>)
    ensures
        match *request {
            Request::ReadCoils(range) | Request::ReadDiscreteInputs(range) => r matches Ok(resp)
                ==> (resp matches Response::Bits(v) && v@.len() == range.spec_count() && (forall|
                i: int,
            |
                0 <= i < v@.len() ==> #[trigger] v@[i].index == range.spec_start() + i)),
            Request::ReadHoldingRegisters(range) | Request::ReadInputRegisters(range) => r matches Ok(
                resp,
            ) ==> (resp matches Response::Registers(v) && v@.len() == range.spec_count() && (forall|
                i: int,
            |
                0 <= i < v@.len() ==> #[trigger] v@[i].index == range.spec_start() + i)),
            Request::WriteSingleCoil(value) => r matches Ok(resp) ==> resp
                == Response::WriteSingleCoil(value),
            Request::WriteSingleRegister(value) => r matches Ok(resp) ==> resp
                == Response::WriteSingleRegister(value),
            Request::WriteMultipleCoils(ref w) => r matches Ok(resp) ==> (
            resp matches Response::WriteMultiple(range) && range.spec_start() == w.spec_start()
                && range.spec_count() == w.spec_values().len()),
            Request::WriteMultipleRegisters(ref w) => r matches Ok(resp) ==> (
            resp matches Response::WriteMultiple(range) && range.spec_start() == w.spec_start()
                && range.spec_count() == w.spec_values().len()),
            Request::SendCustomFunctionCode(ref cfc) => (!spec_is_user_defined_code(cfc.spec_code())
                ==> r == Err::<Response, ExceptionCode>(ExceptionCode::IllegalFunction)) && (
            r matches Ok(resp) ==> resp is Custom),
        },
{
    match request {
        Request::ReadCoils(range) => {
            let mut bits: Vec<Indexed<bool>> = Vec::new();
            let start = range.start();
            let count = range.count();
            let mut i: u16 = 0;
            while i < count
                invariant
                    *request matches Request::ReadCoils(_),
                    i <= count,
                    start + count <= 0x10000,
                    bits@.len() == i,
                    forall|j: int| 0 <= j < i ==> #[trigger] bits@[j].index == start + j,
                decreases count - i,
            {
                let value = match handler.read_coil(start + i) {
                    Ok(v) => v,
                    Err(e) => {
                        return Err(e);
                    },
                };
                bits.push(Indexed::new(start + i, value));
                i = i + 1;
            }
            Ok(Response::Bits(bits))
        },
        Request::ReadDiscreteInputs(range) => {
            let mut bits: Vec<Indexed<bool>> = Vec::new();
            let start = range.start();
            let count = range.count();
            let mut i: u16 = 0;
            while i < count
                invariant
                    *request matches Request::ReadDiscreteInputs(_),
                    i <= count,
                    start + count <= 0x10000,
                    bits@.len() == i,
                    forall|j: int| 0 <= j < i ==> #[trigger] bits@[j].index == start + j,
                decreases count - i,
            {
                let value = match handler.read_discrete_input(start + i) {
                    Ok(v) => v,
                    Err(e) => {
                        return Err(e);
                    },
                };
                bits.push(Indexed::new(start + i, value));
                i = i + 1;
            }
            Ok(Response::Bits(bits))
        },
        Request::ReadHoldingRegisters(range) => {
            let mut registers: Vec<Indexed<u16>> = Vec::new();
            let start = range.start();
            let count = range.count();
            let mut i: u16 = 0;
            while i < count
                invariant
                    *request matches Request::ReadHoldingRegisters(_),
                    i <= count,
                    start + count <= 0x10000,
                    registers@.len() == i,
                    forall|j: int| 0 <= j < i ==> #[trigger] registers@[j].index == start + j,
                decreases count - i,
            {
                let value = match handler.read_holding_register(start + i) {
                    Ok(v) => v,
                    Err(e) => {
                        return Err(e);
                    },
                };
                registers.push(Indexed::new(start + i, value));
                i = i + 1;
            }
            Ok(Response::Registers(registers))
        },
        Request::ReadInputRegisters(range) => {
            let mut registers: Vec<Indexed<u16>> = Vec::new();
            let start = range.start();
            let count = range.count();
            let mut i: u16 = 0;
            while i < count
                invariant
                    *request matches Request::ReadInputRegisters(_),
                    i <= count,
                    start + count <= 0x10000,
                    registers@.len() == i,
                    forall|j: int| 0 <= j < i ==> #[trigger] registers@[j].index == start + j,
                decreases count - i,
            {
                let value = match handler.read_input_register(start + i) {
                    Ok(v) => v,
                    Err(e) => {
                        return Err(e);
                    },
                };
                registers.push(Indexed::new(start + i, value));
                i = i + 1;
            }
            Ok(Response::Registers(registers))
        },
        Request::WriteSingleCoil(value) => {
            match handler.write_single_coil(*value) {
                Ok(_) => Ok(Response::WriteSingleCoil(*value)),
                Err(e) => Err(e),
            }
        },
        Request::WriteSingleRegister(value) => {
            match handler.write_single_register(*value) {
                Ok(_) => Ok(Response::WriteSingleRegister(*value)),
                Err(e) => Err(e),
            }
        },
        Request::WriteMultipleCoils(w) => {
            match handler.write_multiple_coils(w.start(), w.values()) {
                Ok(_) => Ok(Response::WriteMultiple(w.range())),
                Err(e) => Err(e),
            }
        },
        Request::WriteMultipleRegisters(w) => {
            match handler.write_multiple_registers(w.start(), w.values()) {
                Ok(_) => Ok(Response::WriteMultiple(w.range())),
                Err(e) => Err(e),
            }
        },
        Request::SendCustomFunctionCode(cfc) => {
            if !is_user_defined_code(cfc.function_code()) {
                return Err(ExceptionCode::IllegalFunction);
            }
            match handler.process_cfc(cfc.clone()) {
                Ok(response) => Ok(Response::Custom(response)),
                Err(e) => Err(e),
            }
        },
    }
}

/// Whether a request PDU is complete and well formed for its function code:
/// a served code must carry exactly its body, a user-defined code exactly
/// the words it announces, and a code outside the routed set is answered
/// whatever follows it.
pub open spec fn spec_request_pdu_well_formed(pdu: Seq<u8>) -> bool {
    pdu.len() >= 1 && {
        let body = pdu.skip(1);
        let code = pdu[0];
        if code == 1 || code == 2 || code == 3 || code == 4 {
            <AddressRange as ParseRequest>::parse_spec(body) matches Ok((v, n)) && n == body.len()
        } else if code == 5 {
            <Indexed<bool> as ParseRequest>::parse_spec(body) matches Ok((v, n)) && n == body.len()
        } else if code == 6 {
            <Indexed<u16> as ParseRequest>::parse_spec(body) matches Ok((v, n)) && n == body.len()
        } else if code == 15 {
            <WriteMultiple<bool> as ParseRequest>::parse_spec(body) matches Ok((v, n)) && n
                == body.len()
        } else if code == 16 {
            <WriteMultiple<u16> as ParseRequest>::parse_spec(body) matches Ok((v, n)) && n
                == body.len()
        } else if spec_is_user_defined_code(code) {
            body.len() >= 1 && body.len() == 2 + 2 * (body[0] as int)
        } else {
            true
        }
    }
}

/// Serves one request PDU at the byte level: the function code byte selects
/// a body decoder, the handler answers under the dispatcher's contract, and
/// the reply is a success PDU or an exception frame. A response comes back
/// exactly for the well-formed PDUs; a malformed one is an Err, on which
/// the connection closes. A code outside the routed set is answered with an
/// IllegalFunction frame, a read count beyond its bound with an
/// IllegalDataValue frame, and the connection stays open for both.
pub fn handle_request_pdu<H: RequestHandler>(handler: &mut H, pdu: &[u8]) -> (r: Result<
    Vec<u8>,
    RequestError,
>)
    ensures
        pdu@.len() == 0 ==> r == Err::<Vec<u8>, RequestError>(
            RequestError::Internal(InternalError::InsufficientBytes),
        ),
        r is Ok <==> spec_request_pdu_well_formed(pdu@),
        pdu@.len() >= 1 && !spec_is_served_code(pdu@[0]) && !spec_is_user_defined_code(pdu@[0])
            ==> (r matches Ok(resp) && resp@ =~= seq![(pdu@[0] | 0x80) as u8, 1u8]),
        r matches Ok(resp) ==> resp@.len() >= 1 && (resp@[0] == pdu@[0] || resp@[0] == (pdu@[0]
            | 0x80) as u8),
        r matches Ok(resp) ==> ((pdu@.len() >= 1 && resp@[0] == (pdu@[0] | 0x80) as u8)
            ==> resp@.len() == 2),
        r matches Ok(resp) ==> ((pdu@.len() >= 1 && (pdu@[0] == 5 || pdu@[0] == 6) && resp@[0]
            == pdu@[0]) ==> resp@ == pdu@),
        r matches Ok(resp) ==> ((pdu@.len() == 5 && (pdu@[0] == 1 || pdu@[0] == 2) && resp@[0]
            == pdu@[0]) ==> resp@.len() == 2 + (spec_u16_from_bytes(pdu@[3], pdu@[4]) + 7) / 8
            && resp@[1] as int == (spec_u16_from_bytes(pdu@[3], pdu@[4]) + 7) / 8),
        r matches Ok(resp) ==> ((pdu@.len() == 5 && (pdu@[0] == 3 || pdu@[0] == 4) && resp@[0]
            == pdu@[0]) ==> resp@.len() == 2 + 2 * spec_u16_from_bytes(pdu@[3], pdu@[4])
            && resp@[1] as int == 2 * spec_u16_from_bytes(pdu@[3], pdu@[4])),
        r matches Ok(resp) ==> ((pdu@.len() >= 5 && (pdu@[0] == 15 || pdu@[0] == 16) && resp@[0]
            == pdu@[0]) ==> resp@ == pdu@.take(5)),
        spec_request_pdu_well_formed(pdu@) && pdu@.len() == 5 && (pdu@[0] == 1 || pdu@[0] == 2)
            && spec_u16_from_bytes(pdu@[3], pdu@[4]) > 2000 ==> (r matches Ok(resp) && resp@ =~=
        seq![(pdu@[0] | 0x80) as u8, 3u8]),
        spec_request_pdu_well_formed(pdu@) && pdu@.len() == 5 && (pdu@[0] == 3 || pdu@[0] == 4)
            && spec_u16_from_bytes(pdu@[3], pdu@[4]) > 125 ==> (r matches Ok(resp) && resp@ =~=
        seq![(pdu@[0] | 0x80) as u8, 3u8]),
{
    let mut cursor = scursor::ReadCursor::new(pdu);
    let function = match cursor.read_u8() {
        Ok(v) => v,
        Err(_) => {
            return Err(RequestError::Internal(InternalError::InsufficientBytes));
        },
    };
    proof {
        assert(function < 0x80 ==> function != (function | 0x80) as u8) by (bit_vector);
        assert(rc_rem(cursor) =~= pdu@.skip(1));
    }
    if function == 1 || function == 2 {
        let range = match <AddressRange as ParseRequest>::parse(&mut cursor) {
            Ok(v) => v,
            Err(e) => {
                return Err(e);
            },
        };
        if !cursor.is_empty() {
            return Err(RequestError::Internal(InternalError::TrailingBytes(cursor.remaining())));
        }
        proof {
            assert(pdu@.len() == 5);
            assert(range.spec_count() == spec_u16_from_bytes(pdu@[3], pdu@[4]));
        }
        if range.count() > 2000 {
            return Ok(exception_pdu(function, ExceptionCode::IllegalDataValue));
        }
        let request = if function == 1 {
            Request::ReadCoils(range)
        } else {
            Request::ReadDiscreteInputs(range)
        };
        match dispatch(handler, &request) {
            Ok(response) => {
                let bits = match response {
                    Response::Bits(v) => v,
                    _ => vstd::pervasive::unreached(),
                };
                let mut flags: Vec<bool> = Vec::new();
                let mut i: usize = 0;
                while i < bits.len()
                    invariant
                        i <= bits@.len(),
                        bits@.len() <= 2000,
                        flags@.len() == i,
                    decreases bits@.len() - i,
                {
                    flags.push(bits[i].value);
                    i = i + 1;
                }
                let packed = crate::bits::encode_bits(&flags);
                let mut resp: Vec<u8> = Vec::new();
                resp.push(function);
                resp.push(packed.len() as u8);
                let mut j: usize = 0;
                while j < packed.len()
                    invariant
                        j <= packed@.len(),
                        packed@.len() <= 250,
                        resp@.len() == 2 + j,
                        resp@[0] == function,
                        resp@[1] as int == packed@.len(),
                    decreases packed@.len() - j,
                {
                    resp.push(packed[j]);
                    j = j + 1;
                }
                Ok(resp)
            },
            Err(code) => Ok(exception_pdu(function, code)),
        }
    } else if function == 3 || function == 4 {
        let range = match <AddressRange as ParseRequest>::parse(&mut cursor) {
            Ok(v) => v,
            Err(e) => {
                return Err(e);
            },
        };
        if !cursor.is_empty() {
            return Err(RequestError::Internal(InternalError::TrailingBytes(cursor.remaining())));
        }
        proof {
            assert(pdu@.len() == 5);
            assert(range.spec_count() == spec_u16_from_bytes(pdu@[3], pdu@[4]));
        }
        if range.count() > 125 {
            return Ok(exception_pdu(function, ExceptionCode::IllegalDataValue));
        }
        let request = if function == 3 {
            Request::ReadHoldingRegisters(range)
        } else {
            Request::ReadInputRegisters(range)
        };
        match dispatch(handler, &request) {
            Ok(response) => {
                let registers = match response {
                    Response::Registers(v) => v,
                    _ => vstd::pervasive::unreached(),
                };
                let mut resp: Vec<u8> = Vec::new();
                resp.push(function);
                resp.push((2 * (registers.len() as u32)) as u8);
                let mut i: usize = 0;
                while i < registers.len()
                    invariant
                        i <= registers@.len(),
                        registers@.len() <= 125,
                        resp@.len() == 2 + 2 * i,
                        resp@[0] == function,
                        resp@[1] as int == 2 * registers@.len(),
                    decreases registers@.len() - i,
                {
                    let value = registers[i].value;
                    resp.push((value / 0x100) as u8);
                    resp.push((value % 0x100) as u8);
                    i = i + 1;
                }
                Ok(resp)
            },
            Err(code) => Ok(exception_pdu(function, code)),
        }
    } else if function == 5 || function == 6 {
        if function == 5 {
            let value = match <Indexed<bool> as ParseRequest>::parse(&mut cursor) {
                Ok(v) => v,
                Err(e) => {
                    return Err(e);
                },
            };
            if !cursor.is_empty() {
                return Err(
                    RequestError::Internal(InternalError::TrailingBytes(cursor.remaining())),
                );
            }
            match dispatch(handler, &Request::WriteSingleCoil(value)) {
                Ok(_) => {
                    let mut resp: Vec<u8> = Vec::new();
                    resp.push(function);
                    resp.push((value.index / 0x100) as u8);
                    resp.push((value.index % 0x100) as u8);
                    let word = crate::types::coil_to_u16(value.value);
                    resp.push((word / 0x100) as u8);
                    resp.push((word % 0x100) as u8);
                    proof {
                        crate::cursor::lemma_u16_be_roundtrip(0, pdu@[1], pdu@[2]);
                        crate::cursor::lemma_u16_be_roundtrip(0, pdu@[3], pdu@[4]);
                        assert(resp@ =~= pdu@);
                    }
                    Ok(resp)
                },
                Err(code) => Ok(exception_pdu(function, code)),
            }
        } else {
            let value = match <Indexed<u16> as ParseRequest>::parse(&mut cursor) {
                Ok(v) => v,
                Err(e) => {
                    return Err(e);
                },
            };
            if !cursor.is_empty() {
                return Err(
                    RequestError::Internal(InternalError::TrailingBytes(cursor.remaining())),
                );
            }
            match dispatch(handler, &Request::WriteSingleRegister(value)) {
                Ok(_) => {
                    let mut resp: Vec<u8> = Vec::new();
                    resp.push(function);
                    resp.push((value.index / 0x100) as u8);
                    resp.push((value.index % 0x100) as u8);
                    resp.push((value.value / 0x100) as u8);
                    resp.push((value.value % 0x100) as u8);
                    proof {
                        crate::cursor::lemma_u16_be_roundtrip(0, pdu@[1], pdu@[2]);
                        crate::cursor::lemma_u16_be_roundtrip(0, pdu@[3], pdu@[4]);
                        assert(resp@ =~= pdu@);
                    }
                    Ok(resp)
                },
                Err(code) => Ok(exception_pdu(function, code)),
            }
        }
    } else if function == 15 || function == 16 {
        let (start, count) = if function == 15 {
            let w = match <WriteMultiple<bool> as ParseRequest>::parse(&mut cursor) {
                Ok(v) => v,
                Err(e) => {
                    return Err(e);
                },
            };
            if !cursor.is_empty() {
                return Err(
                    RequestError::Internal(InternalError::TrailingBytes(cursor.remaining())),
                );
            }
            let start = w.start();
            let count = w.values().len() as u16;
            proof {
                assert(pdu@.len() >= 5);
                assert(start == spec_u16_from_bytes(pdu@[1], pdu@[2]));
                assert(count == spec_u16_from_bytes(pdu@[3], pdu@[4]));
            }
            match dispatch(handler, &Request::WriteMultipleCoils(w)) {
                Ok(_) => (start, count),
                Err(code) => {
                    return Ok(exception_pdu(function, code));
                },
            }
        } else {
            let w = match <WriteMultiple<u16> as ParseRequest>::parse(&mut cursor) {
                Ok(v) => v,
                Err(e) => {
                    return Err(e);
                },
            };
            if !cursor.is_empty() {
                return Err(
                    RequestError::Internal(InternalError::TrailingBytes(cursor.remaining())),
                );
            }
            let start = w.start();
            let count = w.values().len() as u16;
            proof {
                assert(pdu@.len() >= 5);
                assert(start == spec_u16_from_bytes(pdu@[1], pdu@[2]));
                assert(count == spec_u16_from_bytes(pdu@[3], pdu@[4]));
            }
            match dispatch(handler, &Request::WriteMultipleRegisters(w)) {
                Ok(_) => (start, count),
                Err(code) => {
                    return Ok(exception_pdu(function, code));
                },
            }
        };
        let mut resp: Vec<u8> = Vec::new();
        resp.push(function);
        resp.push((start / 0x100) as u8);
        resp.push((start % 0x100) as u8);
        resp.push((count / 0x100) as u8);
        resp.push((count % 0x100) as u8);
        proof {
            crate::cursor::lemma_u16_be_roundtrip(0, pdu@[1], pdu@[2]);
            crate::cursor::lemma_u16_be_roundtrip(0, pdu@[3], pdu@[4]);
            assert(resp@ =~= pdu@.take(5));
        }
        Ok(resp)
    } else if is_user_defined_code(function) {
        let byte_count_in = match cursor.read_u8() {
            Ok(v) => v,
            Err(_) => {
                return Err(RequestError::Internal(InternalError::InsufficientBytes));
            },
        };
        let byte_count_out = match cursor.read_u8() {
            Ok(v) => v,
            Err(_) => {
                return Err(RequestError::Internal(InternalError::InsufficientBytes));
            },
        };
        proof {
            assert(rc_rem(cursor) =~= pdu@.skip(3));
        }
        let mut data: Vec<u16> = Vec::new();
        let mut i: u8 = 0;
        while i < byte_count_in
            invariant
                i <= byte_count_in,
                pdu@.len() >= 3 + 2 * i,
                function == pdu@[0],
                spec_is_user_defined_code(function),
                pdu@[1] == byte_count_in,
                rc_rem(cursor) == pdu@.skip(3 + 2 * i),
                data@.len() == i,
            decreases byte_count_in - i,
        {
            let word = match cursor.read_u16_be() {
                Ok(v) => v,
                Err(_) => {
                    proof {
                        assert(pdu@.skip(3 + 2 * (i as int)).len() == pdu@.len() - 3 - 2 * (
                        i as int));
                        assert(pdu@.len() < 3 + 2 * (byte_count_in as int));
                    }
                    return Err(RequestError::Internal(InternalError::InsufficientBytes));
                },
            };
            data.push(word);
            proof {
                assert(rc_rem(cursor) =~= pdu@.skip(3 + 2 * (i + 1)));
            }
            i = i + 1;
        }
        if !cursor.is_empty() {
            return Err(RequestError::Internal(InternalError::TrailingBytes(cursor.remaining())));
        }
        proof {
            assert(pdu@.len() == 3 + 2 * (byte_count_in as int));
        }
        let cfc = CustomFunctionCode::new(function, byte_count_in, byte_count_out, data);
        match dispatch(handler, &Request::SendCustomFunctionCode(cfc)) {
            Ok(response) => {
                let echoed = match response {
                    Response::Custom(c) => c,
                    _ => vstd::pervasive::unreached(),
                };
                let mut resp: Vec<u8> = Vec::new();
                resp.push(function);
                resp.push(echoed.byte_count_in());
                resp.push(echoed.byte_count_out());
                let values = echoed.values();
                let mut i: usize = 0;
                while i < values.len()
                    invariant
                        i <= values@.len(),
                        resp@.len() == 3 + 2 * i,
                        resp@[0] == function,
                    decreases values@.len() - i,
                {
                    let value = values[i];
                    resp.push((value / 0x100) as u8);
                    resp.push((value % 0x100) as u8);
                    i = i + 1;
                }
                Ok(resp)
            },
            Err(code) => Ok(exception_pdu(function, code)),
        }
    } else {
        Ok(exception_pdu(function, ExceptionCode::IllegalFunction))
    }
}

/// The two-byte error frame for a function code: its error form, then the
/// exception code.
fn exception_pdu(function: u8, code: ExceptionCode) -> (r: Vec<u8>)
    ensures
        r@ =~= seq![(function | 0x80) as u8, code.spec_value()],
{
    let mut resp: Vec<u8> = Vec::new();
    resp.push(function | 0x80);
    resp.push(code.get_value());
    resp
}

} // verus!

