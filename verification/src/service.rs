use vstd::prelude::*;

use crate::cursor::rc_rem;
use crate::error::{BadResponseError, ExceptionCode, InternalError, RequestError};
use crate::function::FunctionCode;
use crate::traits::{ParseRequest, ParseResponse, Serialize};
use crate::coils::BitResults;
use crate::registers::RegisterResults;
use crate::types::{AddressRange, Indexed, U16Vec, WriteMultiple};

verus! {

/// The bit set on a request's function code to form its error response code.
pub const ERROR_DELIMITER: u8 = 0x80;

/// One request/response pair of the catalogue: the function code, the body
/// types, and the validity check applied before a request is sent.
pub trait Service {
    /// The type used in the client API for requests.
    type ClientRequest: Serialize + ParseRequest;

    /// The type used in the client API for responses.
    type ClientResponse: ParseResponse<Self::ClientRequest>;

    /// The function code of this service's requests.
    spec fn spec_function() -> FunctionCode;

    /// The outcome of the validity check on a client request.
    spec fn spec_check(request: Self::ClientRequest) -> Result<(), RequestError>;

    fn request_function_code() -> (r: FunctionCode)
        ensures
            r == Self::spec_function(),
    ;

    /// Checks the validity of a request before it is queued.
    fn check_request_validity(request: &Self::ClientRequest) -> (r: Result<(), RequestError>)
        ensures
            r == Self::spec_check(*request),
    ;
}

/// The parse of a whole response PDU for a service: the leading function byte
/// selects the success body, the exception frame, or rejection; a complete
/// parse must consume every byte.
pub open spec fn spec_parse_response<S: Service>(
    bytes: Seq<u8>,
    request: S::ClientRequest,
) -> Result<<S::ClientResponse as View>::V, RequestError> {
    if bytes.len() < 1 {
        Err(RequestError::Internal(InternalError::InsufficientBytes))
    } else {
        let expected = S::spec_function().spec_value();
        if bytes[0] == expected {
            match <S::ClientResponse as ParseResponse<S::ClientRequest>>::response_spec(
                bytes.skip(1),
                request,
            ) {
                Ok((v, n)) => if n == bytes.len() - 1 {
                    Ok(v)
                } else {
                    Err(
                        RequestError::Internal(
                            InternalError::TrailingBytes((bytes.len() - 1 - n) as usize),
                        ),
                    )
                },
                Err(e) => Err(e),
            }
        } else if bytes[0] == expected | ERROR_DELIMITER {
            if bytes.len() < 2 {
                Err(RequestError::Internal(InternalError::InsufficientBytes))
            } else if bytes.len() > 2 {
                Err(RequestError::Internal(InternalError::TrailingBytes((bytes.len() - 2) as usize)))
            } else {
                Err(RequestError::Exception(ExceptionCode::spec_from_u8(bytes[1])))
            }
        } else {
            Err(
                RequestError::BadResponse(
                    BadResponseError::UnknownResponseFunction(
                        bytes[0],
                        expected,
                        expected | ERROR_DELIMITER,
                    ),
                ),
            )
        }
    }
}

/// Parses a response PDU for a service: the expected function code takes the
/// body parser, its error form takes the one-byte exception code, and any
/// other leading byte is rejected. A successful parse consumes the whole
/// PDU: the cursor ends empty.
pub fn parse_response<S: Service>(
    cursor: &mut scursor::ReadCursor,
    request: &S::ClientRequest,
) -> (r: Result<S::ClientResponse, RequestError>)
    ensures
        match spec_parse_response::<S>(rc_rem(*old(cursor)), *request) {
            Ok(v) => r matches Ok(got) && got@ == v && rc_rem(*final(cursor)).len() == 0,
            Err(e) => r matches Err(got) && got == e,
        },
{
    let function = match cursor.read_u8() {
        Ok(v) => v,
        Err(_) => {
            return Err(RequestError::Internal(InternalError::InsufficientBytes));
        },
    };
    let expected = S::request_function_code().get_value();
    if function == expected {
        let response = match S::ClientResponse::parse(cursor, request) {
            Ok(v) => v,
            Err(e) => {
                return Err(e);
            },
        };
        if !cursor.is_empty() {
            return Err(RequestError::Internal(InternalError::TrailingBytes(cursor.remaining())));
        }
        Ok(response)
    } else if function == expected | ERROR_DELIMITER {
        let code = match cursor.read_u8() {
            Ok(v) => v,
            Err(_) => {
                return Err(RequestError::Internal(InternalError::InsufficientBytes));
            },
        };
        if !cursor.is_empty() {
            return Err(RequestError::Internal(InternalError::TrailingBytes(cursor.remaining())));
        }
        Err(RequestError::Exception(ExceptionCode::from_u8(code)))
    } else {
        Err(
            RequestError::BadResponse(
                BadResponseError::UnknownResponseFunction(
                    function,
                    expected,
                    expected | ERROR_DELIMITER,
                ),
            ),
        )
    }
}

/// Serializes a whole request PDU into a scratch ADU buffer: the function
/// code byte, then the body; fails with InsufficientSpace exactly when the
/// body cannot fit a maximum-size PDU.
pub fn serialize_request_pdu<S: Service>(request: &S::ClientRequest) -> (r: Result<
    Vec<u8>,
    RequestError,
>)
    requires
        request.encodable(),
    ensures
        request.encoding().len() <= 252 ==> (r matches Ok(pdu) && pdu@ == seq![
            S::spec_function().spec_value(),
        ] + request.encoding()),
        request.encoding().len() > 252 ==> r == Err::<Vec<u8>, RequestError>(
            RequestError::Internal(InternalError::InsufficientSpace),
        ),
{
    let mut scratch: Vec<u8> = Vec::new();
    let mut i: usize = 0;
    while i < 253
        invariant
            scratch@.len() == i,
            i <= 253,
        decreases 253 - i,
    {
        scratch.push(0);
        i = i + 1;
    }
    let mut cursor = scursor::WriteCursor::new(scratch.as_mut_slice());
    match cursor.write_u8(S::request_function_code().get_value()) {
        Ok(_) => {},
        Err(_) => {
            return Err(RequestError::Internal(InternalError::InsufficientSpace));
        },
    }
    match request.serialize(&mut cursor) {
        Ok(_) => {},
        Err(e) => {
            return Err(e);
        },
    }
    let pdu = crate::cursor::written_to_vec(&cursor);
    Ok(pdu)
}

/// Law: for a service with function code f, the exact two-byte PDU holding
/// f's error form and an exception code parses to that exception.
pub proof fn lemma_exception_mapping<S: Service>(code: u8, request: S::ClientRequest)
    ensures
        spec_parse_response::<S>(
            seq![S::spec_function().spec_value() | ERROR_DELIMITER, code],
            request,
        ) == Err::<<S::ClientResponse as View>::V, RequestError>(
            RequestError::Exception(ExceptionCode::spec_from_u8(code)),
        ),
{
    let f = S::spec_function().spec_value();
    assert(f <= 24);
    assert(f != f | 0x80u8) by (bit_vector)
        requires
            f <= 24,
    ;
}

/// Polices a single-coil write echo: the response must repeat the request
/// exactly, else the session reports an EchoMismatch.
pub fn check_coil_echo(request: &Indexed<bool>, response: &Indexed<bool>) -> (r: Result<
    (),
    RequestError,
>)
    ensures
        r == if *request == *response {
            Ok::<(), RequestError>(())
        } else {
            Err::<(), RequestError>(RequestError::BadResponse(BadResponseError::EchoMismatch))
        },
{
    if request.index == response.index && request.value == response.value {
        Ok(())
    } else {
        Err(RequestError::BadResponse(BadResponseError::EchoMismatch))
    }
}

/// Polices a single-register write echo: the response must repeat the
/// request exactly, else the session reports an EchoMismatch.
pub fn check_register_echo(request: &Indexed<u16>, response: &Indexed<u16>) -> (r: Result<
    (),
    RequestError,
>)
    ensures
        r == if *request == *response {
            Ok::<(), RequestError>(())
        } else {
            Err::<(), RequestError>(RequestError::BadResponse(BadResponseError::EchoMismatch))
        },
{
    if request.index == response.index && request.value == response.value {
        Ok(())
    } else {
        Err(RequestError::BadResponse(BadResponseError::EchoMismatch))
    }
}

/// Polices a multiple-write echo: the response must name the written range,
/// else the session reports an EchoMismatch.
pub fn check_range_echo(start: u16, count: u16, echo: &AddressRange) -> (r: Result<
    (),
    RequestError,
>)
    ensures
        r == if echo.spec_start() == start && echo.spec_count() == count {
            Ok::<(), RequestError>(())
        } else {
            Err::<(), RequestError>(RequestError::BadResponse(BadResponseError::EchoMismatch))
        },
{
    if echo.start() == start && echo.count() == count {
        Ok(())
    } else {
        Err(RequestError::BadResponse(BadResponseError::EchoMismatch))
    }
}

/// Writes one coil on the server and expects the request echoed back.
pub struct WriteSingleCoil;

impl Service for WriteSingleCoil {
    type ClientRequest = Indexed<bool>;

    type ClientResponse = Indexed<bool>;

    open spec fn spec_function() -> FunctionCode {
        FunctionCode::WriteSingleCoil
    }

    open spec fn spec_check(request: Indexed<bool>) -> Result<(), RequestError> {
        Ok(())
    }

    fn request_function_code() -> (r: FunctionCode) {
        FunctionCode::WriteSingleCoil
    }

    fn check_request_validity(request: &Indexed<bool>) -> (r: Result<(), RequestError>) {
        Ok(())
    }
}

/// Writes one holding register on the server and expects the request echoed
/// back.
pub struct WriteSingleRegister;

impl Service for WriteSingleRegister {
    type ClientRequest = Indexed<u16>;

    type ClientResponse = Indexed<u16>;

    open spec fn spec_function() -> FunctionCode {
        FunctionCode::WriteSingleRegister
    }

    open spec fn spec_check(request: Indexed<u16>) -> Result<(), RequestError> {
        Ok(())
    }

    fn request_function_code() -> (r: FunctionCode) {
        FunctionCode::WriteSingleRegister
    }

    fn check_request_validity(request: &Indexed<u16>) -> (r: Result<(), RequestError>) {
        Ok(())
    }
}

/// Reads a range of coils; at most 2000 per request.
pub struct ReadCoils;

impl Service for ReadCoils {
    type ClientRequest = AddressRange;

    type ClientResponse = BitResults;

    open spec fn spec_function() -> FunctionCode {
        FunctionCode::ReadCoils
    }

    open spec fn spec_check(request: AddressRange) -> Result<(), RequestError> {
        if request.spec_count() <= 2000 {
            Ok(())
        } else {
            Err(RequestError::BadRequest(crate::error::BadRequestError::CountTooBigForType))
        }
    }

    fn request_function_code() -> (r: FunctionCode) {
        FunctionCode::ReadCoils
    }

    fn check_request_validity(request: &AddressRange) -> (r: Result<(), RequestError>) {
        if request.count() <= 2000 {
            Ok(())
        } else {
            Err(RequestError::BadRequest(crate::error::BadRequestError::CountTooBigForType))
        }
    }
}

/// Reads a range of discrete inputs; at most 2000 per request.
pub struct ReadDiscreteInputs;

impl Service for ReadDiscreteInputs {
    type ClientRequest = AddressRange;

    type ClientResponse = BitResults;

    open spec fn spec_function() -> FunctionCode {
        FunctionCode::ReadDiscreteInputs
    }

    open spec fn spec_check(request: AddressRange) -> Result<(), RequestError> {
        if request.spec_count() <= 2000 {
            Ok(())
        } else {
            Err(RequestError::BadRequest(crate::error::BadRequestError::CountTooBigForType))
        }
    }

    fn request_function_code() -> (r: FunctionCode) {
        FunctionCode::ReadDiscreteInputs
    }

    fn check_request_validity(request: &AddressRange) -> (r: Result<(), RequestError>) {
        if request.count() <= 2000 {
            Ok(())
        } else {
            Err(RequestError::BadRequest(crate::error::BadRequestError::CountTooBigForType))
        }
    }
}

/// Writes a range of coils and expects the range echoed back; the size
/// bound is enforced when the request value is built.
pub struct WriteMultipleCoils;

impl Service for WriteMultipleCoils {
    type ClientRequest = WriteMultiple<bool>;

    type ClientResponse = AddressRange;

    open spec fn spec_function() -> FunctionCode {
        FunctionCode::WriteMultipleCoils
    }

    open spec fn spec_check(request: WriteMultiple<bool>) -> Result<(), RequestError> {
        Ok(())
    }

    fn request_function_code() -> (r: FunctionCode) {
        FunctionCode::WriteMultipleCoils
    }

    fn check_request_validity(request: &WriteMultiple<bool>) -> (r: Result<(), RequestError>) {
        Ok(())
    }
}

/// Reads a range of holding registers; at most 125 per request.
pub struct ReadHoldingRegisters;

impl Service for ReadHoldingRegisters {
    type ClientRequest = AddressRange;

    type ClientResponse = RegisterResults;

    open spec fn spec_function() -> FunctionCode {
        FunctionCode::ReadHoldingRegisters
    }

    open spec fn spec_check(request: AddressRange) -> Result<(), RequestError> {
        if request.spec_count() <= 125 {
            Ok(())
        } else {
            Err(RequestError::BadRequest(crate::error::BadRequestError::CountTooBigForType))
        }
    }

    fn request_function_code() -> (r: FunctionCode) {
        FunctionCode::ReadHoldingRegisters
    }

    fn check_request_validity(request: &AddressRange) -> (r: Result<(), RequestError>) {
        if request.count() <= 125 {
            Ok(())
        } else {
            Err(RequestError::BadRequest(crate::error::BadRequestError::CountTooBigForType))
        }
    }
}

/// Reads a range of input registers; at most 125 per request.
pub struct ReadInputRegisters;

impl Service for ReadInputRegisters {
    type ClientRequest = AddressRange;

    type ClientResponse = RegisterResults;

    open spec fn spec_function() -> FunctionCode {
        FunctionCode::ReadInputRegisters
    }

    open spec fn spec_check(request: AddressRange) -> Result<(), RequestError> {
        if request.spec_count() <= 125 {
            Ok(())
        } else {
            Err(RequestError::BadRequest(crate::error::BadRequestError::CountTooBigForType))
        }
    }

    fn request_function_code() -> (r: FunctionCode) {
        FunctionCode::ReadInputRegisters
    }

    fn check_request_validity(request: &AddressRange) -> (r: Result<(), RequestError>) {
        if request.count() <= 125 {
            Ok(())
        } else {
            Err(RequestError::BadRequest(crate::error::BadRequestError::CountTooBigForType))
        }
    }
}

/// Writes a range of holding registers and expects the range echoed back;
/// the size bound is enforced when the request value is built.
pub struct WriteMultipleRegisters;

impl Service for WriteMultipleRegisters {
    type ClientRequest = WriteMultiple<u16>;

    type ClientResponse = AddressRange;

    open spec fn spec_function() -> FunctionCode {
        FunctionCode::WriteMultipleRegisters
    }

    open spec fn spec_check(request: WriteMultiple<u16>) -> Result<(), RequestError> {
        Ok(())
    }

    fn request_function_code() -> (r: FunctionCode) {
        FunctionCode::WriteMultipleRegisters
    }

    fn check_request_validity(request: &WriteMultiple<u16>) -> (r: Result<(), RequestError>) {
        Ok(())
    }
}

} // verus!
