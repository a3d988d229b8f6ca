use rodbus::{
    coil_from_u16, coil_to_u16, AddressRange, BadRequestError, BadResponseError, ExceptionCode,
    Indexed, InternalError, ParseRequest, Promise, RequestError, SendBuffer, U16Vec, WriteMultiple,
};
use rodbus::service::{
    check_coil_echo, check_range_echo, check_register_echo, parse_response, serialize_request_pdu,
    WriteSingleCoil, WriteSingleRegister,
};

fn serialize_to_bytes<T: rodbus::Serialize + ParseRequest>(buffer: &SendBuffer<T>) -> Vec<u8> {
    let mut scratch = vec![0u8; 260];
    let mut cursor = scursor::WriteCursor::new(&mut scratch);
    buffer.serialize(&mut cursor).unwrap();
    cursor.written().to_vec()
}

#[test]
fn coil_words_are_ff00_or_0000() {
    assert_eq!(coil_to_u16(true), 0xFF00);
    assert_eq!(coil_to_u16(false), 0x0000);
    assert_eq!(coil_from_u16(0xFF00), Ok(true));
    assert_eq!(coil_from_u16(0x0000), Ok(false));
    assert_eq!(
        coil_from_u16(0x0001),
        Err(RequestError::Internal(InternalError::InvalidCoilValue))
    );
    assert_eq!(
        coil_from_u16(0xFF01),
        Err(RequestError::Internal(InternalError::InvalidCoilValue))
    );
}

#[test]
fn address_range_factory_rejects_invalid_ranges() {
    assert_eq!(
        AddressRange::try_from(0, 0),
        Err(RequestError::BadRequest(BadRequestError::InvalidRange))
    );
    assert_eq!(
        AddressRange::try_from(0xFFFF, 2),
        Err(RequestError::BadRequest(BadRequestError::InvalidRange))
    );
    assert_eq!(
        AddressRange::try_from(2, 0xFFFF),
        Err(RequestError::BadRequest(BadRequestError::InvalidRange))
    );
    let range = AddressRange::try_from(1, 0xFFFF).unwrap();
    assert_eq!(range.start(), 1);
    assert_eq!(range.count(), 0xFFFF);
    let range = AddressRange::try_from(7, 3).unwrap();
    assert_eq!(range.start(), 7);
    assert_eq!(range.count(), 3);
}

#[test]
fn write_multiple_coils_rejects_more_than_2000() {
    assert!(matches!(
        WriteMultiple::<bool>::from(0, vec![false; 2001]),
        Err(RequestError::BadRequest(BadRequestError::CountTooBigForType))
    ));
    let w = WriteMultiple::<bool>::from(0, vec![false; 2000]).unwrap();
    assert_eq!(w.start(), 0);
    assert_eq!(w.values().len(), 2000);
    assert!(matches!(
        WriteMultiple::<bool>::from(0, Vec::new()),
        Err(RequestError::BadRequest(BadRequestError::InvalidRange))
    ));
    assert!(matches!(
        WriteMultiple::<bool>::from(0xFFFF, vec![false; 2]),
        Err(RequestError::BadRequest(BadRequestError::InvalidRange))
    ));
}

#[test]
fn write_multiple_registers_rejects_more_than_123() {
    assert!(matches!(
        WriteMultiple::<u16>::from(0, vec![0; 124]),
        Err(RequestError::BadRequest(BadRequestError::CountTooBigForType))
    ));
    let w = WriteMultiple::<u16>::from(10, vec![0xABCD; 123]).unwrap();
    assert_eq!(w.start(), 10);
    assert_eq!(w.values().len(), 123);
    assert!(matches!(
        WriteMultiple::<u16>::from(3, Vec::new()),
        Err(RequestError::BadRequest(BadRequestError::InvalidRange))
    ));
}

#[test]
fn indexed_bool_round_trips_on_the_wire() {
    let buffer = SendBuffer::new(Indexed::new(7, true), Promise::new());
    let bytes = serialize_to_bytes(&buffer);
    assert_eq!(bytes, vec![0x00, 0x07, 0xFF, 0x00]);
    let parsed = buffer.parse_all(scursor::ReadCursor::new(&bytes)).unwrap();
    assert_eq!(parsed, Indexed::new(7, true));

    let buffer = SendBuffer::new(Indexed::new(0x0102, false), Promise::new());
    let bytes = serialize_to_bytes(&buffer);
    assert_eq!(bytes, vec![0x01, 0x02, 0x00, 0x00]);
    let parsed = buffer.parse_all(scursor::ReadCursor::new(&bytes)).unwrap();
    assert_eq!(parsed, Indexed::new(0x0102, false));
}

#[test]
fn indexed_u16_round_trips_on_the_wire() {
    let buffer = SendBuffer::new(Indexed::new(0xCAFE, 0xC0DE), Promise::new());
    let bytes = serialize_to_bytes(&buffer);
    assert_eq!(bytes, vec![0xCA, 0xFE, 0xC0, 0xDE]);
    let parsed = buffer.parse_all(scursor::ReadCursor::new(&bytes)).unwrap();
    assert_eq!(parsed, Indexed::new(0xCAFE, 0xC0DE));
}

#[test]
fn u16_vec_round_trips_on_the_wire() {
    let buffer = SendBuffer::new(U16Vec::new(vec![0xC0DE, 0xCAFE]), Promise::new());
    let bytes = serialize_to_bytes(&buffer);
    assert_eq!(bytes, vec![0x00, 0x02, 0xC0, 0xDE, 0xCA, 0xFE]);
    let parsed = buffer.parse_all(scursor::ReadCursor::new(&bytes)).unwrap();
    assert_eq!(parsed.values(), &vec![0xC0DE, 0xCAFE]);
}

#[test]
fn parse_all_rejects_trailing_bytes() {
    let buffer = SendBuffer::new(Indexed::new(1, true), Promise::new());
    let bytes = vec![0x00, 0x01, 0xFF, 0x00, 0x09];
    assert_eq!(
        buffer.parse_all(scursor::ReadCursor::new(&bytes)),
        Err(RequestError::Internal(InternalError::TrailingBytes(1)))
    );
}

#[test]
fn parse_all_rejects_invalid_coil_word() {
    let buffer = SendBuffer::new(Indexed::new(1, true), Promise::new());
    let bytes = vec![0x00, 0x01, 0xFF, 0x01];
    assert_eq!(
        buffer.parse_all(scursor::ReadCursor::new(&bytes)),
        Err(RequestError::Internal(InternalError::InvalidCoilValue))
    );
}

#[test]
fn serialize_fails_on_insufficient_space() {
    let buffer = SendBuffer::new(Indexed::new(1, 0xABCD), Promise::new());
    let mut scratch = vec![0u8; 2];
    let mut cursor = scursor::WriteCursor::new(&mut scratch);
    assert_eq!(
        buffer.serialize(&mut cursor),
        Err(RequestError::Internal(InternalError::InsufficientSpace))
    );
}

#[test]
fn handle_response_resolves_the_promise() {
    let mut buffer = SendBuffer::new(Indexed::new(1, true), Promise::new());
    let bytes = vec![0x00, 0x01, 0xFF, 0x00];
    buffer.handle_response(scursor::ReadCursor::new(&bytes)).unwrap();
    assert_eq!(buffer.promise.result(), &Some(Ok(Indexed::new(1, true))));
}

#[test]
fn handle_response_leaves_promise_pending_on_parse_error() {
    let mut buffer = SendBuffer::new(Indexed::new(1, true), Promise::new());
    let bytes = vec![0x00, 0x01];
    assert_eq!(
        buffer.handle_response(scursor::ReadCursor::new(&bytes)),
        Err(RequestError::Internal(InternalError::InsufficientBytes))
    );
    assert_eq!(buffer.promise.result(), &None);
    buffer.failure(RequestError::ResponseTimeout);
    assert_eq!(buffer.promise.result(), &Some(Err(RequestError::ResponseTimeout)));
}

#[test]
fn parse_response_accepts_the_expected_function_code() {
    let request = Indexed::new(1, true);
    let bytes = vec![0x05, 0x00, 0x01, 0xFF, 0x00];
    let mut cursor = scursor::ReadCursor::new(&bytes);
    let response: Indexed<bool> =
        parse_response::<WriteSingleCoil>(&mut cursor, &request).unwrap();
    assert_eq!(response, Indexed::new(1, true));
}

#[test]
fn parse_response_maps_the_exception_frame() {
    let request = Indexed::new(1, true);
    let bytes = vec![0x85, 0x02];
    let mut cursor = scursor::ReadCursor::new(&bytes);
    assert_eq!(
        parse_response::<WriteSingleCoil>(&mut cursor, &request),
        Err(RequestError::Exception(ExceptionCode::IllegalDataAddress))
    );
}

#[test]
fn parse_response_rejects_an_unknown_function_code() {
    let request = Indexed::new(2, 0x1234);
    let bytes = vec![0x07, 0x00];
    let mut cursor = scursor::ReadCursor::new(&bytes);
    assert_eq!(
        parse_response::<WriteSingleRegister>(&mut cursor, &request),
        Err(RequestError::BadResponse(BadResponseError::UnknownResponseFunction(
            0x07, 0x06, 0x86
        )))
    );
}

#[test]
fn parse_response_rejects_trailing_bytes() {
    let request = Indexed::new(1, true);
    let bytes = vec![0x05, 0x00, 0x01, 0xFF, 0x00, 0x00];
    let mut cursor = scursor::ReadCursor::new(&bytes);
    assert_eq!(
        parse_response::<WriteSingleCoil>(&mut cursor, &request),
        Err(RequestError::Internal(InternalError::TrailingBytes(1)))
    );
    let bytes = vec![0x85, 0x02, 0x00];
    let mut cursor = scursor::ReadCursor::new(&bytes);
    assert_eq!(
        parse_response::<WriteSingleCoil>(&mut cursor, &request),
        Err(RequestError::Internal(InternalError::TrailingBytes(1)))
    );
}

#[test]
fn exception_codes_round_trip_through_their_wire_byte() {
    let codes = [
        (1u8, ExceptionCode::IllegalFunction),
        (2, ExceptionCode::IllegalDataAddress),
        (3, ExceptionCode::IllegalDataValue),
        (4, ExceptionCode::ServerDeviceFailure),
        (5, ExceptionCode::Acknowledge),
        (6, ExceptionCode::ServerDeviceBusy),
        (8, ExceptionCode::MemoryParityError),
        (10, ExceptionCode::GatewayPathUnavailable),
        (11, ExceptionCode::GatewayTargetDeviceFailedToRespond),
        (99, ExceptionCode::Unknown(99)),
    ];
    for (byte, code) in codes {
        assert_eq!(ExceptionCode::from_u8(byte), code);
        assert_eq!(code.get_value(), byte);
    }
}

#[test]
fn echo_policing_reports_a_mismatch() {
    assert_eq!(
        check_coil_echo(&Indexed::new(1, true), &Indexed::new(1, true)),
        Ok(())
    );
    assert_eq!(
        check_coil_echo(&Indexed::new(1, true), &Indexed::new(1, false)),
        Err(RequestError::BadResponse(BadResponseError::EchoMismatch))
    );
    assert_eq!(
        check_register_echo(&Indexed::new(2, 0xABCD), &Indexed::new(2, 0xABCD)),
        Ok(())
    );
    assert_eq!(
        check_register_echo(&Indexed::new(2, 0xABCD), &Indexed::new(3, 0xABCD)),
        Err(RequestError::BadResponse(BadResponseError::EchoMismatch))
    );
    let echo = AddressRange::try_from(0, 3).unwrap();
    assert_eq!(check_range_echo(0, 3, &echo), Ok(()));
    assert_eq!(
        check_range_echo(0, 4, &echo),
        Err(RequestError::BadResponse(BadResponseError::EchoMismatch))
    );
}

#[test]
fn a_serialized_request_pdu_starts_with_its_function_code() {
    let request = Indexed::new(1, true);
    let pdu = serialize_request_pdu::<WriteSingleCoil>(&request).unwrap();
    assert_eq!(pdu, vec![0x05, 0x00, 0x01, 0xFF, 0x00]);
    let request = Indexed::new(9, 0xBEEF);
    let pdu = serialize_request_pdu::<WriteSingleRegister>(&request).unwrap();
    assert_eq!(pdu, vec![0x06, 0x00, 0x09, 0xBE, 0xEF]);
}
