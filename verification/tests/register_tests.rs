use rodbus::service::{
    parse_response, ReadHoldingRegisters, Service, WriteMultipleRegisters as WriteRegistersService,
};
use rodbus::{
    AddressRange, BadRequestError, Indexed, InternalError, ParseRequest, RequestError, Serialize,
    WriteMultiple,
};

fn serialize_bytes<T: Serialize>(value: &T) -> Vec<u8> {
    let mut scratch = vec![0u8; 260];
    let mut cursor = scursor::WriteCursor::new(&mut scratch);
    value.serialize(&mut cursor).unwrap();
    cursor.written().to_vec()
}

#[test]
fn address_range_bodies_round_trip() {
    let range = AddressRange::try_from(0x0102, 0x0304).unwrap();
    let bytes = serialize_bytes(&range);
    assert_eq!(bytes, vec![0x01, 0x02, 0x03, 0x04]);
    let mut cursor = scursor::ReadCursor::new(&bytes);
    let parsed = <AddressRange as ParseRequest>::parse(&mut cursor).unwrap();
    assert_eq!(parsed, range);
    assert!(cursor.is_empty());
}

#[test]
fn address_range_bodies_reject_an_invalid_range() {
    let bytes = vec![0x00, 0x01, 0x00, 0x00];
    let mut cursor = scursor::ReadCursor::new(&bytes);
    assert!(matches!(
        <AddressRange as ParseRequest>::parse(&mut cursor),
        Err(RequestError::BadRequest(BadRequestError::InvalidRange))
    ));
}

#[test]
fn write_multiple_register_bodies_round_trip() {
    let w = WriteMultiple::<u16>::from(0x0010, vec![0xCAFE, 0x0001]).unwrap();
    let bytes = serialize_bytes(&w);
    assert_eq!(
        bytes,
        vec![0x00, 0x10, 0x00, 0x02, 0x04, 0xCA, 0xFE, 0x00, 0x01]
    );
    let mut cursor = scursor::ReadCursor::new(&bytes);
    let parsed = <WriteMultiple<u16> as ParseRequest>::parse(&mut cursor).unwrap();
    assert_eq!(parsed.start(), 0x0010);
    assert_eq!(parsed.values(), &vec![0xCAFE, 0x0001]);
    assert!(cursor.is_empty());
}

#[test]
fn write_multiple_register_bodies_reject_a_bad_byte_count() {
    let bytes = vec![0x00, 0x10, 0x00, 0x02, 0x05, 0xCA, 0xFE, 0x00, 0x01];
    let mut cursor = scursor::ReadCursor::new(&bytes);
    assert!(matches!(
        <WriteMultiple<u16> as ParseRequest>::parse(&mut cursor),
        Err(RequestError::Internal(InternalError::BadByteCount))
    ));
}

#[test]
fn read_holding_registers_parses_its_response() {
    let request = AddressRange::try_from(7, 2).unwrap();
    // function code, byte count, then two registers
    let bytes = vec![0x03, 0x04, 0xCA, 0xFE, 0x00, 0x2A];
    let mut cursor = scursor::ReadCursor::new(&bytes);
    let response = parse_response::<ReadHoldingRegisters>(&mut cursor, &request).unwrap();
    assert_eq!(
        response.values,
        vec![Indexed::new(7, 0xCAFE), Indexed::new(8, 0x002A)]
    );
}

#[test]
fn read_holding_registers_rejects_a_byte_count_mismatch() {
    let request = AddressRange::try_from(7, 2).unwrap();
    let bytes = vec![0x03, 0x06, 0xCA, 0xFE, 0x00, 0x2A, 0x00, 0x00];
    let mut cursor = scursor::ReadCursor::new(&bytes);
    assert!(matches!(
        parse_response::<ReadHoldingRegisters>(&mut cursor, &request),
        Err(RequestError::Internal(InternalError::BadByteCount))
    ));
}

#[test]
fn read_request_validity_bounds_the_count_at_125() {
    let ok = AddressRange::try_from(0, 125).unwrap();
    assert!(ReadHoldingRegisters::check_request_validity(&ok).is_ok());
    let too_big = AddressRange::try_from(0, 126).unwrap();
    assert!(matches!(
        ReadHoldingRegisters::check_request_validity(&too_big),
        Err(RequestError::BadRequest(BadRequestError::CountTooBigForType))
    ));
}

#[test]
fn write_multiple_registers_accepts_the_echoed_range() {
    let w = WriteMultiple::<u16>::from(3, vec![1, 2, 4]).unwrap();
    let bytes = vec![0x10, 0x00, 0x03, 0x00, 0x03];
    let mut cursor = scursor::ReadCursor::new(&bytes);
    let echo = parse_response::<WriteRegistersService>(&mut cursor, &w).unwrap();
    assert_eq!(echo.start(), 3);
    assert_eq!(echo.count(), 3);
}
