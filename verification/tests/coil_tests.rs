use rodbus::service::{parse_response, ReadCoils, WriteMultipleCoils as WriteCoilsService};
use rodbus::{
    AddressRange, Indexed, InternalError, ParseRequest, RequestError, Serialize, WriteMultiple,
};

fn serialize_coils(w: &WriteMultiple<bool>) -> Vec<u8> {
    let mut scratch = vec![0u8; 260];
    let mut cursor = scursor::WriteCursor::new(&mut scratch);
    w.serialize(&mut cursor).unwrap();
    cursor.written().to_vec()
}

#[test]
fn write_multiple_coil_bodies_round_trip() {
    let w = WriteMultiple::<bool>::from(
        0x0003,
        vec![true, false, true, true, false, false, true, false, true],
    )
    .unwrap();
    let bytes = serialize_coils(&w);
    assert_eq!(
        bytes,
        vec![0x00, 0x03, 0x00, 0x09, 0x02, 0b0100_1101, 0b0000_0001]
    );
    let mut cursor = scursor::ReadCursor::new(&bytes);
    let parsed = <WriteMultiple<bool> as ParseRequest>::parse(&mut cursor).unwrap();
    assert_eq!(parsed.start(), 0x0003);
    assert_eq!(
        parsed.values(),
        &vec![true, false, true, true, false, false, true, false, true]
    );
    assert!(cursor.is_empty());
}

#[test]
fn write_multiple_coil_bodies_reject_a_bad_byte_count() {
    let bytes = vec![0x00, 0x03, 0x00, 0x09, 0x03, 0x4D, 0x01, 0x00];
    let mut cursor = scursor::ReadCursor::new(&bytes);
    assert!(matches!(
        <WriteMultiple<bool> as ParseRequest>::parse(&mut cursor),
        Err(RequestError::Internal(InternalError::BadByteCount))
    ));
}

#[test]
fn read_coils_parses_its_packed_response() {
    let request = AddressRange::try_from(4, 10).unwrap();
    // function code, byte count, then ten bits packed low-first
    let bytes = vec![0x01, 0x02, 0b0100_1101, 0b0000_0010];
    let mut cursor = scursor::ReadCursor::new(&bytes);
    let response = parse_response::<ReadCoils>(&mut cursor, &request).unwrap();
    let expected = [true, false, true, true, false, false, true, false, false, true];
    assert_eq!(response.values.len(), 10);
    for (i, value) in expected.iter().enumerate() {
        assert_eq!(response.values[i], Indexed::new(4 + i as u16, *value));
    }
}

#[test]
fn read_coils_rejects_a_byte_count_mismatch() {
    let request = AddressRange::try_from(4, 10).unwrap();
    let bytes = vec![0x01, 0x03, 0x4D, 0x02, 0x00];
    let mut cursor = scursor::ReadCursor::new(&bytes);
    assert!(matches!(
        parse_response::<ReadCoils>(&mut cursor, &request),
        Err(RequestError::Internal(InternalError::BadByteCount))
    ));
}

#[test]
fn write_multiple_coils_accepts_the_echoed_range() {
    let w = WriteMultiple::<bool>::from(0, vec![true, true, true]).unwrap();
    let bytes = vec![0x0F, 0x00, 0x00, 0x00, 0x03];
    let mut cursor = scursor::ReadCursor::new(&bytes);
    let echo = parse_response::<WriteCoilsService>(&mut cursor, &w).unwrap();
    assert_eq!(echo.start(), 0);
    assert_eq!(echo.count(), 3);
}
