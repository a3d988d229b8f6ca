use rodbus::{
    dispatch, handle_request_pdu, AddressFilter, AddressRange, CustomFunctionCode, ExceptionCode,
    HostAddress, Indexed, Request, RequestHandler, Response, WriteMultiple,
};

struct Handler {
    pub coils: [bool; 10],
    pub discrete_inputs: [bool; 10],
    pub holding_registers: [u16; 10],
    pub input_registers: [u16; 10],
}

impl Handler {
    fn new() -> Self {
        Self {
            coils: [false; 10],
            discrete_inputs: [false; 10],
            holding_registers: [0; 10],
            input_registers: [0; 10],
        }
    }
}

impl RequestHandler for Handler {
    fn read_coil(&self, address: u16) -> Result<bool, ExceptionCode> {
        match self.coils.get(address as usize) {
            Some(x) => Ok(*x),
            None => Err(ExceptionCode::IllegalDataAddress),
        }
    }

    fn read_discrete_input(&self, address: u16) -> Result<bool, ExceptionCode> {
        match self.discrete_inputs.get(address as usize) {
            Some(x) => Ok(*x),
            None => Err(ExceptionCode::IllegalDataAddress),
        }
    }

    fn read_holding_register(&self, address: u16) -> Result<u16, ExceptionCode> {
        match self.holding_registers.get(address as usize) {
            Some(x) => Ok(*x),
            None => Err(ExceptionCode::IllegalDataAddress),
        }
    }

    fn read_input_register(&self, address: u16) -> Result<u16, ExceptionCode> {
        match self.input_registers.get(address as usize) {
            Some(x) => Ok(*x),
            None => Err(ExceptionCode::IllegalDataAddress),
        }
    }

    fn write_single_coil(&mut self, value: Indexed<bool>) -> Result<(), ExceptionCode> {
        match self.coils.get_mut(value.index as usize) {
            Some(x) => {
                *x = value.value;
                Ok(())
            }
            None => Err(ExceptionCode::IllegalDataAddress),
        }
    }

    fn write_single_register(&mut self, value: Indexed<u16>) -> Result<(), ExceptionCode> {
        match self.holding_registers.get_mut(value.index as usize) {
            Some(x) => {
                *x = value.value;
                Ok(())
            }
            None => Err(ExceptionCode::IllegalDataAddress),
        }
    }

    fn write_multiple_coils(&mut self, start: u16, values: &Vec<bool>) -> Result<(), ExceptionCode> {
        for (offset, value) in values.iter().enumerate() {
            match self.coils.get_mut(start as usize + offset) {
                Some(c) => *c = *value,
                None => return Err(ExceptionCode::IllegalDataAddress),
            }
        }
        Ok(())
    }

    fn write_multiple_registers(&mut self, start: u16, values: &Vec<u16>) -> Result<(), ExceptionCode> {
        for (offset, value) in values.iter().enumerate() {
            match self.holding_registers.get_mut(start as usize + offset) {
                Some(c) => *c = *value,
                None => return Err(ExceptionCode::IllegalDataAddress),
            }
        }
        Ok(())
    }

    fn process_cfc(
        &mut self,
        values: CustomFunctionCode,
    ) -> Result<CustomFunctionCode, ExceptionCode> {
        match values.function_code() {
            0x41 => {
                // increment each value by 1 and return the result
                let incremented_data = values.values().iter().map(|&val| val + 1).collect();
                Ok(CustomFunctionCode::new(
                    values.function_code(),
                    values.byte_count_in(),
                    values.byte_count_out(),
                    incremented_data,
                ))
            }
            0x42 => {
                // add a new value to the buffer and return the result
                let mut extended_data = values.values().clone();
                extended_data.push(0xC0DE);
                Ok(CustomFunctionCode::new(
                    values.function_code(),
                    values.byte_count_in(),
                    values.byte_count_out(),
                    extended_data,
                ))
            }
            0x43 => {
                // remove the last value from the buffer and return the result
                let mut truncated_data = values.values().clone();
                truncated_data.pop();
                Ok(CustomFunctionCode::new(
                    values.function_code(),
                    values.byte_count_in(),
                    values.byte_count_out(),
                    truncated_data,
                ))
            }
            _ => Err(ExceptionCode::IllegalFunction),
        }
    }
}

fn range(start: u16, count: u16) -> AddressRange {
    AddressRange::try_from(start, count).unwrap()
}

fn read_bits(handler: &mut Handler, request: Request) -> Vec<Indexed<bool>> {
    match dispatch(handler, &request).unwrap() {
        Response::Bits(v) => v,
        _ => panic!("expected a bit response"),
    }
}

fn read_registers(handler: &mut Handler, request: Request) -> Vec<Indexed<u16>> {
    match dispatch(handler, &request).unwrap() {
        Response::Registers(v) => v,
        _ => panic!("expected a register response"),
    }
}

fn custom(handler: &mut Handler, cfc: CustomFunctionCode) -> Result<CustomFunctionCode, ExceptionCode> {
    match dispatch(handler, &Request::SendCustomFunctionCode(cfc)) {
        Ok(Response::Custom(r)) => Ok(r),
        Ok(_) => panic!("expected a custom response"),
        Err(e) => Err(e),
    }
}

fn assert_cfc_eq(got: &CustomFunctionCode, code: u8, len_in: u8, len_out: u8, data: &[u16]) {
    assert_eq!(got.function_code(), code);
    assert_eq!(got.byte_count_in(), len_in);
    assert_eq!(got.byte_count_out(), len_out);
    assert_eq!(got.values().as_slice(), data);
}

#[test]
fn can_read_and_write_values() {
    let mut handler = Handler::new();
    handler.discrete_inputs[0] = true;
    handler.input_registers[0] = 0xCAFE;

    assert_eq!(
        read_bits(&mut handler, Request::ReadDiscreteInputs(range(0, 2))),
        vec![Indexed::new(0, true), Indexed::new(1, false)]
    );

    assert_eq!(
        read_registers(&mut handler, Request::ReadInputRegisters(range(0, 2))),
        vec![Indexed::new(0, 0xCAFE), Indexed::new(1, 0x0000)]
    );

    // do a single coil write and verify that it was written by reading it
    match dispatch(&mut handler, &Request::WriteSingleCoil(Indexed::new(1, true))).unwrap() {
        Response::WriteSingleCoil(echo) => assert_eq!(echo, Indexed::new(1, true)),
        _ => panic!("expected a single-coil echo"),
    }
    assert_eq!(
        read_bits(&mut handler, Request::ReadCoils(range(0, 2))),
        vec![Indexed::new(0, false), Indexed::new(1, true)]
    );

    // do a single register write and verify that it was written by reading it
    match dispatch(&mut handler, &Request::WriteSingleRegister(Indexed::new(1, 0xABCD))).unwrap() {
        Response::WriteSingleRegister(echo) => assert_eq!(echo, Indexed::new(1, 0xABCD)),
        _ => panic!("expected a single-register echo"),
    }
    assert_eq!(
        read_registers(&mut handler, Request::ReadHoldingRegisters(range(0, 2))),
        vec![Indexed::new(0, 0x0000), Indexed::new(1, 0xABCD)]
    );

    // write multiple coils and verify that they were written
    let w = WriteMultiple::<bool>::from(0, vec![true, true, true]).unwrap();
    match dispatch(&mut handler, &Request::WriteMultipleCoils(w)).unwrap() {
        Response::WriteMultiple(echo) => {
            assert_eq!(echo.start(), 0);
            assert_eq!(echo.count(), 3);
        }
        _ => panic!("expected a range echo"),
    }
    assert_eq!(
        read_bits(&mut handler, Request::ReadCoils(range(0, 3))),
        vec![
            Indexed::new(0, true),
            Indexed::new(1, true),
            Indexed::new(2, true)
        ]
    );

    // write registers and verify that they were written
    let w = WriteMultiple::<u16>::from(0, vec![0x0102, 0x0304, 0x0506]).unwrap();
    match dispatch(&mut handler, &Request::WriteMultipleRegisters(w)).unwrap() {
        Response::WriteMultiple(echo) => {
            assert_eq!(echo.start(), 0);
            assert_eq!(echo.count(), 3);
        }
        _ => panic!("expected a range echo"),
    }
    assert_eq!(
        read_registers(&mut handler, Request::ReadHoldingRegisters(range(0, 3))),
        vec![
            Indexed::new(0, 0x0102),
            Indexed::new(1, 0x0304),
            Indexed::new(2, 0x0506)
        ]
    );

    // the implemented custom handlers 0x41, 0x42, 0x43
    let got = custom(
        &mut handler,
        CustomFunctionCode::new(0x41, 4, 4, vec![0xC0DE, 0xCAFE, 0xC0DE, 0xCAFE]),
    )
    .unwrap();
    assert_cfc_eq(&got, 0x41, 4, 4, &[0xC0DF, 0xCAFF, 0xC0DF, 0xCAFF]);

    let got = custom(
        &mut handler,
        CustomFunctionCode::new(0x42, 4, 5, vec![0xC0DE, 0xCAFE, 0xC0DE, 0xCAFE]),
    )
    .unwrap();
    assert_cfc_eq(&got, 0x42, 4, 5, &[0xC0DE, 0xCAFE, 0xC0DE, 0xCAFE, 0xC0DE]);

    let got = custom(
        &mut handler,
        CustomFunctionCode::new(0x43, 4, 3, vec![0xC0DE, 0xCAFE, 0xC0DE, 0xCAFE]),
    )
    .unwrap();
    assert_cfc_eq(&got, 0x43, 4, 3, &[0xC0DE, 0xCAFE, 0xC0DE]);

    // the unimplemented user-defined codes are refused by the handler
    for i in 68..73u8 {
        assert!(matches!(
            custom(
                &mut handler,
                CustomFunctionCode::new(i, 4, 4, vec![0xC0DE, 0xCAFE, 0xC0DE, 0xCAFE])
            ),
            Err(ExceptionCode::IllegalFunction)
        ));
    }
    for i in 100..111u8 {
        assert!(matches!(
            custom(
                &mut handler,
                CustomFunctionCode::new(i, 4, 4, vec![0xC0DE, 0xCAFE, 0xC0DE, 0xCAFE])
            ),
            Err(ExceptionCode::IllegalFunction)
        ));
    }
}

#[test]
fn codes_outside_the_routed_set_yield_illegal_function() {
    let mut handler = Handler::new();
    for code in 0..=255u8 {
        let user_defined = (65..=72).contains(&code) || (100..=110).contains(&code);
        if user_defined {
            continue;
        }
        assert!(matches!(
            custom(
                &mut handler,
                CustomFunctionCode::new(code, 4, 4, vec![0xC0DE, 0xCAFE])
            ),
            Err(ExceptionCode::IllegalFunction)
        ));
    }
}

#[test]
fn read_past_the_store_yields_illegal_data_address() {
    let mut handler = Handler::new();
    assert!(matches!(
        dispatch(&mut handler, &Request::ReadCoils(range(8, 4))),
        Err(ExceptionCode::IllegalDataAddress)
    ));
    assert!(matches!(
        dispatch(&mut handler, &Request::ReadInputRegisters(range(10, 1))),
        Err(ExceptionCode::IllegalDataAddress)
    ));
}

#[test]
fn serves_request_pdus_at_the_byte_level() {
    let mut handler = Handler::new();
    handler.discrete_inputs[0] = true;
    handler.input_registers[0] = 0xCAFE;

    // read two discrete inputs from zero: one byte of packed bits
    let resp = handle_request_pdu(&mut handler, &[0x02, 0x00, 0x00, 0x00, 0x02]).unwrap();
    assert_eq!(resp, vec![0x02, 0x01, 0x01]);

    // read two input registers from zero
    let resp = handle_request_pdu(&mut handler, &[0x04, 0x00, 0x00, 0x00, 0x02]).unwrap();
    assert_eq!(resp, vec![0x04, 0x04, 0xCA, 0xFE, 0x00, 0x00]);

    // write a single coil: the request is echoed byte for byte
    let request = vec![0x05, 0x00, 0x01, 0xFF, 0x00];
    let resp = handle_request_pdu(&mut handler, &request).unwrap();
    assert_eq!(resp, request);
    let resp = handle_request_pdu(&mut handler, &[0x01, 0x00, 0x00, 0x00, 0x02]).unwrap();
    assert_eq!(resp, vec![0x01, 0x01, 0x02]);

    // write two holding registers, then read them back
    let resp = handle_request_pdu(
        &mut handler,
        &[0x10, 0x00, 0x00, 0x00, 0x02, 0x04, 0x01, 0x02, 0x03, 0x04],
    )
    .unwrap();
    assert_eq!(resp, vec![0x10, 0x00, 0x00, 0x00, 0x02]);
    let resp = handle_request_pdu(&mut handler, &[0x03, 0x00, 0x00, 0x00, 0x02]).unwrap();
    assert_eq!(resp, vec![0x03, 0x04, 0x01, 0x02, 0x03, 0x04]);

    // a custom code routed to the handler, which increments each word
    let resp = handle_request_pdu(
        &mut handler,
        &[0x41, 0x02, 0x02, 0xC0, 0xDE, 0xCA, 0xFE],
    )
    .unwrap();
    assert_eq!(resp, vec![0x41, 0x02, 0x02, 0xC0, 0xDF, 0xCA, 0xFF]);

    // a read past the store answers with an exception frame
    let resp = handle_request_pdu(&mut handler, &[0x01, 0x00, 0x08, 0x00, 0x04]).unwrap();
    assert_eq!(resp, vec![0x81, 0x02]);

    // an oversized count answers with IllegalDataValue
    let resp = handle_request_pdu(&mut handler, &[0x03, 0x00, 0x00, 0x00, 0x7E]).unwrap();
    assert_eq!(resp, vec![0x83, 0x03]);

    // codes outside the routed set answer IllegalFunction without closing
    for code in [0x00u8, 0x07, 0x11, 0x20, 0x40, 0x49, 0x64 - 1, 0x6F + 1, 0xFF] {
        if (0x41..=0x48).contains(&code) || (0x64..=0x6E).contains(&code) {
            continue;
        }
        let resp = handle_request_pdu(&mut handler, &[code, 0x00, 0x00]);
        assert_eq!(resp.unwrap(), vec![code | 0x80, 0x01]);
    }

    // a malformed body is an error: the connection closes
    assert!(handle_request_pdu(&mut handler, &[0x05, 0x00]).is_err());
    assert!(handle_request_pdu(&mut handler, &[]).is_err());
}

#[test]
fn the_address_filter_admits_the_documented_peers() {
    let v4 = HostAddress::V4(0x7F000001);
    let v6 = HostAddress::V6(1);
    assert!(AddressFilter::Any.allows(v4));
    assert!(AddressFilter::Any.allows(v6));
    assert!(AddressFilter::AnyV4.allows(v4));
    assert!(!AddressFilter::AnyV4.allows(v6));
    assert!(!AddressFilter::AnyV6.allows(v4));
    assert!(AddressFilter::AnyV6.allows(v6));
    assert!(AddressFilter::Exact(v4).allows(v4));
    assert!(!AddressFilter::Exact(v4).allows(HostAddress::V4(0x7F000002)));
    assert!(!AddressFilter::Exact(v4).allows(v6));
}
