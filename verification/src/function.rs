use vstd::prelude::*;

verus! {

/// The public standard Modbus function codes, always routed through the
/// standard decoders.
#[derive(Clone, Copy, Debug, PartialEq, Eq, Structural)]
pub enum FunctionCode {
    ReadCoils,
    ReadDiscreteInputs,
    ReadHoldingRegisters,
    ReadInputRegisters,
    WriteSingleCoil,
    WriteSingleRegister,
    ReadExceptionStatus,
    Diagnostics,
    GetCommEventCounter,
    GetCommEventLog,
    WriteMultipleCoils,
    WriteMultipleRegisters,
    ReportServerId,
    ReadFileRecord,
    WriteFileRecord,
    MaskWriteRegister,
    ReadWriteMultipleRegisters,
    ReadFifoQueue,
}

impl FunctionCode {
    /// The wire byte of the function code.
    pub open spec fn spec_value(self) -> u8 {
        match self {
            FunctionCode::ReadCoils => 1,
            FunctionCode::ReadDiscreteInputs => 2,
            FunctionCode::ReadHoldingRegisters => 3,
            FunctionCode::ReadInputRegisters => 4,
            FunctionCode::WriteSingleCoil => 5,
            FunctionCode::WriteSingleRegister => 6,
            FunctionCode::ReadExceptionStatus => 7,
            FunctionCode::Diagnostics => 8,
            FunctionCode::GetCommEventCounter => 11,
            FunctionCode::GetCommEventLog => 12,
            FunctionCode::WriteMultipleCoils => 15,
            FunctionCode::WriteMultipleRegisters => 16,
            FunctionCode::ReportServerId => 17,
            FunctionCode::ReadFileRecord => 20,
            FunctionCode::WriteFileRecord => 21,
            FunctionCode::MaskWriteRegister => 22,
            FunctionCode::ReadWriteMultipleRegisters => 23,
            FunctionCode::ReadFifoQueue => 24,
        }
    }

    /// The standard function code denoted by a wire byte, if any.
    pub open spec fn spec_get(value: u8) -> Option<FunctionCode> {
        if value == 1 {
            Some(FunctionCode::ReadCoils)
        } else if value == 2 {
            Some(FunctionCode::ReadDiscreteInputs)
        } else if value == 3 {
            Some(FunctionCode::ReadHoldingRegisters)
        } else if value == 4 {
            Some(FunctionCode::ReadInputRegisters)
        } else if value == 5 {
            Some(FunctionCode::WriteSingleCoil)
        } else if value == 6 {
            Some(FunctionCode::WriteSingleRegister)
        } else if value == 7 {
            Some(FunctionCode::ReadExceptionStatus)
        } else if value == 8 {
            Some(FunctionCode::Diagnostics)
        } else if value == 11 {
            Some(FunctionCode::GetCommEventCounter)
        } else if value == 12 {
            Some(FunctionCode::GetCommEventLog)
        } else if value == 15 {
            Some(FunctionCode::WriteMultipleCoils)
        } else if value == 16 {
            Some(FunctionCode::WriteMultipleRegisters)
        } else if value == 17 {
            Some(FunctionCode::ReportServerId)
        } else if value == 20 {
            Some(FunctionCode::ReadFileRecord)
        } else if value == 21 {
            Some(FunctionCode::WriteFileRecord)
        } else if value == 22 {
            Some(FunctionCode::MaskWriteRegister)
        } else if value == 23 {
            Some(FunctionCode::ReadWriteMultipleRegisters)
        } else if value == 24 {
            Some(FunctionCode::ReadFifoQueue)
        } else {
            None
        }
    }

    pub fn get_value(self) -> (r: u8)
        ensures
            r == self.spec_value(),
    {
        match self {
            FunctionCode::ReadCoils => 1,
            FunctionCode::ReadDiscreteInputs => 2,
            FunctionCode::ReadHoldingRegisters => 3,
            FunctionCode::ReadInputRegisters => 4,
            FunctionCode::WriteSingleCoil => 5,
            FunctionCode::WriteSingleRegister => 6,
            FunctionCode::ReadExceptionStatus => 7,
            FunctionCode::Diagnostics => 8,
            FunctionCode::GetCommEventCounter => 11,
            FunctionCode::GetCommEventLog => 12,
            FunctionCode::WriteMultipleCoils => 15,
            FunctionCode::WriteMultipleRegisters => 16,
            FunctionCode::ReportServerId => 17,
            FunctionCode::ReadFileRecord => 20,
            FunctionCode::WriteFileRecord => 21,
            FunctionCode::MaskWriteRegister => 22,
            FunctionCode::ReadWriteMultipleRegisters => 23,
            FunctionCode::ReadFifoQueue => 24,
        }
    }

    pub fn get(value: u8) -> (r: Option<FunctionCode>)
        ensures
            r == Self::spec_get(value),
    {
        match value {
            1 => Some(FunctionCode::ReadCoils),
            2 => Some(FunctionCode::ReadDiscreteInputs),
            3 => Some(FunctionCode::ReadHoldingRegisters),
            4 => Some(FunctionCode::ReadInputRegisters),
            5 => Some(FunctionCode::WriteSingleCoil),
            6 => Some(FunctionCode::WriteSingleRegister),
            7 => Some(FunctionCode::ReadExceptionStatus),
            8 => Some(FunctionCode::Diagnostics),
            11 => Some(FunctionCode::GetCommEventCounter),
            12 => Some(FunctionCode::GetCommEventLog),
            15 => Some(FunctionCode::WriteMultipleCoils),
            16 => Some(FunctionCode::WriteMultipleRegisters),
            17 => Some(FunctionCode::ReportServerId),
            20 => Some(FunctionCode::ReadFileRecord),
            21 => Some(FunctionCode::WriteFileRecord),
            22 => Some(FunctionCode::MaskWriteRegister),
            23 => Some(FunctionCode::ReadWriteMultipleRegisters),
            24 => Some(FunctionCode::ReadFifoQueue),
            _ => None,
        }
    }
}

/// Whether a wire byte names a public standard function code.
pub open spec fn spec_is_standard_code(value: u8) -> bool {
    FunctionCode::spec_get(value) is Some
}

/// Whether a wire byte falls in the Modbus user-defined function code ranges,
/// routed to the custom handler.
pub open spec fn spec_is_user_defined_code(value: u8) -> bool {
    (65 <= value && value <= 72) || (100 <= value && value <= 110)
}

pub fn is_user_defined_code(value: u8) -> (r: bool)
    ensures
        r == spec_is_user_defined_code(value),
{
    (65 <= value && value <= 72) || (100 <= value && value <= 110)
}

/// Law: every standard function code byte stays below the error delimiter,
/// and the user-defined ranges never overlap the standard set.
pub proof fn lemma_code_partition(value: u8)
    ensures
        spec_is_standard_code(value) ==> value < 0x80 && !spec_is_user_defined_code(value),
        spec_is_user_defined_code(value) ==> !spec_is_standard_code(value),
{
}

} // verus!
