use vstd::prelude::*;

verus! {

/// Modbus exception code carried by an error response frame.
#[derive(Clone, Copy, Debug, PartialEq, Eq, Structural)]
pub enum ExceptionCode {
    IllegalFunction,
    IllegalDataAddress,
    IllegalDataValue,
    ServerDeviceFailure,
    Acknowledge,
    ServerDeviceBusy,
    MemoryParityError,
    GatewayPathUnavailable,
    GatewayTargetDeviceFailedToRespond,
    Unknown(u8),
}

impl ExceptionCode {
    /// The exception code denoted by one wire byte.
    pub open spec fn spec_from_u8(value: u8) -> ExceptionCode {
        if value == 1 {
            ExceptionCode::IllegalFunction
        } else if value == 2 {
            ExceptionCode::IllegalDataAddress
        } else if value == 3 {
            ExceptionCode::IllegalDataValue
        } else if value == 4 {
            ExceptionCode::ServerDeviceFailure
        } else if value == 5 {
            ExceptionCode::Acknowledge
        } else if value == 6 {
            ExceptionCode::ServerDeviceBusy
        } else if value == 8 {
            ExceptionCode::MemoryParityError
        } else if value == 10 {
            ExceptionCode::GatewayPathUnavailable
        } else if value == 11 {
            ExceptionCode::GatewayTargetDeviceFailedToRespond
        } else {
            ExceptionCode::Unknown(value)
        }
    }

    /// The wire byte of an exception code.
    pub open spec fn spec_value(self) -> u8 {
        match self {
            ExceptionCode::IllegalFunction => 1,
            ExceptionCode::IllegalDataAddress => 2,
            ExceptionCode::IllegalDataValue => 3,
            ExceptionCode::ServerDeviceFailure => 4,
            ExceptionCode::Acknowledge => 5,
            ExceptionCode::ServerDeviceBusy => 6,
            ExceptionCode::MemoryParityError => 8,
            ExceptionCode::GatewayPathUnavailable => 10,
            ExceptionCode::GatewayTargetDeviceFailedToRespond => 11,
            ExceptionCode::Unknown(value) => value,
        }
    }

    pub fn from_u8(value: u8) -> (r: ExceptionCode)
        ensures
            r == Self::spec_from_u8(value),
    {
        match value {
            1 => ExceptionCode::IllegalFunction,
            2 => ExceptionCode::IllegalDataAddress,
            3 => ExceptionCode::IllegalDataValue,
            4 => ExceptionCode::ServerDeviceFailure,
            5 => ExceptionCode::Acknowledge,
            6 => ExceptionCode::ServerDeviceBusy,
            8 => ExceptionCode::MemoryParityError,
            10 => ExceptionCode::GatewayPathUnavailable,
            11 => ExceptionCode::GatewayTargetDeviceFailedToRespond,
            _ => ExceptionCode::Unknown(value),
        }
    }

    pub fn get_value(self) -> (r: u8)
        ensures
            r == self.spec_value(),
    {
        match self {
            ExceptionCode::IllegalFunction => 1,
            ExceptionCode::IllegalDataAddress => 2,
            ExceptionCode::IllegalDataValue => 3,
            ExceptionCode::ServerDeviceFailure => 4,
            ExceptionCode::Acknowledge => 5,
            ExceptionCode::ServerDeviceBusy => 6,
            ExceptionCode::MemoryParityError => 8,
            ExceptionCode::GatewayPathUnavailable => 10,
            ExceptionCode::GatewayTargetDeviceFailedToRespond => 11,
            ExceptionCode::Unknown(value) => value,
        }
    }
}

/// A framing or codec invariant was violated while reading or writing an ADU.
#[derive(Clone, Copy, Debug, PartialEq, Eq, Structural)]
pub enum InternalError {
    /// The cursor held fewer bytes than the layout requires.
    InsufficientBytes,
    /// The write window was too small for the bytes to be written.
    InsufficientSpace,
    /// The count of bytes left unread after a complete parse.
    TrailingBytes(usize),
    /// A declared byte count disagrees with the announced element count.
    BadByteCount,
    /// A coil word was neither 0x0000 nor 0xFF00.
    InvalidCoilValue,
}

/// The caller handed the library an invalid input.
#[derive(Clone, Copy, Debug, PartialEq, Eq, Structural)]
pub enum BadRequestError {
    /// A range with a zero count or one that runs past the address space.
    InvalidRange,
    /// More values than the function code can carry.
    CountTooBigForType,
}

/// A well-formed ADU whose content does not answer the request.
#[derive(Clone, Copy, Debug, PartialEq, Eq, Structural)]
pub enum BadResponseError {
    /// The function byte received, the expected code, and its error form.
    UnknownResponseFunction(u8, u8, u8),
    /// An echoed value differs from the one in the request.
    EchoMismatch,
}

/// A transport-level fault.
#[derive(Clone, Copy, Debug, PartialEq, Eq, Structural)]
pub enum IoError {
    ConnectionClosed,
    WriteFailed,
    ReadFailed,
}

/// Every way a request can fail to resolve with a response.
#[derive(Clone, Copy, Debug, PartialEq, Eq, Structural)]
pub enum RequestError {
    Internal(InternalError),
    BadRequest(BadRequestError),
    BadResponse(BadResponseError),
    Exception(ExceptionCode),
    Io(IoError),
    ResponseTimeout,
    Shutdown,
    NoConnection,
    QueueFull,
}

} // verus!
