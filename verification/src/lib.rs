//! A Modbus protocol engine core: the wire codec for the standard function
//! code catalogue, MBAP framing, the client-side request pipeline over a
//! pending-request registry, the reconnection supervisor, and the server
//! dispatcher over a user-supplied request handler. Every function is
//! verified against its contract; the byte-level behaviour of each codec is
//! pinned down to the exact wire bytes.

pub mod bits;
pub mod channel;
pub mod coils;
pub mod cursor;
pub mod error;
pub mod frame;
pub mod function;
pub mod registers;
pub mod send_buffer;
pub mod server;
pub mod service;
pub mod session;
pub mod traits;
pub mod types;

pub use bits::{decode_bits, encode_bits};
pub use channel::{next_state, RetryStrategy, SessionEvent, SessionState};
pub use coils::BitResults;
pub use error::{
    BadRequestError, BadResponseError, ExceptionCode, InternalError, IoError, RequestError,
};
pub use frame::{format_frame, parse_frame, Frame, FrameError, MbapHeader};
pub use function::FunctionCode;
pub use registers::RegisterResults;
pub use send_buffer::{Promise, SendBuffer};
pub use session::{PendingRequest, SessionMap};
pub use server::{
    dispatch, handle_request_pdu, AddressFilter, HostAddress, Request, RequestHandler, Response,
};
pub use service::parse_response;
pub use traits::{ParseRequest, ParseResponse, Serialize};
pub use types::{
    coil_from_u16, coil_to_u16, AddressRange, CustomFunctionCode, Indexed, U16Vec, UnitId,
    WriteMultiple,
};
