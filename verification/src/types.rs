use vstd::prelude::*;

use crate::error::{BadRequestError, InternalError, RequestError};

verus! {

/// A value at a 16-bit Modbus address.
#[derive(Clone, Copy, Debug, PartialEq, Eq, Structural)]
pub struct Indexed<T> {
    pub index: u16,
    pub value: T,
}

impl<T> Indexed<T> {
    pub fn new(index: u16, value: T) -> (r: Indexed<T>)
        ensures
            r.index == index,
            r.value == value,
    {
        Indexed { index, value }
    }
}

/// Single-byte logical device address on a shared channel.
#[derive(Clone, Copy, Debug, PartialEq, Eq, Structural)]
pub struct UnitId {
    pub value: u8,
}

impl UnitId {
    pub fn new(value: u8) -> (r: UnitId)
        ensures
            r.value == value,
    {
        UnitId { value }
    }
}

/// The wire word that encodes a coil state: 0xFF00 for on, 0x0000 for off.
pub open spec fn spec_coil_to_u16(value: bool) -> u16 {
    if value {
        0xFF00
    } else {
        0x0000
    }
}

/// The coil state denoted by a wire word; any word other than 0xFF00 and
/// 0x0000 is rejected.
pub open spec fn spec_coil_from_u16(value: u16) -> Result<bool, RequestError> {
    if value == 0xFF00 {
        Ok(true)
    } else if value == 0x0000 {
        Ok(false)
    } else {
        Err(RequestError::Internal(InternalError::InvalidCoilValue))
    }
}

pub fn coil_to_u16(value: bool) -> (r: u16)
    ensures
        r == spec_coil_to_u16(value),
{
    if value {
        0xFF00
    } else {
        0x0000
    }
}

pub fn coil_from_u16(value: u16) -> (r: Result<bool, RequestError>)
    ensures
        r == spec_coil_from_u16(value),
{
    if value == 0xFF00 {
        Ok(true)
    } else if value == 0x0000 {
        Ok(false)
    } else {
        Err(RequestError::Internal(InternalError::InvalidCoilValue))
    }
}

/// Law: every coil encodes to one of the two legal wire words, decoding an
/// encoded coil gives the coil back, and decoding any other word fails with
/// InvalidCoilValue.
pub proof fn lemma_coil_encoding(value: bool, word: u16)
    ensures
        spec_coil_to_u16(value) == 0xFF00 || spec_coil_to_u16(value) == 0x0000,
        spec_coil_from_u16(spec_coil_to_u16(value)) == Ok::<bool, RequestError>(value),
        word != 0xFF00 && word != 0x0000 ==> spec_coil_from_u16(word) == Err::<
            bool,
            RequestError,
        >(RequestError::Internal(InternalError::InvalidCoilValue)),
{
}

/// A non-empty range of 16-bit addresses that stays inside the address space.
#[derive(Clone, Copy, Debug, PartialEq, Eq, Structural)]
pub struct AddressRange {
    start: u16,
    count: u16,
}

impl AddressRange {
    pub closed spec fn spec_start(self) -> u16 {
        self.start
    }

    pub closed spec fn spec_count(self) -> u16 {
        self.count
    }

    /// What the validating factory accepts.
    pub open spec fn valid(start: u16, count: u16) -> bool {
        1 <= count && start + count <= 0x10000
    }

    #[verifier::type_invariant]
    pub closed spec fn inv(self) -> bool {
        Self::valid(self.start, self.count)
    }

    /// The validating factory: the only way to obtain an AddressRange.
    pub fn try_from(start: u16, count: u16) -> (r: Result<AddressRange, RequestError>)
        ensures
            Self::valid(start, count) ==> (r matches Ok(a) && a.spec_start() == start
                && a.spec_count() == count),
            !Self::valid(start, count) ==> r == Err::<AddressRange, RequestError>(
                RequestError::BadRequest(BadRequestError::InvalidRange),
            ),
    {
        if count >= 1 && (start as u32) + (count as u32) <= 0x10000 {
            Ok(AddressRange { start, count })
        } else {
            Err(RequestError::BadRequest(BadRequestError::InvalidRange))
        }
    }

    /// Law: no AddressRange with a zero count, or one that runs past the
    /// 16-bit address space, exists; every constructed value satisfies
    /// `valid`.
    pub fn start(&self) -> (r: u16)
        ensures
            r == self.spec_start(),
            Self::valid(self.spec_start(), self.spec_count()),
    {
        proof {
            use_type_invariant(self);
        }
        self.start
    }

    /// Law: see `start`; the count of every constructed range is at least 1.
    pub fn count(&self) -> (r: u16)
        ensures
            r == self.spec_count(),
            Self::valid(self.spec_start(), self.spec_count()),
    {
        proof {
            use_type_invariant(self);
        }
        self.count
    }
}

/// A write of consecutive values starting at one address, size-checked at
/// construction.
#[derive(Debug)]
pub struct WriteMultiple<T> {
    start: u16,
    values: Vec<T>,
}

impl<T> WriteMultiple<T> {
    pub closed spec fn spec_start(self) -> u16 {
        self.start
    }

    pub closed spec fn spec_values(self) -> Seq<T> {
        self.values@
    }

    #[verifier::type_invariant]
    pub closed spec fn inv(self) -> bool {
        1 <= self.values@.len() <= 2000 && self.start + self.values@.len() <= 0x10000
    }

    pub fn start(&self) -> (r: u16)
        ensures
            r == self.spec_start(),
    {
        self.start
    }

    /// Law: every constructed multiple-write holds between 1 and 2000 values
    /// and stays inside the 16-bit address space.
    pub fn values(&self) -> (r: &Vec<T>)
        ensures
            r@ == self.spec_values(),
            1 <= self.spec_values().len() <= 2000,
            self.spec_start() + self.spec_values().len() <= 0x10000,
    {
        proof {
            use_type_invariant(self);
        }
        &self.values
    }

    /// The echoed range of a multiple-write: its start and value count.
    pub fn range(&self) -> (r: AddressRange)
        ensures
            r.spec_start() == self.spec_start(),
            r.spec_count() == self.spec_values().len(),
    {
        proof {
            use_type_invariant(self);
        }
        match AddressRange::try_from(self.start, self.values.len() as u16) {
            Ok(range) => range,
            Err(_) => vstd::pervasive::unreached(),
        }
    }
}

impl WriteMultiple<bool> {
    /// Builds a multiple-coil write: at most 2000 coils, and the addresses
    /// must form a valid range.
    pub fn from(start: u16, values: Vec<bool>) -> (r: Result<WriteMultiple<bool>, RequestError>)
        ensures
            values@.len() > 2000 ==> r == Err::<WriteMultiple<bool>, RequestError>(
                RequestError::BadRequest(BadRequestError::CountTooBigForType),
            ),
            values@.len() <= 2000 && !AddressRange::valid(start, values@.len() as u16) ==> r
                == Err::<WriteMultiple<bool>, RequestError>(
                RequestError::BadRequest(BadRequestError::InvalidRange),
            ),
            values@.len() <= 2000 && AddressRange::valid(start, values@.len() as u16) ==> (
            r matches Ok(w) && w.spec_start() == start && w.spec_values() == values@),
    {
        if values.len() > 2000 {
            Err(RequestError::BadRequest(BadRequestError::CountTooBigForType))
        } else if values.len() >= 1 && (start as usize) + values.len() <= 0x10000 {
            Ok(WriteMultiple { start, values })
        } else {
            Err(RequestError::BadRequest(BadRequestError::InvalidRange))
        }
    }
}

impl WriteMultiple<u16> {
    /// Builds a multiple-register write: at most 123 registers, and the
    /// addresses must form a valid range.
    pub fn from(start: u16, values: Vec<u16>) -> (r: Result<WriteMultiple<u16>, RequestError>)
        ensures
            values@.len() > 123 ==> r == Err::<WriteMultiple<u16>, RequestError>(
                RequestError::BadRequest(BadRequestError::CountTooBigForType),
            ),
            values@.len() <= 123 && !AddressRange::valid(start, values@.len() as u16) ==> r
                == Err::<WriteMultiple<u16>, RequestError>(
                RequestError::BadRequest(BadRequestError::InvalidRange),
            ),
            values@.len() <= 123 && AddressRange::valid(start, values@.len() as u16) ==> (
            r matches Ok(w) && w.spec_start() == start && w.spec_values() == values@),
    {
        if values.len() > 123 {
            Err(RequestError::BadRequest(BadRequestError::CountTooBigForType))
        } else if values.len() >= 1 && (start as usize) + values.len() <= 0x10000 {
            Ok(WriteMultiple { start, values })
        } else {
            Err(RequestError::BadRequest(BadRequestError::InvalidRange))
        }
    }
}

/// A length-prefixed sequence of 16-bit words, the payload form used by the
/// send buffer for raw register data.
#[derive(Clone, Debug)]
pub struct U16Vec {
    values: Vec<u16>,
}

impl U16Vec {
    pub closed spec fn spec_values(self) -> Seq<u16> {
        self.values@
    }

    pub fn new(values: Vec<u16>) -> (r: U16Vec)
        ensures
            r.spec_values() == values@,
    {
        U16Vec { values }
    }

    pub fn len(&self) -> (r: usize)
        ensures
            r == self.spec_values().len(),
    {
        self.values.len()
    }

    pub fn values(&self) -> (r: &Vec<u16>)
        ensures
            r@ == self.spec_values(),
    {
        &self.values
    }
}

/// An opaque user-defined function code with its declared byte counts and
/// 16-bit data words.
#[derive(Clone, Debug)]
pub struct CustomFunctionCode {
    code: u8,
    byte_count_in: u8,
    byte_count_out: u8,
    data: Vec<u16>,
}

impl CustomFunctionCode {
    pub closed spec fn spec_code(self) -> u8 {
        self.code
    }

    pub closed spec fn spec_byte_count_in(self) -> u8 {
        self.byte_count_in
    }

    pub closed spec fn spec_byte_count_out(self) -> u8 {
        self.byte_count_out
    }

    pub closed spec fn spec_data(self) -> Seq<u16> {
        self.data@
    }

    pub fn new(code: u8, byte_count_in: u8, byte_count_out: u8, data: Vec<u16>) -> (r:
        CustomFunctionCode)
        ensures
            r.spec_code() == code,
            r.spec_byte_count_in() == byte_count_in,
            r.spec_byte_count_out() == byte_count_out,
            r.spec_data() == data@,
    {
        CustomFunctionCode { code, byte_count_in, byte_count_out, data }
    }

    pub fn function_code(&self) -> (r: u8)
        ensures
            r == self.spec_code(),
    {
        self.code
    }

    pub fn byte_count_in(&self) -> (r: u8)
        ensures
            r == self.spec_byte_count_in(),
    {
        self.byte_count_in
    }

    pub fn byte_count_out(&self) -> (r: u8)
        ensures
            r == self.spec_byte_count_out(),
    {
        self.byte_count_out
    }

    pub fn values(&self) -> (r: &Vec<u16>)
        ensures
            r@ == self.spec_data(),
    {
        &self.data
    }
}

} // verus!
